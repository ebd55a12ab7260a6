use c4d_plugin_compiler::compiler::driver::{
    build_args, build_dir_for, build_log_timestamp, c4d_module_name_from_project_file,
    cmake_target_name, command_failure_summary, command_log_category, configure_args,
    copy_dir_recursive, diagnostic_context, discover_nested_cmake_module_names,
    ensure_legacy_solution_includes_module, find_legacy_plugin_binary, find_plugin_binary,
    is_diagnostic_line, is_ignored_plugin_copy_name, is_missing_legacy_generated_file_error,
    resolve_cmake_build_module_name, resolve_legacy_xcode_project, select_legacy_xcode_scheme,
    should_copy_plugin_entry, tail_lines, validate_request, CopyStep,
};
use c4d_plugin_compiler::fs::{EntryKind, FsEntry, FsSnapshot};
use c4d_plugin_compiler::types::{BuildConfiguration, BuildRequest, PackageMode, SdkSourceMode};

fn snapshot(entries: &[(&str, EntryKind)]) -> FsSnapshot {
    FsSnapshot {
        entries: entries
            .iter()
            .map(|(path, kind)| FsEntry {
                path: path.to_string(),
                kind: *kind,
                readable_zip: false,
            })
            .collect(),
    }
}

fn request(plugin_root: &str) -> BuildRequest {
    BuildRequest {
        plugin_root: plugin_root.to_string(),
        module_name: "BackHighlight".to_string(),
        package_name: "BackHighlight".to_string(),
        versions: vec!["2026".to_string()],
        configuration: BuildConfiguration::Release,
        sdk_source: SdkSourceMode::ConfiguredThenInstalledThenOfficial,
        package_mode: PackageMode::PerVersion,
        zip_enabled: false,
        clean_output: true,
        refresh_sdk_cache: false,
        output_dir: None,
    }
}

#[test]
fn cmake_target_name_removes_spaces() {
    assert_eq!(cmake_target_name("Boghma WaterMark"), "Boghma_WaterMark");
}

#[test]
fn cmake_target_name_keeps_names_that_sanitize_to_nothing() {
    assert_eq!(cmake_target_name("___"), "___");
    assert_eq!(cmake_target_name("  "), "  ");
}

#[test]
fn command_failure_summary_prefers_compiler_errors() {
    let text = [
        "CompileC very long command",
        "/plugin/source/main.cpp:38:1: error: unknown type name 'Bool'",
        "Bool PluginStart()",
        "5 errors generated.",
        "** BUILD FAILED **",
        "The following build commands failed:",
        "CompileC main.o",
    ]
    .join("\n");

    let summary = command_failure_summary(&text);

    assert!(summary.contains("unknown type name 'Bool'"));
    assert!(summary.contains("** BUILD FAILED **"));
}

#[test]
fn diagnostic_context_marks_skipped_lines() {
    let lines: Vec<String> = (0..12).map(|i| format!("line {i}")).collect();
    let mut text_lines = lines.clone();
    text_lines[1] = "a.cpp:1: error: first".to_string();
    text_lines[10] = "fatal error: second".to_string();
    let text = text_lines.join("\n");
    let context = diagnostic_context(&text);
    assert_eq!(
        context,
        [
            "line 0",
            "a.cpp:1: error: first",
            "line 2",
            "line 3",
            "line 4",
            "...",
            "line 8",
            "line 9",
            "fatal error: second",
            "line 11",
        ]
        .join("\n")
    );
}

#[test]
fn command_failure_summary_falls_back_to_the_last_lines() {
    let text: Vec<String> = (0..100).map(|i| format!("out {i}")).collect();
    let summary = command_failure_summary(&text.join("\n"));
    assert_eq!(summary, text[20..].join("\n"));
    assert_eq!(diagnostic_context("all good\nstill good"), "");
}

#[test]
fn tail_lines_keeps_the_last_lines() {
    assert_eq!(tail_lines("a\nb\nc\n", 2), "b\nc");
    assert_eq!(tail_lines("a\r\nb", 5), "a\nb");
    assert_eq!(tail_lines("", 3), "");
}

#[test]
fn diagnostic_lines_are_recognised() {
    assert!(is_diagnostic_line("x.cpp:3: error: bad"));
    assert!(is_diagnostic_line("** BUILD FAILED **"));
    assert!(is_diagnostic_line("The following build commands failed:"));
    assert!(!is_diagnostic_line("warning: unused"));
}

#[test]
fn legacy_xcode_scheme_matches_module_case_insensitively() {
    let schemes = vec![
        "boghma watermark".to_string(),
        "cinema.framework".to_string(),
    ];

    assert_eq!(
        select_legacy_xcode_scheme(&schemes, "Boghma WaterMark"),
        Some("boghma watermark".to_string())
    );
}

#[test]
fn legacy_xcode_scheme_falls_back_to_non_framework_scheme() {
    let schemes = vec![
        "cinema.framework".to_string(),
        "custom scheme".to_string(),
        "core.framework".to_string(),
    ];

    assert_eq!(
        select_legacy_xcode_scheme(&schemes, "Missing Module"),
        Some("custom scheme".to_string())
    );
}

#[test]
fn legacy_xcode_scheme_is_none_among_frameworks() {
    let schemes = vec!["cinema.framework".to_string()];
    assert_eq!(select_legacy_xcode_scheme(&schemes, "Module"), None);
    assert_eq!(select_legacy_xcode_scheme(&[], "Module"), None);
}

#[test]
fn missing_generated_file_errors_are_retried() {
    let error = "error: Build input file cannot be found: '/sdk/generated/hxx/register.cpp'";
    assert!(is_missing_legacy_generated_file_error(error));
    assert!(!is_missing_legacy_generated_file_error(
        "Build input file cannot be found: main.cpp"
    ));
}

#[test]
fn plugin_copies_leave_out_vcs_caches_and_outputs() {
    for name in [".git", ".hg", ".svn", ".cache", ".pytest_cache", ".idea", ".vscode", "__pycache__", "build", "dist", "node_modules", "target"] {
        assert!(is_ignored_plugin_copy_name(name));
    }
    assert!(!is_ignored_plugin_copy_name("source"));
    assert!(should_copy_plugin_entry("/p", "/p"));
    assert!(should_copy_plugin_entry("/p", "/p/source/main.cpp"));
    assert!(!should_copy_plugin_entry("/p", "/p/.git/config"));
    assert!(!should_copy_plugin_entry("/p", "/p/source/build/x.o"));
    assert!(should_copy_plugin_entry("/p", "/elsewhere/.git"));
}

#[test]
fn legacy_workspace_copy_skips_vcs_and_cache_dirs() {
    let fs = snapshot(&[
        ("/src", EntryKind::Dir),
        ("/src/source", EntryKind::Dir),
        ("/src/source/main.cpp", EntryKind::File),
        ("/src/.git", EntryKind::Dir),
        ("/src/.git/config", EntryKind::File),
        ("/src/dist", EntryKind::Dir),
        ("/src/dist/old.zip", EntryKind::File),
        ("/src/fsmonitor--daemon.ipc", EntryKind::Other),
    ]);
    let steps = copy_dir_recursive(&fs, "/src", "/dst");
    let described: Vec<(bool, String, String)> = steps
        .into_iter()
        .map(|step| match step {
            CopyStep::CreateDir { path } => (true, String::new(), path),
            CopyStep::CopyFile { from, to } => (false, from, to),
        })
        .collect();
    assert_eq!(
        described,
        vec![
            (true, String::new(), "/dst/".to_string()),
            (true, String::new(), "/dst/source".to_string()),
            (false, "/src/source/main.cpp".to_string(), "/dst/source/main.cpp".to_string()),
        ]
    );
}

#[test]
fn legacy_workspace_copy_skips_special_files() {
    let fs = snapshot(&[
        ("/c4d-plugin-source-socket", EntryKind::Dir),
        ("/c4d-plugin-source-socket/projectdefinition.txt", EntryKind::File),
        ("/c4d-plugin-source-socket/fsmonitor--daemon.ipc", EntryKind::Other),
    ]);
    let steps = copy_dir_recursive(&fs, "/c4d-plugin-source-socket", "/c4d-plugin-target-socket");
    let copied: Vec<String> = steps
        .into_iter()
        .filter_map(|step| match step {
            CopyStep::CopyFile { to, .. } => Some(to),
            CopyStep::CreateDir { .. } => None,
        })
        .collect();
    assert!(copied.contains(&"/c4d-plugin-target-socket/projectdefinition.txt".to_string()));
    assert!(!copied.iter().any(|path| path.ends_with("fsmonitor--daemon.ipc")));
}

#[test]
fn project_files_name_their_module() {
    assert_eq!(
        c4d_module_name_from_project_file("/p", "/p/draw.back/project/projectdefinition.txt"),
        Some("draw.back".to_string())
    );
    assert_eq!(
        c4d_module_name_from_project_file("/p", "/p/project/projectdefinition.txt"),
        None
    );
    assert_eq!(
        c4d_module_name_from_project_file("/p", "/p/a/source/CMakeLists.txt"),
        None
    );
}

#[test]
fn cmake_build_module_name_uses_requested_name_for_direct_module() {
    let fs = snapshot(&[
        ("/plugin", EntryKind::Dir),
        ("/plugin/project", EntryKind::Dir),
        ("/plugin/project/projectdefinition.txt", EntryKind::File),
    ]);
    let resolved = resolve_cmake_build_module_name(&fs, "/plugin", "BackHighlight").unwrap();
    assert_eq!(resolved, "BackHighlight");
}

#[test]
fn cmake_build_module_name_uses_single_nested_projectdefinition_module() {
    let fs = snapshot(&[
        ("/plugin", EntryKind::Dir),
        ("/plugin/draw.back", EntryKind::Dir),
        ("/plugin/draw.back/project", EntryKind::Dir),
        ("/plugin/draw.back/project/projectdefinition.txt", EntryKind::File),
    ]);
    let resolved = resolve_cmake_build_module_name(&fs, "/plugin", "BackHighlight").unwrap();
    assert_eq!(resolved, "draw.back");
}

#[test]
fn cmake_build_module_name_matches_or_refuses_several_modules() {
    let fs = snapshot(&[
        ("/plugin", EntryKind::Dir),
        ("/plugin/b mod/project/CMakeLists.txt", EntryKind::File),
        ("/plugin/alpha/project/projectdefinition.txt", EntryKind::File),
        ("/plugin/alpha/project/CMakeLists.txt", EntryKind::File),
    ]);
    assert_eq!(
        discover_nested_cmake_module_names(&fs, "/plugin"),
        vec!["alpha".to_string(), "b mod".to_string()]
    );
    assert_eq!(
        resolve_cmake_build_module_name(&fs, "/plugin", "B_MOD").unwrap(),
        "b mod"
    );
    assert_eq!(
        resolve_cmake_build_module_name(&fs, "/plugin", "other").unwrap_err(),
        "Multiple CMake modules were found under /plugin: alpha, b mod. Rename the package to match one module or build one module folder at a time."
    );
    let empty = snapshot(&[("/plugin", EntryKind::Dir)]);
    assert_eq!(
        resolve_cmake_build_module_name(&empty, "/plugin", "Req").unwrap(),
        "Req"
    );
}

#[test]
fn plugin_binaries_are_found_where_builds_put_them() {
    let fs = snapshot(&[
        ("/build", EntryKind::Dir),
        ("/build/bin/Release/plugins/M/M.xlib", EntryKind::File),
        ("/build/other/M.xdl64", EntryKind::File),
    ]);
    assert_eq!(
        find_plugin_binary(&fs, "/build", "Release", "M", "xlib").unwrap(),
        "/build/bin/Release/plugins/M/M.xlib"
    );
    assert_eq!(
        find_plugin_binary(&fs, "/build", "Release", "M", "xdl64").unwrap(),
        "/build/other/M.xdl64"
    );
    assert_eq!(
        find_plugin_binary(&fs, "/build", "Debug", "N", "xlib").unwrap_err(),
        "Built binary N.xlib was not found under /build"
    );
}

#[test]
fn legacy_plugin_binaries_are_found_in_build_or_plugin_folders() {
    let fs = snapshot(&[
        ("/sdk/plugins/M/M.xlib", EntryKind::File),
        ("/sdk/build/Debug/M.xlib", EntryKind::File),
        ("/sdk/plugins/M/deep/M.xdl64", EntryKind::File),
    ]);
    assert_eq!(
        find_legacy_plugin_binary(&fs, "/sdk", "Debug", "M", "xlib").unwrap(),
        "/sdk/build/Debug/M.xlib"
    );
    assert_eq!(
        find_legacy_plugin_binary(&fs, "/sdk", "Release", "M", "xlib").unwrap(),
        "/sdk/plugins/M/M.xlib"
    );
    assert_eq!(
        find_legacy_plugin_binary(&fs, "/sdk", "Release", "M", "xdl64").unwrap(),
        "/sdk/plugins/M/deep/M.xdl64"
    );
    assert_eq!(
        find_legacy_plugin_binary(&fs, "/sdk", "Release", "Q", "xlib").unwrap_err(),
        "Built binary Q.xlib was not found under /sdk"
    );
}

#[test]
fn legacy_xcode_project_falls_back_to_nested_generated_project() {
    let fs = snapshot(&[
        ("/sdk/plugins/Draw.back", EntryKind::Dir),
        ("/sdk/plugins/Draw.back/draw.back", EntryKind::Dir),
        ("/sdk/plugins/Draw.back/draw.back/project", EntryKind::Dir),
        (
            "/sdk/plugins/Draw.back/draw.back/project/draw.back.xcodeproj",
            EntryKind::Dir,
        ),
    ]);
    let resolved = resolve_legacy_xcode_project(&fs, "/sdk", "Draw.back").unwrap();
    assert_eq!(
        resolved,
        "/sdk/plugins/Draw.back/draw.back/project/draw.back.xcodeproj"
    );
    let none = snapshot(&[("/sdk/plugins/X", EntryKind::Dir)]);
    assert_eq!(
        resolve_legacy_xcode_project(&none, "/sdk", "X").unwrap_err(),
        "Legacy Xcode project was not generated under /sdk/plugins/X"
    );
}

#[test]
fn legacy_solution_gets_the_module_once() {
    let text = "Platform=Win64;OSX\nSolution=\\\n\tplugins/cinema4dsdk;\\\n\tplugins/example \n";
    assert_eq!(
        ensure_legacy_solution_includes_module(text, "Mine").unwrap(),
        "Platform=Win64;OSX\nSolution=\\\n\tplugins/cinema4dsdk;\\\n\tplugins/example;\\\n\tplugins/Mine\n"
    );
    assert_eq!(
        ensure_legacy_solution_includes_module(text, "example"),
        None
    );
    assert_eq!(
        ensure_legacy_solution_includes_module("Platform=Win64\n", "Mine").unwrap(),
        "Platform=Win64\nSolution=\\\n\tplugins/Mine\n"
    );
}

#[test]
fn build_folders_and_command_lines() {
    assert_eq!(
        build_dir_for(Some("/home/u"), "/sdk root", "2026", "macos_universal_xcode").unwrap(),
        "/home/u/.boghma/C4DPluginCompiler/builds/Cinema4D_2026/sdk_root/macos_universal_xcode"
    );
    assert!(build_dir_for(None, "/sdk", "2026", "p").is_err());
    assert_eq!(
        configure_args("p", "/b", "/m"),
        ["--preset", "p", "-B", "/b", "-DMAXON_SDK_MODULES_DIR=/m", "-DMAXON_SDK_CUSTOM_PATHS_FILE="]
    );
    assert_eq!(
        build_args("/b", "Debug", "T"),
        ["--build", "/b", "--config", "Debug", "--target", "T"]
    );
}

#[test]
fn command_output_categories() {
    assert_eq!(command_log_category("/usr/local/bin/CMake"), "cmake");
    assert_eq!(command_log_category("xcodebuild"), "xcode");
    assert_eq!(command_log_category("/sdk/generate_solution_osx.command"), "sdk");
    assert_eq!(command_log_category("clang"), "toolchain");
}

#[test]
fn build_timestamps_are_decimal_millis() {
    assert_eq!(build_log_timestamp(0), "0");
    assert_eq!(build_log_timestamp(1719273600123), "1719273600123");
}

#[test]
fn requests_are_validated_before_building() {
    let fs = snapshot(&[("/plugin", EntryKind::Dir)]);
    assert!(validate_request(&fs, &request("/plugin")).is_ok());
    let mut blank = request("  ");
    assert_eq!(validate_request(&fs, &blank).unwrap_err(), "Plugin root is required");
    blank = request("/plugin");
    blank.module_name = " ".to_string();
    assert_eq!(validate_request(&fs, &blank).unwrap_err(), "Module name is required");
    blank = request("/plugin");
    blank.package_name = String::new();
    assert_eq!(validate_request(&fs, &blank).unwrap_err(), "Package name is required");
    blank = request("/plugin");
    blank.versions.clear();
    assert_eq!(
        validate_request(&fs, &blank).unwrap_err(),
        "At least one C4D version is required"
    );
    assert_eq!(
        validate_request(&fs, &request("/missing")).unwrap_err(),
        "Required directory not found: /missing"
    );
}

#[test]
fn legacy_solution_edit_happens_once() {
    let text = "Solution=\\\n\tplugins/a;\\\n\tplugins/b\n";
    let edited = ensure_legacy_solution_includes_module(text, "mine").unwrap();
    assert_eq!(ensure_legacy_solution_includes_module(&edited, "mine"), None);
}
