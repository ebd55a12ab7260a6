use c4d_plugin_compiler::compiler::execution::{
    begin_build, execute_build, BuildAction, BuildEvent, BuildStage, BuildState,
};
use c4d_plugin_compiler::compiler::DEFAULT_PRESET_WINDOWS;
use c4d_plugin_compiler::fs::{EntryKind, FsEntry, FsSnapshot};
use c4d_plugin_compiler::types::{
    BuildConfiguration, BuildRequest, PackageMode, SdkResolution, SdkResolutionSource,
    SdkSourceMode,
};
use c4d_plugin_compiler::utils::platform::HostOs;

fn entry(path: &str, kind: EntryKind) -> FsEntry {
    FsEntry {
        path: path.to_string(),
        kind,
        readable_zip: false,
    }
}

fn cmake_sdk(root: &str) -> Vec<FsEntry> {
    vec![
        entry(root, EntryKind::Dir),
        entry(&format!("{root}/CMakeLists.txt"), EntryKind::File),
        entry(&format!("{root}/CMakePresets.json"), EntryKind::File),
        entry(&format!("{root}/cmake"), EntryKind::Dir),
        entry(&format!("{root}/frameworks"), EntryKind::Dir),
        entry(&format!("{root}/plugins"), EntryKind::Dir),
    ]
}

fn legacy_sdk(root: &str) -> Vec<FsEntry> {
    vec![
        entry(root, EntryKind::Dir),
        entry(&format!("{root}/frameworks"), EntryKind::Dir),
        entry(&format!("{root}/plugins"), EntryKind::Dir),
        entry(&format!("{root}/tools/projecttool"), EntryKind::Dir),
        entry(&format!("{root}/generate_solution_osx.command"), EntryKind::File),
    ]
}

fn request() -> BuildRequest {
    BuildRequest {
        plugin_root: "/plugin".to_string(),
        module_name: "BackHighlight".to_string(),
        package_name: "BackHighlight".to_string(),
        versions: vec!["2026".to_string()],
        configuration: BuildConfiguration::Release,
        sdk_source: SdkSourceMode::ConfiguredThenInstalledThenOfficial,
        package_mode: PackageMode::PerVersion,
        zip_enabled: false,
        clean_output: true,
        refresh_sdk_cache: false,
        output_dir: Some("/out".to_string()),
    }
}

fn prepared(root: &str) -> BuildEvent {
    BuildEvent::Prepared {
        result: Ok(SdkResolution {
            version: "2026".to_string(),
            source: SdkResolutionSource::Config,
            sdk_root: Some(root.to_string()),
            archive_path: None,
            download_url: None,
            status: "configured root".to_string(),
        }),
    }
}

#[test]
fn builds_need_a_supported_platform_and_a_valid_request() {
    let fs = FsSnapshot { entries: vec![entry("/plugin", EntryKind::Dir)] };
    assert_eq!(
        begin_build(&fs, HostOs::Linux, &request()).err(),
        Some("C4D builds are currently supported on Windows and macOS".to_string())
    );
    let plan = begin_build(&fs, HostOs::Windows, &request()).unwrap();
    assert_eq!(plan.versions, ["2026"]);
    assert_eq!(plan.configs, ["Release"]);
    assert_eq!(plan.total, 1);
    assert_eq!(plan.extension, "xdl64");
    let empty = FsSnapshot { entries: Vec::new() };
    assert_eq!(
        begin_build(&empty, HostOs::Windows, &request()).err(),
        Some("Required directory not found: /plugin".to_string())
    );
}

#[test]
fn a_cmake_build_runs_from_sdk_to_package() {
    let mut entries = vec![entry("/plugin", EntryKind::Dir)];
    entries.extend(cmake_sdk("/sdk/2026/sdk"));
    let fs = FsSnapshot { entries };
    let req = request();
    let plan = begin_build(&fs, HostOs::Windows, &req).unwrap();
    let home = Some("/home");
    let state = BuildState { stage: BuildStage::Start, built: Vec::new() };

    let (state, action) = execute_build(&fs, home, "job", &req, &plan, state, BuildEvent::Begin);
    assert!(matches!(action, BuildAction::PrepareSdk { ref version } if version == "2026"));
    let (state, action) = execute_build(&fs, home, "job", &req, &plan, state, prepared("/sdk/2026/sdk"));
    assert!(matches!(action, BuildAction::DetectCmake));
    let (state, action) = execute_build(
        &fs,
        home,
        "job",
        &req,
        &plan,
        state,
        BuildEvent::CmakeFound { path: Some("cmake".to_string()) },
    );
    assert!(matches!(action, BuildAction::ReadPresets { ref sdk_root } if sdk_root == "/sdk/2026/sdk"));
    let (state, action) = execute_build(
        &fs,
        home,
        "job",
        &req,
        &plan,
        state,
        BuildEvent::Presets { result: Ok(vec![DEFAULT_PRESET_WINDOWS.to_string()]) },
    );
    assert!(matches!(action, BuildAction::PrepareModuleAlias { ref alias } if alias == "BackHighlight"));
    let (state, action) = execute_build(
        &fs,
        home,
        "job",
        &req,
        &plan,
        state,
        BuildEvent::Alias { result: Ok("/modules".to_string()) },
    );
    let build_dir =
        "/home/.boghma/C4DPluginCompiler/builds/Cinema4D_2026/sdk_2026_sdk/windows_vs2022_v143_x64";
    assert!(matches!(action, BuildAction::CleanDir { ref path } if path == build_dir));
    let (state, action) = execute_build(&fs, home, "job", &req, &plan, state, BuildEvent::Done { result: Ok(()) });
    match action {
        BuildAction::RunCommand { program, args, cwd, create_dir, progress } => {
            assert_eq!(program, "cmake");
            assert_eq!(args[0], "--preset");
            assert_eq!(args[4], "-DMAXON_SDK_MODULES_DIR=/modules");
            assert_eq!(cwd, "/sdk/2026/sdk");
            assert_eq!(create_dir.as_deref(), Some(build_dir));
            assert!(progress.is_none());
        }
        _ => panic!("expected the configure run"),
    }
    let (state, action) = execute_build(&fs, home, "job", &req, &plan, state, BuildEvent::Done { result: Ok(()) });
    match action {
        BuildAction::RunCommand { args, progress, .. } => {
            assert_eq!(args, ["--build", build_dir, "--config", "Release", "--target", "BackHighlight"]);
            let progress = progress.unwrap();
            assert_eq!(progress.current, 1);
            assert_eq!(progress.total, 1);
            assert_eq!(progress.label, "Building C4D 2026 Release");
        }
        _ => panic!("expected the build run"),
    }
    let binary = format!("{build_dir}/bin/Release/plugins/BackHighlight/BackHighlight.xdl64");
    let mut after = fs.entries.clone_entries();
    after.push(entry(&binary, EntryKind::File));
    let fs_after = FsSnapshot { entries: after };
    let (state, action) = execute_build(&fs_after, home, "job", &req, &plan, state, BuildEvent::Done { result: Ok(()) });
    assert_eq!(state.built, vec![("2026".to_string(), "Release".to_string(), binary.clone())]);
    match action {
        BuildAction::Package { plan } => {
            let artifacts = plan.result.unwrap();
            assert_eq!(artifacts[0].path, "/out/BackHighlight_2026");
        }
        _ => panic!("expected packaging"),
    }
}

trait CloneEntries {
    fn clone_entries(&self) -> Vec<FsEntry>;
}

impl CloneEntries for Vec<FsEntry> {
    fn clone_entries(&self) -> Vec<FsEntry> {
        self.iter().map(|e| entry(&e.path, e.kind)).collect()
    }
}

#[test]
fn a_build_stops_at_the_first_failure() {
    let mut entries = vec![entry("/plugin", EntryKind::Dir)];
    entries.extend(cmake_sdk("/sdk/2026/sdk"));
    let fs = FsSnapshot { entries };
    let req = request();
    let plan = begin_build(&fs, HostOs::Windows, &req).unwrap();
    let state = BuildState { stage: BuildStage::Preparing { index: 0 }, built: Vec::new() };
    let (state, action) = execute_build(&fs, None, "job", &req, &plan, state, prepared("/sdk/2026/sdk"));
    let (state, action2) = match action {
        BuildAction::DetectCmake => execute_build(&fs, None, "job", &req, &plan, state, BuildEvent::CmakeFound { path: None }),
        _ => panic!("expected the CMake lookup"),
    };
    assert!(matches!(action2, BuildAction::Fail { ref error } if error == "CMake was not found"));
    assert!(matches!(state.stage, BuildStage::Done));
    let unknown = FsSnapshot { entries: vec![entry("/plugin", EntryKind::Dir)] };
    let start = BuildState { stage: BuildStage::Preparing { index: 0 }, built: Vec::new() };
    let (_, failed) = execute_build(&unknown, None, "job", &req, &plan, start, prepared("/nowhere"));
    assert!(matches!(failed, BuildAction::Fail { ref error } if error == "Unsupported SDK layout: /nowhere"));
}

#[test]
fn missing_presets_are_reported_with_the_offered_ones() {
    let mut entries = vec![entry("/plugin", EntryKind::Dir)];
    entries.extend(cmake_sdk("/sdk"));
    let fs = FsSnapshot { entries };
    let req = request();
    let plan = begin_build(&fs, HostOs::Windows, &req).unwrap();
    let state = BuildState {
        stage: BuildStage::ReadingPresets { index: 0, sdk_root: "/sdk".to_string(), cmake: "cmake".to_string() },
        built: Vec::new(),
    };
    let (_, action) = execute_build(
        &fs,
        None,
        "job",
        &req,
        &plan,
        state,
        BuildEvent::Presets { result: Ok(vec!["linux_ninja".to_string(), "macos_universal_xcode".to_string()]) },
    );
    assert!(matches!(action, BuildAction::Fail { ref error } if error == "SDK 2026 does not provide preset windows_vs2022_v143_x64. Available presets: linux_ninja, macos_universal_xcode"));
}

#[test]
fn legacy_builds_retry_once_when_generated_files_came_late() {
    let mut entries = vec![entry("/plugin", EntryKind::Dir)];
    entries.extend(legacy_sdk("/legacy"));
    let fs = FsSnapshot { entries };
    let req = request();
    let plan = begin_build(&fs, HostOs::Macos, &req).unwrap();
    let state = BuildState { stage: BuildStage::Preparing { index: 0 }, built: Vec::new() };
    let (state, action) = execute_build(&fs, None, "job", &req, &plan, state, prepared("/legacy"));
    assert!(matches!(action, BuildAction::PrepareLegacyWorkspace { ref module_name, .. } if module_name == "BackHighlight"));
    let (state, action) = execute_build(&fs, None, "job", &req, &plan, state, BuildEvent::Done { result: Ok(()) });
    assert!(matches!(action, BuildAction::GenerateLegacyProjects { .. }));
    let (state, action) = execute_build(&fs, None, "job", &req, &plan, state, BuildEvent::Done { result: Ok(()) });
    assert!(matches!(action, BuildAction::BuildLegacy { ref progress, .. } if progress.is_some()));
    let late = "Build input file cannot be found: /legacy/generated/hxx/register.cpp".to_string();
    let (state, action) = execute_build(&fs, None, "job", &req, &plan, state, BuildEvent::LegacyBuilt { result: Err(late.clone()) });
    assert!(matches!(action, BuildAction::BuildLegacy { ref progress, .. } if progress.is_none()));
    let (_, action) = execute_build(&fs, None, "job", &req, &plan, state, BuildEvent::LegacyBuilt { result: Err(late.clone()) });
    assert!(matches!(action, BuildAction::Fail { ref error } if *error == late));
}
