use c4d_plugin_compiler::compiler::package::{
    configuration_suffix, copy_plugin_lib_directories, copy_resources, find_resource_dir,
    package_binary_name, package_folder_name, package_outputs, package_version_label,
    packaged_binary_name, path_contains_ignored_component, zip_archive_path, zip_entries, PackageOp,
    PackageOpKind,
};
use c4d_plugin_compiler::fs::{EntryKind, FsEntry, FsSnapshot};
use c4d_plugin_compiler::types::{BuildConfiguration, BuildRequest, PackageMode, SdkSourceMode};

fn snapshot(entries: &[(&str, EntryKind)]) -> FsSnapshot {
    FsSnapshot {
        entries: entries
            .iter()
            .map(|(path, kind)| FsEntry {
                path: path.to_string(),
                kind: *kind,
                readable_zip: false,
            })
            .collect(),
    }
}

fn test_request(plugin_root: &str, output_dir: &str) -> BuildRequest {
    BuildRequest {
        plugin_root: plugin_root.to_string(),
        module_name: "BackHighlight".to_string(),
        package_name: "BackHighlight".to_string(),
        versions: vec!["2026".to_string()],
        configuration: BuildConfiguration::Release,
        sdk_source: SdkSourceMode::ConfiguredThenInstalledThenOfficial,
        package_mode: PackageMode::PerVersion,
        zip_enabled: false,
        clean_output: true,
        refresh_sdk_cache: false,
        output_dir: Some(output_dir.to_string()),
    }
}

fn ops(list: &[PackageOp]) -> Vec<(PackageOpKind, String, String)> {
    list.iter()
        .map(|op| (op.kind, op.from.clone(), op.to.clone()))
        .collect()
}

fn op(kind: PackageOpKind, from: &str, to: &str) -> (PackageOpKind, String, String) {
    (kind, from.to_string(), to.to_string())
}

#[test]
fn package_release_package_names_use_major_version_without_configuration() {
    assert_eq!(
        package_folder_name("Boghma WaterMark", "2024.4", "Release"),
        "Boghma WaterMark_2024"
    );
    assert_eq!(
        package_binary_name("Boghma WaterMark", "2024.4", "Release", ".xlib"),
        "Boghma WaterMark 2024.xlib"
    );
}

#[test]
fn package_debug_package_names_keep_debug_suffix() {
    assert_eq!(
        package_folder_name("Boghma WaterMark", "2024.4", "Debug"),
        "Boghma WaterMark_2024_Debug"
    );
    assert_eq!(
        package_binary_name("Boghma WaterMark", "2026", "Debug", ".xlib"),
        "Boghma WaterMark 2026_Debug.xlib"
    );
}

#[test]
fn naming_release_package_names_use_major_version_without_configuration() {
    assert_eq!(
        package_folder_name("Boghma WaterMark", "2024.4", "Release"),
        "Boghma WaterMark_2024"
    );
    assert_eq!(
        package_binary_name("Boghma WaterMark", "2024.4", "Release", ".xlib"),
        "Boghma WaterMark 2024.xlib"
    );
}

#[test]
fn naming_debug_package_names_keep_debug_suffix() {
    assert_eq!(
        package_folder_name("Boghma WaterMark", "2024.4", "Debug"),
        "Boghma WaterMark_2024_Debug"
    );
    assert_eq!(
        package_binary_name("Boghma WaterMark", "2026", "Debug", ".xlib"),
        "Boghma WaterMark 2026_Debug.xlib"
    );
}

#[test]
fn version_labels_and_suffixes() {
    assert_eq!(package_version_label("2024.4.1"), "2024");
    assert_eq!(package_version_label("R26"), "R26");
    assert_eq!(configuration_suffix("DEBUG"), "_Debug");
    assert_eq!(configuration_suffix("RelWithDebInfo"), "");
}

#[test]
fn resource_search_skips_output_folders() {
    assert!(path_contains_ignored_component("/p", "/p/dist/res"));
    assert!(path_contains_ignored_component("/p", "/p/a/node_modules/res"));
    assert!(!path_contains_ignored_component("/p", "/p/module/res"));
    assert!(!path_contains_ignored_component("/p", "/q/dist/res"));
}

#[test]
fn copy_resources_prefers_built_res_over_plugin_root_res() {
    let fs = snapshot(&[
        ("/t/Plugin", EntryKind::Dir),
        ("/t/Plugin/res", EntryKind::Dir),
        ("/t/Plugin/project", EntryKind::Dir),
        ("/t/Plugin/source", EntryKind::Dir),
        ("/t/build/bin/Release/res", EntryKind::Dir),
        ("/t/build/bin/Release/Plugin.xdl64", EntryKind::File),
    ]);
    let steps = copy_resources(&fs, "/t/Plugin", "/t/build/bin/Release/Plugin.xdl64", "/t/dist");
    assert_eq!(
        ops(&steps),
        vec![
            op(PackageOpKind::RemoveIfExists, "", "/t/dist/res"),
            op(PackageOpKind::CopyTree, "/t/build/bin/Release/res", "/t/dist/res"),
        ]
    );
}

#[test]
fn resources_fall_back_to_root_then_nested_module() {
    let root_res = snapshot(&[("/p/res", EntryKind::Dir)]);
    assert_eq!(
        find_resource_dir(&root_res, "/p", "/b/x.xlib"),
        Some("/p/res".to_string())
    );
    let nested = snapshot(&[
        ("/p", EntryKind::Dir),
        ("/p/dist/m/res", EntryKind::Dir),
        ("/p/dist/m/project", EntryKind::Dir),
        ("/p/draw.back", EntryKind::Dir),
        ("/p/draw.back/project", EntryKind::Dir),
        ("/p/draw.back/res", EntryKind::Dir),
    ]);
    assert_eq!(
        find_resource_dir(&nested, "/p", "/b/x.xlib"),
        Some("/p/draw.back/res".to_string())
    );
    let none = snapshot(&[("/p", EntryKind::Dir)]);
    assert_eq!(find_resource_dir(&none, "/p", "/b/x.xlib"), None);
}

#[test]
fn mod_per_version_package_copies_nested_module_resources() {
    let fs = snapshot(&[
        ("/t/BackHighlight", EntryKind::Dir),
        ("/t/BackHighlight/draw.back", EntryKind::Dir),
        ("/t/BackHighlight/draw.back/project", EntryKind::Dir),
        ("/t/BackHighlight/draw.back/source", EntryKind::Dir),
        ("/t/BackHighlight/draw.back/res", EntryKind::Dir),
        ("/t/BackHighlight/draw.back/res/c4d_symbols.h", EntryKind::File),
        ("/t/build/bin/Release/draw.back.xdl64", EntryKind::File),
    ]);
    let request = test_request("/t/BackHighlight", "/t/dist");
    let bins = vec![(
        "2025".to_string(),
        "Release".to_string(),
        "/t/build/bin/Release/draw.back.xdl64".to_string(),
    )];
    let plan = package_outputs(&fs, &request, &bins);
    assert_eq!(
        ops(&plan.ops),
        vec![
            op(PackageOpKind::RemoveIfExists, "", "/t/dist"),
            op(PackageOpKind::CreateDirAll, "", "/t/dist"),
            op(PackageOpKind::RemoveIfExists, "", "/t/dist/BackHighlight_2025"),
            op(PackageOpKind::CreateDirAll, "", "/t/dist/BackHighlight_2025"),
            op(PackageOpKind::RemoveIfExists, "", "/t/dist/BackHighlight_2025/res"),
            op(
                PackageOpKind::CopyTree,
                "/t/BackHighlight/draw.back/res",
                "/t/dist/BackHighlight_2025/res"
            ),
            op(
                PackageOpKind::CopyFile,
                "/t/build/bin/Release/draw.back.xdl64",
                "/t/dist/BackHighlight_2025/draw.back.xdl64"
            ),
        ]
    );
    let artifacts = plan.result.unwrap();
    assert_eq!(artifacts.len(), 1);
    assert_eq!(artifacts[0].kind, "version-package");
    assert_eq!(artifacts[0].path, "/t/dist/BackHighlight_2025");
    assert_eq!(artifacts[0].version.as_deref(), Some("2025"));
}

#[test]
fn per_version_package_copies_plugin_lib_directories() {
    let fs = snapshot(&[
        ("/t/Plugin", EntryKind::Dir),
        ("/t/Plugin/libs", EntryKind::Dir),
        ("/t/Plugin/libs/shared/helper.txt", EntryKind::File),
    ]);
    let steps = copy_plugin_lib_directories(&fs, "/t/Plugin", "/t/dist/BackHighlight_2026");
    assert_eq!(
        ops(&steps),
        vec![
            op(PackageOpKind::RemoveIfExists, "", "/t/dist/BackHighlight_2026/libs"),
            op(PackageOpKind::CopyTree, "/t/Plugin/libs", "/t/dist/BackHighlight_2026/libs"),
        ]
    );
    let without = snapshot(&[("/t/Plugin", EntryKind::Dir)]);
    assert!(copy_plugin_lib_directories(&without, "/t/Plugin", "/x").is_empty());
}

/// Binaries in a merged package take the package name and the major
/// version (`BackHighlight 2025.xdl64`), not the binary's own file name
/// (`postwatermark 2025.xdl64`): the changelog's latest entry names this as
/// the fixed behaviour.
#[test]
fn merged_package_names_binaries_after_the_package() {
    let fs = snapshot(&[("/t/Plugin", EntryKind::Dir)]);
    let mut request = test_request("/t/Plugin", "/t/dist");
    request.package_mode = PackageMode::Merged;
    request.zip_enabled = true;
    let bins = vec![
        ("2025".to_string(), "Release".to_string(), "/t/build/2025/postwatermark.xdl64".to_string()),
        ("2026".to_string(), "Release".to_string(), "/t/build/2026/postwatermark.xdl64".to_string()),
    ];
    let plan = package_outputs(&fs, &request, &bins);
    let copies: Vec<String> = plan
        .ops
        .iter()
        .filter(|o| o.kind == PackageOpKind::CopyFile)
        .map(|o| o.to.clone())
        .collect();
    assert_eq!(
        copies,
        vec![
            "/t/dist/BackHighlight/BackHighlight 2025.xdl64".to_string(),
            "/t/dist/BackHighlight/BackHighlight 2026.xdl64".to_string(),
        ]
    );
    let last = plan.ops.last().unwrap();
    assert_eq!(last.kind, PackageOpKind::Zip);
    assert_eq!(last.to, "/t/dist/BackHighlight.zip");
    let artifacts = plan.result.unwrap();
    assert_eq!(artifacts.len(), 2);
    assert_eq!(artifacts[0].kind, "merged-package");
    assert_eq!(artifacts[1].kind, "merged-zip");
    assert_eq!(artifacts[1].path, "/t/dist/BackHighlight.zip");
}

#[test]
fn mod_per_version_package_always_creates_resource_folder() {
    let fs = snapshot(&[("/t/Plugin", EntryKind::Dir)]);
    let request = test_request("/t/Plugin", "/t/dist");
    let bins = vec![(
        "2026".to_string(),
        "Release".to_string(),
        "/t/build/Plugin.xdl64".to_string(),
    )];
    let plan = package_outputs(&fs, &request, &bins);
    assert!(ops(&plan.ops).contains(&op(
        PackageOpKind::CreateDirAll,
        "",
        "/t/dist/BackHighlight_2026/res"
    )));
}

#[test]
fn package_per_version_package_always_creates_resource_folder() {
    let fs = snapshot(&[("/t/Plugin", EntryKind::Dir)]);
    let request = test_request("/t/Plugin", "/t/dist");
    let bins = vec![(
        "2026".to_string(),
        "Release".to_string(),
        "/t/build/Plugin.xdl64".to_string(),
    )];
    let plan = package_outputs(&fs, &request, &bins);
    assert!(ops(&plan.ops).contains(&op(
        PackageOpKind::CreateDirAll,
        "",
        "/t/dist/BackHighlight_2026/res"
    )));
}

#[test]
fn packaging_needs_the_plugin_folder_and_valid_paths() {
    let empty = snapshot(&[]);
    let request = test_request("/t/Plugin", "/t/dist");
    let plan = package_outputs(&empty, &request, &Vec::new());
    assert!(plan.ops.is_empty());
    assert_eq!(
        plan.result.err(),
        Some("Required directory not found: /t/Plugin".to_string())
    );
    assert_eq!(packaged_binary_name("/").unwrap_err(), "Invalid built binary path: /");
    assert_eq!(packaged_binary_name("/b/x.xlib").unwrap(), "x.xlib");
    assert_eq!(zip_archive_path("/out/pkg").unwrap(), "/out/pkg.zip");
    assert_eq!(zip_archive_path("/").unwrap_err(), "Invalid package directory: /");
}

#[test]
fn default_output_folder_is_dist_in_the_plugin() {
    let fs = snapshot(&[("/t/Plugin", EntryKind::Dir)]);
    let mut request = test_request("/t/Plugin", "/unused");
    request.output_dir = None;
    request.clean_output = false;
    request.package_mode = PackageMode::Both;
    let plan = package_outputs(&fs, &request, &Vec::new());
    assert_eq!(
        ops(&plan.ops),
        vec![
            op(PackageOpKind::CreateDirAll, "", "/t/Plugin/dist"),
            op(PackageOpKind::CreateDirAll, "", "/t/Plugin/dist/BackHighlight"),
        ]
    );
    assert_eq!(plan.result.unwrap().len(), 1);
}

#[test]
fn per_version_archives_double_the_artifacts() {
    let fs = snapshot(&[("/t/Plugin", EntryKind::Dir)]);
    let mut request = test_request("/t/Plugin", "/t/dist");
    request.zip_enabled = true;
    let bins = vec![
        ("2025".to_string(), "Release".to_string(), "/b/a.xdl64".to_string()),
        ("2026".to_string(), "Debug".to_string(), "/b/b.xdl64".to_string()),
    ];
    let artifacts = package_outputs(&fs, &request, &bins).result.unwrap();
    let kinds: Vec<&str> = artifacts.iter().map(|a| a.kind.as_str()).collect();
    assert_eq!(kinds, ["version-package", "version-zip", "version-package", "version-zip"]);
    assert_eq!(artifacts[3].path, "/t/dist/BackHighlight_2026_Debug.zip");
}

#[test]
fn zip_entries_name_everything_below_the_package_folder_from_its_parent() {
    let fs = snapshot(&[
        ("/t/dist/Pkg", EntryKind::Dir),
        ("/t/dist/Pkg/res", EntryKind::Dir),
        ("/t/dist/Pkg/res/strings.str", EntryKind::File),
        ("/t/dist/Pkg/Pkg 2025.xdl64", EntryKind::File),
        ("/t/dist/Other/readme.txt", EntryKind::File),
        ("/t/dist/Pkg.zip", EntryKind::File),
    ]);
    let entries: Vec<(String, String, bool)> = zip_entries(&fs, "/t/dist/Pkg")
        .into_iter()
        .map(|e| (e.name, e.source, e.is_dir))
        .collect();
    assert_eq!(
        entries,
        vec![
            ("Pkg".to_string(), "/t/dist/Pkg".to_string(), true),
            ("Pkg/res".to_string(), "/t/dist/Pkg/res".to_string(), true),
            ("Pkg/res/strings.str".to_string(), "/t/dist/Pkg/res/strings.str".to_string(), false),
            ("Pkg/Pkg 2025.xdl64".to_string(), "/t/dist/Pkg/Pkg 2025.xdl64".to_string(), false),
        ]
    );
}

#[test]
fn zip_entries_of_the_file_system_root_skip_its_unnamed_folder() {
    let fs = snapshot(&[("/", EntryKind::Dir), ("/a.txt", EntryKind::File)]);
    let entries: Vec<(String, bool)> = zip_entries(&fs, "/")
        .into_iter()
        .map(|e| (e.name, e.is_dir))
        .collect();
    assert_eq!(entries, vec![("a.txt".to_string(), false)]);
}
