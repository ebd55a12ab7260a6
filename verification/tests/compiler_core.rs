use c4d_plugin_compiler::compiler::{
    current_build_platform, local_data_root, parse_version_list, require_dir, require_file,
    sanitize_path_name, select_build_preset, DEFAULT_PRESET_MACOS, DEFAULT_PRESET_WINDOWS,
    LEGACY_PRESET_WINDOWS,
};
use c4d_plugin_compiler::fs::{EntryKind, FsEntry, FsSnapshot};
use c4d_plugin_compiler::types::CompilerPlatform;
use c4d_plugin_compiler::utils::platform::HostOs;

fn snapshot(entries: &[(&str, EntryKind)]) -> FsSnapshot {
    FsSnapshot {
        entries: entries
            .iter()
            .map(|(path, kind)| FsEntry {
                path: path.to_string(),
                kind: *kind,
                readable_zip: false,
            })
            .collect(),
    }
}

#[test]
fn sanitizes_path_names() {
    assert_eq!(sanitize_path_name("Cinema 4D 2026"), "Cinema_4D_2026");
    assert_eq!(sanitize_path_name("a/b:c"), "a_b_c");
}

#[test]
fn parses_version_ranges() {
    assert_eq!(parse_version_list("2024-2026"), ["2024", "2025", "2026"]);
    assert_eq!(parse_version_list("2025, 2026"), ["2025", "2026"]);
}

#[test]
fn selects_current_windows_cmake_preset() {
    let build_platform = current_build_platform(HostOs::Windows);
    let sdk_2026_presets = vec![
        "linux_ninja".to_string(),
        DEFAULT_PRESET_WINDOWS.to_string(),
        "windows_vs2022_clangcl_x64".to_string(),
    ];
    assert_eq!(
        select_build_preset(&build_platform, &sdk_2026_presets),
        Some(DEFAULT_PRESET_WINDOWS)
    );

    let legacy_presets = vec!["windows_vs2022_v143".to_string()];
    assert_eq!(
        select_build_preset(&build_platform, &legacy_presets),
        Some("windows_vs2022_v143")
    );
}

#[test]
fn macos_preset_is_selected_only_when_offered() {
    let build_platform = current_build_platform(HostOs::Macos);
    let offered = vec!["other".to_string(), DEFAULT_PRESET_MACOS.to_string()];
    assert_eq!(
        select_build_preset(&build_platform, &offered),
        Some(DEFAULT_PRESET_MACOS)
    );
    let missing = vec![LEGACY_PRESET_WINDOWS.to_string()];
    assert_eq!(select_build_preset(&build_platform, &missing), None);
    let linux = current_build_platform(HostOs::Linux);
    assert_eq!(select_build_preset(&linux, &offered), None);
}

#[test]
fn build_platforms_follow_the_operating_system() {
    let windows = current_build_platform(HostOs::Windows);
    assert_eq!(windows.platform, CompilerPlatform::Windows);
    assert_eq!(windows.binary_extension, Some("xdl64"));
    let macos = current_build_platform(HostOs::Macos);
    assert_eq!(macos.preset, Some(DEFAULT_PRESET_MACOS));
    assert_eq!(macos.binary_extension, Some("xlib"));
    let linux = current_build_platform(HostOs::Linux);
    assert_eq!(linux.preset, None);
    assert_eq!(linux.binary_extension, Some("xso64"));
    let other = current_build_platform(HostOs::Other);
    assert_eq!(other.platform, CompilerPlatform::Unsupported);
    assert_eq!(other.binary_extension, None);
}

#[test]
fn version_lists_handle_reversed_ranges_and_blanks() {
    assert_eq!(parse_version_list("2026-2024"), ["2026-2024"]);
    assert_eq!(parse_version_list(" 2025 ,, 2026 ,"), ["2025", "2026"]);
    assert_eq!(parse_version_list("2025 - 2025"), ["2025"]);
    assert!(parse_version_list("   ").is_empty());
}

#[test]
fn sanitizing_trims_separators() {
    assert_eq!(sanitize_path_name("  __x y__  "), "x_y");
    assert_eq!(sanitize_path_name("C:\\SDK\\2024"), "C__SDK_2024");
    assert_eq!(sanitize_path_name("///"), "");
}

#[test]
fn local_data_root_needs_a_home() {
    assert_eq!(
        local_data_root(Some("/home/me")).unwrap(),
        "/home/me/.boghma/C4DPluginCompiler"
    );
    assert_eq!(
        local_data_root(None).unwrap_err(),
        "Failed to resolve home directory"
    );
}

#[test]
fn required_paths_are_checked_by_kind() {
    let fs = snapshot(&[("/p", EntryKind::Dir), ("/p/a.txt", EntryKind::File)]);
    assert!(require_dir(&fs, "/p").is_ok());
    assert_eq!(
        require_dir(&fs, "/p/a.txt").unwrap_err(),
        "Required directory not found: /p/a.txt"
    );
    assert!(require_file(&fs, "/p/a.txt").is_ok());
    assert_eq!(
        require_file(&fs, "/q").unwrap_err(),
        "Required file not found: /q"
    );
}

#[test]
fn sanitizing_twice_changes_nothing() {
    for name in ["Cinema 4D 2026", "__a b__", "x/y\\z", "", "ok-name.v1"] {
        let once = sanitize_path_name(name);
        assert_eq!(sanitize_path_name(&once), once);
        assert!(!once.starts_with('_') && !once.ends_with('_'));
    }
}
