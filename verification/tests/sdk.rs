use c4d_plugin_compiler::compiler::sdk::config::{default_sdk_root, validate_no_spaces};
use c4d_plugin_compiler::compiler::sdk::installed::{
    detect_installed_c4d_versions, installed_c4d_version_from_path, installed_sdk_zip_path,
};
use c4d_plugin_compiler::compiler::sdk::versioning::{
    generated_download_url, installed_c4d_sdk_version, known_sdk_archive_name,
    path_matches_sdk_version, sdk_archive_name, sdk_version_match_tokens, version_folder,
    version_sort_key,
};
use c4d_plugin_compiler::compiler::sdk::{
    auto_configure_sdk_sources, available_sdk_versions, find_configured_sdk_archive,
    find_configured_sdk_root, find_nested_sdk_root, is_cmake_sdk_root, is_legacy_sdk_root,
    known_sdk_version_list,
    prepare_sdk, remove_sdk_source, required_sdk_versions, resolve_sdk_version,
    save_sdk_root_config, sdk_cache_root, sdk_version_option, PrepareAction, PrepareStage,
    SdkContext,
};
use c4d_plugin_compiler::fs::{EntryKind, FsEntry, FsSnapshot};
use c4d_plugin_compiler::text::sort_dedup_vec;
use c4d_plugin_compiler::types::{
    InstalledC4dVersion, SdkResolutionSource, SdkRootConfig, SdkSourceConfig,
};
use c4d_plugin_compiler::utils::platform::HostOs;

fn entry(path: &str, kind: EntryKind, readable_zip: bool) -> FsEntry {
    FsEntry {
        path: path.to_string(),
        kind,
        readable_zip,
    }
}

fn sdk_tree(root: &str) -> Vec<FsEntry> {
    vec![
        entry(root, EntryKind::Dir, false),
        entry(&format!("{root}/CMakeLists.txt"), EntryKind::File, false),
        entry(&format!("{root}/CMakePresets.json"), EntryKind::File, false),
        entry(&format!("{root}/cmake"), EntryKind::Dir, false),
        entry(&format!("{root}/frameworks"), EntryKind::Dir, false),
        entry(&format!("{root}/plugins"), EntryKind::Dir, false),
    ]
}

fn context(root: Option<&str>) -> SdkContext {
    SdkContext {
        os: HostOs::Linux,
        documents_dir: Some("/docs".to_string()),
        stored_config: Ok(SdkSourceConfig {
            sdk_root: root.map(str::to_string),
        }),
    }
}

#[test]
fn available_versions_keep_known_sdk_range() {
    let fs = FsSnapshot { entries: Vec::new() };
    let versions = available_sdk_versions(&fs, &context(None), &Vec::new())
        .into_iter()
        .map(|version| version.version)
        .collect::<Vec<_>>();

    assert!(versions.contains(&"2024.4".to_string()));
    assert!(versions.contains(&"2025".to_string()));
    assert!(versions.contains(&"2026".to_string()));
}

#[test]
fn available_versions_add_installed_and_drop_old_ones() {
    let fs = FsSnapshot { entries: Vec::new() };
    let installed = vec![InstalledC4dVersion {
        version: "2023.2".to_string(),
        path: "/Applications/Maxon Cinema 4D 2023".to_string(),
        sdk_version: "2023".to_string(),
        download_url: String::new(),
    }];
    let rows = available_sdk_versions(&fs, &context(Some("/sdk")), &installed);
    let names: Vec<String> = rows.iter().map(|r| r.version.clone()).collect();
    assert_eq!(names, ["2024.4", "2025", "2026"]);
    assert_eq!(rows[0].label, "Cinema 4D 2024.4");
    assert!(rows[0].configured);
    assert_eq!(rows[0].status, "auto download");
}

#[test]
fn version_tokens_match_minor_sdk_names() {
    let tokens = sdk_version_match_tokens("2024.4");

    assert!(tokens.iter().any(|token| token == "2024.4"));
    assert!(tokens.iter().any(|token| token == "2024_4"));
    assert!(tokens.iter().any(|token| token == "cinema_4d_cpp_sdk_2024_4"));
    assert!(path_matches_sdk_version(
        "/sdk/Cinema_4D_CPP_SDK_2024_4_0",
        "2024.4"
    ));
}

#[test]
fn configured_sdk_root_is_version_specific() {
    let mut entries = vec![
        entry("/r", EntryKind::Dir, false),
        entry("/r/2024_4", EntryKind::Dir, false),
    ];
    entries.extend(sdk_tree("/r/2024_4/Cinema_4D_CPP_SDK_2024_4_0"));
    entries.push(entry("/r/2026_02", EntryKind::Dir, false));
    entries.extend(sdk_tree("/r/2026_02/Cinema_4D_CPP_SDK_2026_2_0"));
    let fs = FsSnapshot { entries };

    assert_eq!(
        find_configured_sdk_root(&fs, "/r", "2024.4").as_deref(),
        Some("/r/2024_4/Cinema_4D_CPP_SDK_2024_4_0")
    );
    assert_eq!(
        find_configured_sdk_root(&fs, "/r", "2026").as_deref(),
        Some("/r/2026_02/Cinema_4D_CPP_SDK_2026_2_0")
    );
    assert_eq!(
        find_configured_sdk_root(&fs, "/r/2026_02/Cinema_4D_CPP_SDK_2026_2_0", "2024.4"),
        None
    );
}

#[test]
fn configured_sdk_archive_finds_version_archive() {
    let fs = FsSnapshot {
        entries: vec![
            entry("/r", EntryKind::Dir, false),
            entry("/r/downloads", EntryKind::Dir, false),
            entry("/r/downloads/Cinema_4D_CPP_SDK_2024_4_0.zip", EntryKind::File, false),
        ],
    };
    assert_eq!(
        find_configured_sdk_archive(&fs, "/r", "2024.4").as_deref(),
        Some("/r/downloads/Cinema_4D_CPP_SDK_2024_4_0.zip")
    );
}

#[test]
fn invalid_configured_archive_is_not_buildable() {
    let fs = FsSnapshot {
        entries: vec![
            entry("/r", EntryKind::Dir, false),
            entry("/r/downloads", EntryKind::Dir, false),
            entry("/r/downloads/Cinema_4D_CPP_SDK_2025_0_1.zip", EntryKind::File, false),
        ],
    };
    let option = sdk_version_option(
        &fs,
        &context(Some("/r")),
        "2025",
        &SdkSourceConfig {
            sdk_root: Some("/r".to_string()),
        },
    );

    assert!(option.status.starts_with("invalid configured archive:"));
    assert_eq!(option.sdk_zip, None);
}

#[test]
fn sdk_layouts_are_recognised() {
    let mut entries = sdk_tree("/cm");
    entries.extend(vec![
        entry("/lg", EntryKind::Dir, false),
        entry("/lg/frameworks", EntryKind::Dir, false),
        entry("/lg/plugins", EntryKind::Dir, false),
        entry("/lg/tools/projecttool", EntryKind::Dir, false),
        entry("/lg/generate_solution_win.bat", EntryKind::File, false),
    ]);
    let fs = FsSnapshot { entries };
    assert!(is_cmake_sdk_root(&fs, "/cm"));
    assert!(!is_legacy_sdk_root(&fs, "/cm"));
    assert!(is_legacy_sdk_root(&fs, "/lg"));
    assert!(!is_cmake_sdk_root(&fs, "/lg"));
    assert_eq!(find_nested_sdk_root(&fs, "/lg").as_deref(), Some("/lg"));
}

#[test]
fn cache_folders_follow_the_configured_root() {
    let fs = FsSnapshot { entries: sdk_tree("/sdk/current") };
    assert_eq!(
        sdk_cache_root(&fs, &context(Some("/sdk/current")), "2024.4"),
        "/sdk/2024_4/sdk"
    );
    assert_eq!(
        sdk_cache_root(&fs, &context(Some("/elsewhere")), "2026"),
        "/elsewhere/2026/sdk"
    );
    assert_eq!(
        sdk_cache_root(&fs, &context(None), "2025"),
        "/docs/Maxon_SDK/2025/sdk"
    );
}

#[test]
fn archive_names_and_download_addresses() {
    assert_eq!(known_sdk_archive_name("2024"), Some("Cinema_4D_CPP_SDK_2024_4_0.zip"));
    assert_eq!(known_sdk_archive_name("2025"), Some("Cinema_4D_CPP_SDK_2025_0_1.zip"));
    assert_eq!(known_sdk_archive_name("2027"), None);
    assert_eq!(sdk_archive_name("2027.1"), "Cinema_4D_CPP_SDK_2027_1_0_0.zip");
    assert_eq!(
        generated_download_url("2026"),
        "https://developers.maxon.net/downloads/Cinema_4D_CPP_SDK_2026_0_0.zip"
    );
    assert_eq!(version_folder("2024.4"), "2024_4");
    assert_eq!(installed_c4d_sdk_version("2025.1.2"), Some("2025".to_string()));
    assert_eq!(installed_c4d_sdk_version("2023.2"), None);
}

#[test]
fn sort_keys_order_releases_and_versions() {
    assert_eq!(version_sort_key("2024.4"), 202404);
    assert_eq!(version_sort_key("2026"), 202600);
    assert_eq!(version_sort_key("R26"), 202600);
    assert_eq!(version_sort_key("S24"), 202401);
    assert_eq!(version_sort_key("junk"), 0);
}

#[test]
fn installed_copies_map_to_sdk_versions() {
    let found = installed_c4d_version_from_path("/Applications/Maxon Cinema 4D 2024", true).unwrap();
    assert_eq!(found.version, "2024");
    assert_eq!(found.sdk_version, "2024.4");
    assert_eq!(
        found.download_url,
        "https://developers.maxon.net/downloads/Cinema_4D_CPP_SDK_2024_4_0.zip"
    );
    assert!(installed_c4d_version_from_path("/Applications/Maxon Cinema 4D 2024 Installer", true).is_none());
    assert!(installed_c4d_version_from_path("/Applications/Maxon Cinema 4D 2024", false).is_none());
    let later = installed_c4d_version_from_path("/Applications/Maxon Cinema 4D 2026", true).unwrap();
    let sorted = detect_installed_c4d_versions(vec![found, later]);
    assert_eq!(sorted[0].version, "2026");
    assert_eq!(sorted[1].version, "2024");
}

#[test]
fn installed_sdk_zips_live_in_the_installation() {
    assert_eq!(
        installed_sdk_zip_path(HostOs::Macos, "2024.4"),
        "/Applications/Maxon Cinema 4D 2024/sdk.zip"
    );
    assert_eq!(
        installed_sdk_zip_path(HostOs::Windows, "2026"),
        "C:\\Program Files\\Maxon Cinema 4D 2026\\sdk.zip"
    );
    assert_eq!(installed_sdk_zip_path(HostOs::Linux, "2026"), "");
}

#[test]
fn sdk_root_changes_are_trimmed_and_checked() {
    let chosen = save_sdk_root_config(
        &SdkRootConfig {
            sdk_root: Some("  /sdk  ".to_string()),
        },
        Some("/docs"),
    )
    .unwrap();
    assert_eq!(chosen.sdk_root.as_deref(), Some("/sdk"));
    let blank = save_sdk_root_config(&SdkRootConfig { sdk_root: Some(" ".to_string()) }, Some("/docs"))
        .unwrap();
    assert_eq!(blank.sdk_root.as_deref(), Some("/docs/Maxon_SDK"));
    assert_eq!(
        save_sdk_root_config(&SdkRootConfig { sdk_root: Some("/my sdk".to_string()) }, None)
            .unwrap_err(),
        "SDK root must not contain spaces: /my sdk"
    );
    assert_eq!(default_sdk_root(None), "./Maxon_SDK");
    assert!(validate_no_spaces("/ok").is_ok());
}

#[test]
fn one_click_setup_stores_the_default_root() {
    let fs = FsSnapshot { entries: Vec::new() };
    let (ctx, report) = auto_configure_sdk_sources(&fs, &context(None), Vec::new()).unwrap();
    assert_eq!(report.sdk_root.as_deref(), Some("/docs/Maxon_SDK"));
    assert_eq!(report.versions.len(), 3);
    assert_eq!(
        ctx.stored_config.unwrap().sdk_root.as_deref(),
        Some("/docs/Maxon_SDK")
    );
    let mut spaced = context(None);
    spaced.documents_dir = Some("/My Documents".to_string());
    assert!(auto_configure_sdk_sources(&fs, &spaced, Vec::new()).is_err());
    let (reset, rows) = remove_sdk_source(&fs, &context(Some("/x")), "2025", &Vec::new());
    assert_eq!(rows.len(), 3);
    assert_eq!(
        reset.stored_config.unwrap().sdk_root.as_deref(),
        Some("/docs/Maxon_SDK")
    );
}

#[test]
fn required_versions_default_to_the_oldest_supported() {
    assert_eq!(required_sdk_versions(&Vec::new()), ["2024.4"]);
    let installed = vec![
        InstalledC4dVersion {
            version: "2026".to_string(),
            path: "/a".to_string(),
            sdk_version: "2026".to_string(),
            download_url: String::new(),
        },
        InstalledC4dVersion {
            version: "2023".to_string(),
            path: "/b".to_string(),
            sdk_version: "2023".to_string(),
            download_url: String::new(),
        },
        InstalledC4dVersion {
            version: "2026.1".to_string(),
            path: "/c".to_string(),
            sdk_version: "2026".to_string(),
            download_url: String::new(),
        },
    ];
    assert_eq!(required_sdk_versions(&installed), ["2026"]);
}

#[test]
fn configured_archives_are_extracted_then_ready() {
    let fs = FsSnapshot {
        entries: vec![
            entry("/r", EntryKind::Dir, false),
            entry("/r/Cinema_4D_CPP_SDK_2025_0_1.zip", EntryKind::File, true),
        ],
    };
    let ctx = context(Some("/r"));
    let resolved = resolve_sdk_version(&fs, &ctx, "2025", false);
    assert_eq!(resolved.source, SdkResolutionSource::Config);
    assert_eq!(resolved.status, "configured archive");

    let (stage, action) = prepare_sdk(&fs, &ctx, "2025", false, PrepareStage::Start, Ok(String::new()));
    match action {
        PrepareAction::Extract { archive, refresh } => {
            assert_eq!(archive, "/r/Cinema_4D_CPP_SDK_2025_0_1.zip");
            assert!(!refresh);
        }
        _ => panic!("expected an extraction"),
    }
    let (_, done) = prepare_sdk(&fs, &ctx, "2025", false, stage, Ok("/r/2025/sdk".to_string()));
    match done {
        PrepareAction::Finish { result } => {
            let resolution = result.unwrap();
            assert_eq!(resolution.sdk_root.as_deref(), Some("/r/2025/sdk"));
            assert_eq!(resolution.status, "ready");
            assert_eq!(resolution.source, SdkResolutionSource::Config);
        }
        _ => panic!("expected the end"),
    }
}

#[test]
fn failed_extraction_falls_back_to_the_official_download() {
    let fs = FsSnapshot {
        entries: vec![
            entry("/r", EntryKind::Dir, false),
            entry("/r/Cinema_4D_CPP_SDK_2025_0_1.zip", EntryKind::File, true),
        ],
    };
    let ctx = context(Some("/r"));
    let (stage, _) = prepare_sdk(&fs, &ctx, "2025", false, PrepareStage::Start, Ok(String::new()));
    let (stage, action) = prepare_sdk(&fs, &ctx, "2025", false, stage, Err("bad zip".to_string()));
    match action {
        PrepareAction::Download { url } => assert_eq!(
            url,
            "https://developers.maxon.net/downloads/Cinema_4D_CPP_SDK_2025_0_1.zip"
        ),
        _ => panic!("expected a download"),
    }
    let (stage, action) = prepare_sdk(&fs, &ctx, "2025", false, stage, Ok("/dl/a.zip".to_string()));
    match action {
        PrepareAction::Extract { archive, refresh } => {
            assert_eq!(archive, "/dl/a.zip");
            assert!(refresh);
        }
        _ => panic!("expected an extraction"),
    }
    let (_, action) = prepare_sdk(&fs, &ctx, "2025", false, stage, Err("no space".to_string()));
    match action {
        PrepareAction::Finish { result } => assert_eq!(
            result.unwrap_err(),
            "bad zip; official SDK fallback failed: no space"
        ),
        _ => panic!("expected the end"),
    }
}

#[test]
fn unknown_versions_have_no_download() {
    let fs = FsSnapshot { entries: Vec::new() };
    let (_, action) = prepare_sdk(&fs, &context(None), "2030", false, PrepareStage::Start, Ok(String::new()));
    match action {
        PrepareAction::Finish { result } => assert_eq!(
            result.unwrap_err(),
            "SDK 2030 did not resolve to a download URL"
        ),
        _ => panic!("expected the end"),
    }
}

#[test]
fn known_sdk_versions_are_listed_oldest_first() {
    let versions: Vec<String> = known_sdk_version_list()
        .into_iter()
        .map(|v| v.into_iter().collect())
        .collect();
    assert_eq!(versions, vec!["2024.4".to_string(), "2025".to_string(), "2026".to_string()]);
}

#[test]
fn sorting_without_repeats_is_ascending_and_keeps_each_element_once() {
    let input: Vec<Vec<char>> = ["b", "a", "b", "ab", "a"]
        .iter()
        .map(|s| s.chars().collect())
        .collect();
    let out: Vec<String> = sort_dedup_vec(&input)
        .into_iter()
        .map(|v| v.into_iter().collect())
        .collect();
    assert_eq!(out, vec!["a".to_string(), "ab".to_string(), "b".to_string()]);
}

fn macos_context() -> SdkContext {
    SdkContext {
        os: HostOs::Macos,
        documents_dir: Some("/docs".to_string()),
        stored_config: Ok(SdkSourceConfig {
            sdk_root: Some("/r".to_string()),
        }),
    }
}

#[test]
fn official_download_comes_before_the_installed_sdk_zip() {
    let fs = FsSnapshot {
        entries: vec![entry("/Applications/Maxon Cinema 4D 2025/sdk.zip", EntryKind::File, true)],
    };
    let resolved = resolve_sdk_version(&fs, &macos_context(), "2025", true);
    assert_eq!(resolved.source, SdkResolutionSource::OfficialDownload);
    assert_eq!(resolved.status, "auto download");
    assert_eq!(resolved.archive_path, None);
}

#[test]
fn cache_comes_before_the_installed_sdk_zip() {
    let mut entries = vec![entry("/Applications/Maxon Cinema 4D 2025/sdk.zip", EntryKind::File, true)];
    entries.extend(sdk_tree("/r/2025/sdk"));
    let fs = FsSnapshot { entries };
    let resolved = resolve_sdk_version(&fs, &macos_context(), "2025", false);
    assert_eq!(resolved.source, SdkResolutionSource::Cache);
    assert_eq!(resolved.sdk_root.as_deref(), Some("/r/2025/sdk"));
}

#[test]
fn installed_sdk_zip_is_the_last_fallback() {
    let fs = FsSnapshot {
        entries: vec![entry("/Applications/Maxon Cinema 4D 2030/sdk.zip", EntryKind::File, true)],
    };
    let resolved = resolve_sdk_version(&fs, &macos_context(), "2030", false);
    assert_eq!(resolved.source, SdkResolutionSource::InstalledZip);
    assert_eq!(
        resolved.archive_path.as_deref(),
        Some("/Applications/Maxon Cinema 4D 2030/sdk.zip")
    );
    let row = sdk_version_option(&fs, &macos_context(), "2030", &SdkSourceConfig { sdk_root: Some("/r".to_string()) });
    assert_eq!(row.sdk_zip.as_deref(), Some("/Applications/Maxon Cinema 4D 2030/sdk.zip"));
    assert_eq!(row.status, "installed sdk.zip");
}
