use c4d_plugin_compiler::compiler::sdk::config::{
    legacy_sdk_root, load_sdk_source_config, parse_sdk_source_config,
    sdk_source_config_from_document,
};
use c4d_plugin_compiler::compiler::sdk::installed::{
    app_bundle_candidates, c4d_uninstall_keys, installed_path_supported, normalize_macos_install_root,
    registry_install_location,
};
use c4d_plugin_compiler::compiler::sdk::{configure_preset_names, read_configure_presets};
use c4d_plugin_compiler::fs::{EntryKind, FsEntry, FsSnapshot};
use c4d_plugin_compiler::json::{get_member, JsonValue};
use c4d_plugin_compiler::types::SdkSourceConfig;

fn text(s: &str) -> JsonValue {
    JsonValue::Text(s.to_string())
}

fn object(members: Vec<(&str, JsonValue)>) -> JsonValue {
    JsonValue::Object(
        members
            .into_iter()
            .map(|(key, value)| (key.to_string(), value))
            .collect(),
    )
}

fn typed(root: Option<&str>) -> Result<SdkSourceConfig, String> {
    Ok(SdkSourceConfig {
        sdk_root: root.map(str::to_string),
    })
}

#[test]
fn get_member_finds_object_members_only() {
    let value = object(vec![("a", text("1")), ("b", text("2"))]);
    assert!(matches!(get_member(&value, "b"), Some(JsonValue::Text(s)) if s == "2"));
    assert!(get_member(&value, "c").is_none());
    assert!(get_member(&text("x"), "a").is_none());
}

#[test]
fn legacy_root_is_first_non_blank_nested_sdk_root() {
    let value = object(vec![
        ("2024", object(vec![("sdk_root", text("   "))])),
        ("2025", object(vec![("sdk_root", text("D:/SDK/2025"))])),
        ("2026", object(vec![("sdk_root", text("D:/SDK/2026"))])),
    ]);
    assert_eq!(legacy_sdk_root(&value), Some("D:/SDK/2025".to_string()));
    assert_eq!(legacy_sdk_root(&object(vec![])), None);
    assert_eq!(legacy_sdk_root(&text("D:/SDK")), None);
}

#[test]
fn parse_config_prefers_typed_root_when_sdk_root_present() {
    let value = object(vec![("sdk_root", text("D:/Maxon_SDK"))]);
    let r = sdk_source_config_from_document(Ok(&value), &typed(Some("D:/Maxon_SDK")), Some("/docs"))
        .unwrap();
    assert_eq!(r.sdk_root, Some("D:/Maxon_SDK".to_string()));

    let err = sdk_source_config_from_document(Ok(&value), &Err("bad type".to_string()), Some("/docs"))
        .unwrap_err();
    assert_eq!(err, "Failed to parse SDK root config: bad type");
}

#[test]
fn parse_config_falls_back_to_legacy_then_default() {
    let legacy = object(vec![("2025", object(vec![("sdk_root", text("E:/old"))]))]);
    let r = sdk_source_config_from_document(Ok(&legacy), &typed(None), Some("/docs")).unwrap();
    assert_eq!(r.sdk_root, Some("E:/old".to_string()));

    let empty = object(vec![]);
    let r = sdk_source_config_from_document(Ok(&empty), &typed(None), Some("/docs")).unwrap();
    assert_eq!(r.sdk_root, Some("/docs/Maxon_SDK".to_string()));

    let err = sdk_source_config_from_document(Err("EOF"), &typed(None), None).unwrap_err();
    assert_eq!(err, "Failed to parse SDK config: EOF");
}

#[test]
fn parse_config_reads_the_json_text() {
    let r = parse_sdk_source_config("{\"sdk_root\": \"D:/Maxon_SDK\"}", &typed(Some("D:/Maxon_SDK")), None)
        .unwrap();
    assert_eq!(r.sdk_root, Some("D:/Maxon_SDK".to_string()));

    let r = parse_sdk_source_config(
        "{\"2025\": {\"sdk_root\": \"E:/old\"}}",
        &typed(None),
        Some("/docs"),
    )
    .unwrap();
    assert_eq!(r.sdk_root, Some("E:/old".to_string()));

    let r = parse_sdk_source_config("{}", &typed(None), Some("/docs")).unwrap();
    assert_eq!(r.sdk_root, Some("/docs/Maxon_SDK".to_string()));

    let err = parse_sdk_source_config("{\"sdk_root\": ", &typed(None), None).unwrap_err();
    assert!(err.starts_with("Failed to parse SDK config: EOF while parsing"));
}

#[test]
fn load_config_defaults_when_missing_and_names_read_errors() {
    let r = load_sdk_source_config(
        "/cfg/sdk_sources.json",
        false,
        &Err("denied".to_string()),
        &typed(None),
        None,
    )
    .unwrap();
    assert_eq!(r.sdk_root, Some("./Maxon_SDK".to_string()));

    let err = load_sdk_source_config(
        "/cfg/sdk_sources.json",
        true,
        &Err("denied".to_string()),
        &typed(None),
        None,
    )
    .unwrap_err();
    assert_eq!(err, "Failed to read /cfg/sdk_sources.json: denied");

    let stored = Ok("{\"sdk_root\": \"F:/SDK\"}".to_string());
    let r = load_sdk_source_config("/cfg/x.json", true, &stored, &typed(Some("F:/SDK")), None)
        .unwrap();
    assert_eq!(r.sdk_root, Some("F:/SDK".to_string()));
}

#[test]
fn configure_preset_names_keep_named_presets_in_order() {
    let doc = object(vec![(
        "configurePresets",
        JsonValue::Array(vec![
            object(vec![("name", text("windows_vs2022_v143"))]),
            object(vec![("hidden", JsonValue::Bool(true))]),
            object(vec![("name", text("macos_xcode"))]),
        ]),
    )]);
    assert_eq!(
        configure_preset_names(&doc),
        vec!["windows_vs2022_v143".to_string(), "macos_xcode".to_string()]
    );
    assert!(configure_preset_names(&object(vec![])).is_empty());
}

#[test]
fn read_configure_presets_requires_the_presets_file() {
    let missing = FsSnapshot { entries: Vec::new() };
    let empty = Ok("{}".to_string());
    let err = read_configure_presets(&missing, "/sdk", &empty).unwrap_err();
    assert_eq!(err, "Required file not found: /sdk/CMakePresets.json");

    let fs = FsSnapshot {
        entries: vec![FsEntry {
            path: "/sdk/CMakePresets.json".to_string(),
            kind: EntryKind::File,
            readable_zip: false,
        }],
    };
    let err = read_configure_presets(&fs, "/sdk", &Err("denied".to_string())).unwrap_err();
    assert_eq!(err, "Failed to read /sdk/CMakePresets.json: denied");
    let err = read_configure_presets(&fs, "/sdk", &Ok("[1,".to_string())).unwrap_err();
    assert!(err.starts_with("Failed to parse CMakePresets.json: "));
    assert_eq!(read_configure_presets(&fs, "/sdk", &empty).unwrap(), Vec::<String>::new());

    let presets = Ok(
        "{\"version\": 3, \"configurePresets\": [{\"name\": \"windows_vs2022_v143_x64\"}, {\"hidden\": true}, {\"name\": \"macos_universal_xcode\"}]}"
            .to_string(),
    );
    assert_eq!(
        read_configure_presets(&fs, "/sdk", &presets).unwrap(),
        vec!["windows_vs2022_v143_x64".to_string(), "macos_universal_xcode".to_string()]
    );
}

#[test]
fn registry_install_location_reads_reg_sz_value() {
    let listing = "\r\nHKEY_LOCAL_MACHINE\\SOFTWARE\\Maxon Cinema 4D 2025\r\n    InstallLocation    REG_SZ    C:\\Program Files\\Maxon Cinema 4D 2025\r\n";
    assert_eq!(
        registry_install_location(listing),
        Some("C:\\Program Files\\Maxon Cinema 4D 2025".to_string())
    );
    assert_eq!(registry_install_location("    InstallLocation    REG_SZ    \n"), None);
    assert_eq!(registry_install_location("DisplayName REG_SZ Cinema 4D\n"), None);
}

#[test]
fn uninstall_keys_name_cinema4d_installations() {
    let listing = "HKEY_LOCAL_MACHINE\\Uninstall\\Maxon Cinema 4D\n  HKEY_LOCAL_MACHINE\\Uninstall\\Maxon Cinema 4D 2024  \nHKEY_LOCAL_MACHINE\\Uninstall\\Other\nEnd of search: 2 match(es) found.\n";
    assert_eq!(
        c4d_uninstall_keys(listing),
        vec![
            "HKEY_LOCAL_MACHINE\\Uninstall\\Maxon Cinema 4D".to_string(),
            "HKEY_LOCAL_MACHINE\\Uninstall\\Maxon Cinema 4D 2024".to_string(),
        ]
    );
}

#[test]
fn macos_bundle_paths_stand_for_their_folder() {
    assert_eq!(
        normalize_macos_install_root("/Applications/Maxon Cinema 4D 2025/Cinema 4D.app"),
        "/Applications/Maxon Cinema 4D 2025"
    );
    assert_eq!(
        normalize_macos_install_root("/Applications/Maxon Cinema 4D 2025/Cinema 4D.APP"),
        "/Applications/Maxon Cinema 4D 2025"
    );
    assert_eq!(
        normalize_macos_install_root("/Applications/Maxon Cinema 4D 2025"),
        "/Applications/Maxon Cinema 4D 2025"
    );
}

#[test]
fn installed_path_check_rejects_names_that_split_a_character() {
    assert!(installed_path_supported("/Applications/Maxon Cinema 4D 2025", true));
    assert!(installed_path_supported("/Applications/Maxon Cinema 4D R\u{e4}1", true));
    assert!(!installed_path_supported("/Applications/Maxon Cinema 4D R\u{20ac}", true));
    assert!(installed_path_supported("/Applications/Maxon Cinema 4D R\u{20ac}", false));
    assert!(installed_path_supported("/Applications/Other R\u{20ac}", true));
}

#[test]
fn spotlight_listing_keeps_app_bundles() {
    let listing = "/Applications/Maxon Cinema 4D 2025/Cinema 4D.app\n/Applications/Maxon Cinema 4D 2025/Cinema 4D.app.zip\n  /Applications/Maxon Cinema 4D 2026/Cinema 4D.app\n/Applications/Other.app \n";
    assert_eq!(
        app_bundle_candidates(listing),
        vec![
            "/Applications/Maxon Cinema 4D 2025/Cinema 4D.app".to_string(),
            "/Applications/Maxon Cinema 4D 2026/Cinema 4D.app".to_string(),
        ]
    );
}
