use c4d_plugin_compiler::commands::{
    artifact_folder, check_emergency_save, check_recovery_size, crash_log_entry, emergency_data,
    expired_recovery_files,
    folder_opener, is_expired_recovery_file, panic_message, process_log_dir, recovery_cutoff,
    recovery_file_path, task_panic_message,
};
use c4d_plugin_compiler::compiler::sdk::versioning::normalize_path_key;
use c4d_plugin_compiler::json::JsonValue;
use c4d_plugin_compiler::types::{
    validate_filename, validate_string_input, validate_theme, AppPreferences, BuildConfiguration,
    RecoveryError, MAX_RECOVERY_DATA_BYTES,
};
use c4d_plugin_compiler::utils::platform::HostOs;

#[test]
fn file_names_are_checked_before_use() {
    assert!(validate_filename("session_1").is_ok());
    assert!(validate_filename("data.backup").is_ok());
    assert!(validate_filename("").is_err());
    assert!(validate_filename("../etc/passwd").is_err());
    assert!(validate_filename("bad name!").is_err());
}

#[test]
fn text_inputs_and_themes_are_checked() {
    assert!(validate_string_input("abc", 3, "Name").is_ok());
    assert!(validate_string_input("abcd", 3, "Name").is_err());
    assert!(validate_theme("dark").is_ok());
    assert!(validate_theme("light").is_ok());
    assert!(validate_theme("system").is_ok());
    assert!(validate_theme("neon").is_err());
    let prefs = AppPreferences::default();
    assert_eq!(prefs.theme, "system");
}

#[test]
fn debug_builds_use_the_debug_configuration() {
    assert_eq!(BuildConfiguration::Debug.cmake_configs(), ["Debug"]);
    assert_eq!(BuildConfiguration::Release.cmake_configs(), ["Release"]);
    assert_eq!(BuildConfiguration::Both.cmake_configs(), ["Debug", "Release"]);
}

#[test]
fn recovery_files_live_in_the_recovery_folder() {
    assert_eq!(
        recovery_file_path("/data", "session").ok(),
        Some("/data/recovery/session.json".to_string())
    );
    match recovery_file_path("/data", "bad/name") {
        Err(RecoveryError::ValidationError { .. }) => {}
        _ => panic!("expected a validation error"),
    }
    assert!(check_recovery_size(MAX_RECOVERY_DATA_BYTES as usize).is_ok());
    match check_recovery_size(MAX_RECOVERY_DATA_BYTES as usize + 1) {
        Err(e) => assert_eq!(e.message(), "Data too large (max 10485760 bytes)"),
        Ok(()) => panic!("expected the size limit"),
    }
}

#[test]
fn old_json_recovery_files_are_removed() {
    let cutoff = recovery_cutoff(1_000_000);
    assert_eq!(cutoff, 395_200);
    assert!(is_expired_recovery_file("/r/a.json", 10, cutoff));
    assert!(!is_expired_recovery_file("/r/a.json", 395_200, cutoff));
    assert!(!is_expired_recovery_file("/r/a.tmp", 10, cutoff));
    let files = vec![
        ("/r/old.json".to_string(), 5),
        ("/r/new.json".to_string(), 900_000),
        ("/r/old.txt".to_string(), 5),
    ];
    assert_eq!(expired_recovery_files(&files, cutoff), ["/r/old.json"]);
}

#[test]
fn crash_log_entries_and_panic_messages() {
    assert_eq!(
        crash_log_entry("17", "frontend", "boom", Some("{\"a\":1}"), Some("at x")),
        "===== 17 [frontend] =====\nboom\ncontext: {\"a\":1}\nstack:\nat x\n\n"
    );
    assert_eq!(
        crash_log_entry("17", "rust-panic", "boom", None, Some("  ")),
        "===== 17 [rust-panic] =====\nboom\n\n"
    );
    assert_eq!(
        panic_message(Some("index out of bounds"), Some(("src/lib.rs", 42))),
        "index out of bounds at src/lib.rs:42"
    );
    assert_eq!(panic_message(None, None), "unknown panic at unknown location");
    assert_eq!(task_panic_message(Some("oops")), "Compiler task panicked: oops");
    assert_eq!(
        process_log_dir(None, Some("/data"), Some("/home")).unwrap(),
        "/data/C4D Plugin Compiler/logs"
    );
    assert!(process_log_dir(None, None, None).is_err());
}

#[test]
fn artifacts_open_in_their_folder() {
    assert_eq!(artifact_folder("/out/pkg.zip", true).unwrap(), "/out");
    assert_eq!(artifact_folder("/out/pkg", false).unwrap(), "/out/pkg");
    assert_eq!(artifact_folder("/", true).unwrap_err(), "No parent folder for /");
    assert_eq!(folder_opener(HostOs::Macos), Some("open"));
    assert_eq!(folder_opener(HostOs::Windows), Some("explorer"));
    assert_eq!(folder_opener(HostOs::Linux), Some("xdg-open"));
}

#[test]
fn path_keys_ignore_case_and_separators() {
    assert_eq!(normalize_path_key("C:\\Program Files\\Maxon"), "c:/program files/maxon");
}

#[test]
fn emergency_save_checks_the_name_before_the_size() {
    let too_big = 10485761usize;
    assert!(matches!(
        check_emergency_save("bad name", Ok(too_big)),
        Err(RecoveryError::ValidationError { .. })
    ));
    assert!(matches!(
        check_emergency_save("draft", Ok(too_big)),
        Err(RecoveryError::DataTooLarge { max_bytes: 10485760 })
    ));
    assert!(matches!(
        check_emergency_save("draft", Err("key must be a string")),
        Err(RecoveryError::ParseError { message }) if message == "key must be a string"
    ));
    assert!(check_emergency_save("draft", Ok(10485760)).is_ok());
}

#[test]
fn emergency_data_answers_missing_unreadable_and_parsed_files() {
    assert!(matches!(emergency_data(None), Err(RecoveryError::FileNotFound)));
    assert!(matches!(
        emergency_data(Some(Err("denied".to_string()))),
        Err(RecoveryError::IoError { message }) if message == "denied"
    ));
    assert!(matches!(
        emergency_data(Some(Ok("{".to_string()))),
        Err(RecoveryError::ParseError { .. })
    ));
    match emergency_data(Some(Ok("{\"form\": {\"name\": \"x\"}, \"n\": [1, true, null]}".to_string()))) {
        Ok(JsonValue::Object(members)) => {
            assert_eq!(members.len(), 2);
            assert_eq!(members[0].0, "form");
            assert!(matches!(&members[1].1, JsonValue::Array(items) if items.len() == 3
                && matches!(&items[0], JsonValue::Number(n) if n == "1")
                && matches!(&items[1], JsonValue::Bool(true))
                && matches!(&items[2], JsonValue::Null)));
        }
        _ => panic!("expected an object"),
    }
}
