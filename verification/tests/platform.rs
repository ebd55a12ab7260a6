use c4d_plugin_compiler::utils::platform::{
    current_platform, is_linux, is_macos, is_windows, normalize_path_for_serialization, HostOs,
};

const ALL: [HostOs; 3] = [HostOs::Windows, HostOs::Macos, HostOs::Linux];

#[test]
fn test_normalize_path_forward_slashes() {
    let normalized = normalize_path_for_serialization("foo/bar/baz.txt");
    assert_eq!(normalized, "foo/bar/baz.txt");
}

#[test]
fn test_normalize_path_empty() {
    let normalized = normalize_path_for_serialization("");
    assert_eq!(normalized, "");
}

#[test]
fn test_current_platform_is_valid() {
    for os in ALL.into_iter().chain([HostOs::Other]) {
        let platform = current_platform(os);
        assert!(
            platform == "macos" || platform == "windows" || platform == "linux",
            "Platform should be one of: macos, windows, linux"
        );
    }
}

#[test]
fn test_platform_detection_consistency() {
    for os in ALL {
        let platforms = [is_macos(os), is_windows(os), is_linux(os)];
        let count = platforms.iter().filter(|&&x| x).count();
        assert_eq!(count, 1, "Exactly one platform should be detected");
    }
}

#[test]
fn backslashes_become_slashes() {
    assert_eq!(
        normalize_path_for_serialization("C:\\Users\\me\\file.txt"),
        "C:/Users/me/file.txt"
    );
    assert_eq!(HostOs::from_os_name("macos"), HostOs::Macos);
    assert_eq!(HostOs::from_os_name("freebsd"), HostOs::Other);
    assert_eq!(current_platform(HostOs::Other), "linux");
}
