use c4d_plugin_compiler::compiler::env::{
    c4d_requirement, cmake_install_hint, compiler_platform_label, detect_clang, detect_cmake,
    detect_cmake_path, detect_python, detect_visual_studio, detect_windows_sdk, detect_xcode,
    find_program, sdk_root_requirement, sdk_version_requirements, setup_requirements,
    tool_requirement, ToolSet,
};
use c4d_plugin_compiler::compiler::sdk::sdk_setup_report;
use c4d_plugin_compiler::types::{
    CompilerPlatform, InstalledC4dVersion, SdkVersionOption, SetupRequirementStatus, ToolStatus,
};
use c4d_plugin_compiler::utils::platform::HostOs;

fn missing(message: &str) -> ToolStatus {
    ToolStatus {
        found: false,
        path: None,
        version: None,
        message: Some(message.to_string()),
    }
}

fn found(path: &str) -> ToolStatus {
    ToolStatus {
        found: true,
        path: Some(path.to_string()),
        version: Some("1.0".to_string()),
        message: None,
    }
}

fn tools() -> ToolSet {
    ToolSet {
        cmake: found("/usr/bin/cmake"),
        python: missing("Python was not found in PATH"),
        xcode: found("/usr/bin/xcodebuild"),
        clang: found("/usr/bin/clang"),
        visual_studio: missing("Visual Studio is only required for Windows builds"),
        windows_sdk: missing("Windows SDK is only required for Windows builds"),
    }
}

fn installed(version: &str, sdk: &str) -> InstalledC4dVersion {
    InstalledC4dVersion {
        version: version.to_string(),
        path: format!("/Applications/Maxon Cinema 4D {version}"),
        sdk_version: sdk.to_string(),
        download_url: String::new(),
    }
}

fn row(version: &str, root: Option<&str>, url: Option<&str>, status: &str) -> SdkVersionOption {
    SdkVersionOption {
        version: version.to_string(),
        label: format!("Cinema 4D {version}"),
        configured: true,
        sdk_root: root.map(str::to_string),
        sdk_zip: None,
        download_url: url.map(str::to_string),
        status: status.to_string(),
    }
}

#[test]
fn program_lookups_take_the_first_useful_line() {
    let windows = Ok("C:\\CMake\\bin\\cmake.exe\r\nC:\\other\\cmake.exe\r\n".to_string());
    assert_eq!(
        find_program(HostOs::Windows, &windows).as_deref(),
        Some("C:\\CMake\\bin\\cmake.exe")
    );
    assert_eq!(
        find_program(HostOs::Macos, &Ok("/usr/local/bin/cmake\n".to_string())).as_deref(),
        Some("/usr/local/bin/cmake")
    );
    assert_eq!(find_program(HostOs::Linux, &Ok("  \n".to_string())), None);
    assert_eq!(find_program(HostOs::Linux, &Err("not found".to_string())), None);
}

#[test]
fn cmake_falls_back_to_the_default_windows_install() {
    let none = Err(String::new());
    assert_eq!(
        detect_cmake_path(HostOs::Windows, &none, true).as_deref(),
        Some("C:\\Program Files\\CMake\\bin\\cmake.exe")
    );
    assert_eq!(detect_cmake_path(HostOs::Windows, &none, false), None);
    assert_eq!(detect_cmake_path(HostOs::Macos, &none, true), None);
    let status = detect_cmake(Some("/usr/bin/cmake".to_string()), &Ok("cmake version 3.30.1\n\nCMake suite".to_string()));
    assert!(status.found);
    assert_eq!(status.version.as_deref(), Some("cmake version 3.30.1"));
    let absent = detect_cmake(None, &Ok(String::new()));
    assert!(!absent.found);
    assert_eq!(
        absent.message.as_deref(),
        Some("CMake was not found in PATH or the default install path")
    );
}

#[test]
fn platform_tools_are_only_probed_where_they_apply() {
    assert_eq!(
        detect_visual_studio(HostOs::Macos, true, &Ok("x".to_string())).message.as_deref(),
        Some("Visual Studio is only required for Windows builds")
    );
    let vs = detect_visual_studio(HostOs::Windows, true, &Ok("  C:\\VS\\2022  \n".to_string()));
    assert!(vs.found);
    assert_eq!(vs.path.as_deref(), Some("C:\\VS\\2022"));
    let empty = detect_visual_studio(HostOs::Windows, true, &Ok(" \n".to_string()));
    assert_eq!(
        empty.message.as_deref(),
        Some("Visual Studio 2022 with VC Tools was not found")
    );
    assert_eq!(
        detect_visual_studio(HostOs::Windows, false, &Ok(String::new())).message.as_deref(),
        Some("vswhere.exe was not found")
    );
    let sdk = detect_windows_sdk(
        HostOs::Windows,
        true,
        &vec!["10.0.19041.0".to_string(), "10.0.22621.0".to_string(), "10.0.20348.0".to_string()],
    );
    assert!(sdk.found);
    assert_eq!(sdk.version.as_deref(), Some("10.0.22621.0"));
    assert!(!detect_windows_sdk(HostOs::Windows, true, &Vec::new()).found);
    let xcode = detect_xcode(HostOs::Macos, &Ok("Xcode 16.0\nBuild version 16A242d".to_string()), None);
    assert!(xcode.found);
    assert_eq!(xcode.version.as_deref(), Some("Xcode 16.0"));
    assert_eq!(
        detect_xcode(HostOs::Macos, &Err("no".to_string()), None).message.as_deref(),
        Some("Xcode was not found; install Xcode 16 or newer")
    );
    let clang = detect_clang(HostOs::Macos, &Ok("/usr/bin/clang\n".to_string()), &Ok("Apple clang 16\nTarget".to_string()));
    assert_eq!(clang.path.as_deref(), Some("/usr/bin/clang"));
    assert_eq!(clang.version.as_deref(), Some("Apple clang 16"));
    assert!(!detect_clang(HostOs::Windows, &Ok("x".to_string()), &Ok("y".to_string())).found);
    let python = detect_python(Some("/usr/bin/python3".to_string()), &Ok("Python 3.12.1\n".to_string()));
    assert_eq!(python.version.as_deref(), Some("Python 3.12.1"));
    assert!(!detect_python(None, &Ok(String::new())).found);
}

#[test]
fn tool_requirements_follow_the_probe() {
    let ready = tool_requirement("cmake", "CMake 3.30+", &found("/c"), true, None);
    assert_eq!(ready.status, SetupRequirementStatus::Ready);
    assert_eq!(ready.detail, "Detected.");
    let missing_auto = tool_requirement("cmake", "CMake", &missing("gone"), true, None);
    assert_eq!(missing_auto.status, SetupRequirementStatus::Missing);
    assert_eq!(missing_auto.detail, "gone");
    let manual = tool_requirement("x", "X", &ToolStatus { found: false, path: None, version: None, message: None }, false, None);
    assert_eq!(manual.status, SetupRequirementStatus::Manual);
    assert_eq!(manual.detail, "Not detected.");
    assert_eq!(
        cmake_install_hint(HostOs::Macos).as_deref(),
        Some("Install CMake with Homebrew: brew install cmake.")
    );
    assert_eq!(compiler_platform_label(&CompilerPlatform::Macos), "macOS");
}

#[test]
fn cinema_and_sdk_root_requirements() {
    let none = c4d_requirement(&Vec::new());
    assert_eq!(none.status, SetupRequirementStatus::Manual);
    let two = c4d_requirement(&vec![installed("2026", "2026"), installed("2025", "2025")]);
    assert_eq!(two.detail, "Detected 2 installation(s).");
    assert_eq!(two.version.as_deref(), Some("2026"));
    assert_eq!(sdk_root_requirement(None).status, SetupRequirementStatus::Missing);
    assert_eq!(sdk_root_requirement(Some("  ")).status, SetupRequirementStatus::Missing);
    assert_eq!(sdk_root_requirement(Some("/my sdk")).status, SetupRequirementStatus::Warning);
    let ok = sdk_root_requirement(Some("/sdk"));
    assert_eq!(ok.status, SetupRequirementStatus::Ready);
    assert_eq!(ok.path.as_deref(), Some("/sdk"));
}

#[test]
fn sdk_version_requirements_use_the_matrix() {
    let rows = vec![
        row("2025", Some("/sdk/2025"), None, "configured root"),
        row("2026", None, Some("https://x/2026.zip"), "auto download"),
    ];
    let reqs = sdk_version_requirements(
        &vec![installed("2026", "2026"), installed("2025", "2025"), installed("2027", "2027")],
        &rows,
    );
    let keys: Vec<String> = reqs.iter().map(|r| r.key.clone()).collect();
    assert_eq!(keys, ["sdk_2025", "sdk_2026", "sdk_2027"]);
    assert_eq!(reqs[0].status, SetupRequirementStatus::Ready);
    assert_eq!(reqs[0].path.as_deref(), Some("/sdk/2025"));
    assert_eq!(reqs[1].status, SetupRequirementStatus::Missing);
    assert_eq!(
        reqs[1].install_hint.as_deref(),
        Some("One-click setup can download and extract https://x/2026.zip.")
    );
    assert_eq!(reqs[2].status, SetupRequirementStatus::Manual);
    assert_eq!(reqs[2].detail, "No SDK source is configured.");
    let default = sdk_version_requirements(&Vec::new(), &Vec::new());
    assert_eq!(default.len(), 1);
    assert_eq!(default[0].label, "C++ SDK 2024.4");
}

#[test]
fn setup_checklist_order_and_summary() {
    let reqs = setup_requirements(HostOs::Macos, &tools(), &Vec::new(), &Vec::new(), Some("/sdk"));
    let keys: Vec<String> = reqs.iter().map(|r| r.key.clone()).collect();
    assert_eq!(
        keys,
        ["cinema4d", "sdk_root", "sdk_2024.4", "cmake", "python", "xcode", "clang"]
    );
    let linux = setup_requirements(HostOs::Linux, &tools(), &Vec::new(), &Vec::new(), None);
    let last = linux.last().unwrap();
    assert_eq!(last.key, "platform");
    assert_eq!(
        last.detail,
        "This operating system is not configured for C4D SDK builds yet."
    );
    let report = sdk_setup_report(
        HostOs::Macos,
        &tools(),
        Some("/sdk".to_string()),
        Vec::new(),
        Vec::new(),
        Vec::new(),
    );
    assert_eq!(report.summary, "3 setup items need attention");
    assert_eq!(report.requirements.len(), 7);
}
