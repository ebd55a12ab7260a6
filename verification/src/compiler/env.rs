//! The build environment: what the probes of the build tools found, and the
//! setup checklist built from it.

use vstd::prelude::*;

use crate::compiler::sdk::installed_sdk_versions;
use crate::compiler::sdk::{option_view, VersionOptionView, DEFAULT_MIN_SDK_VERSION};
use crate::compiler::{current_build_platform, spec_build_platform, sviews};
use crate::text::{
    chars_of, concat, dec, decimal, has_ws, lines, lines_of, seq_lt, sort_dedup, sort_dedup_vec,
    string_of, trim, trim_chars, vviews,
};
use crate::types::{
    copy_opt, ov, CompilerPlatform, InstalledC4dVersion, SdkVersionOption, SetupRequirement,
    SetupRequirementStatus, ToolStatus,
};
use crate::utils::platform::HostOs;

verus! {

// ---------------------------------------------------------------------------
// Reading probe output
// ---------------------------------------------------------------------------

/// The view of a tool probe: found, path, version, message.
pub type ToolView = (bool, Option<Seq<char>>, Option<Seq<char>>, Option<Seq<char>>);

pub open spec fn tool_view(t: ToolStatus) -> ToolView {
    (t.found, ov(t.path), ov(t.version), ov(t.message))
}

/// The view of the captured output of a command: its text, or the error.
pub open spec fn capture_view(r: Result<String, String>) -> Result<Seq<char>, Seq<char>> {
    match r {
        Ok(t) => Ok(t@),
        Err(e) => Err(e@),
    }
}

/// The first line of a text (`str::lines().next()`).
pub open spec fn first_line(text: Seq<char>) -> Option<Seq<char>> {
    if lines(text).len() > 0 {
        Some(lines(text)[0])
    } else {
        None
    }
}

fn first_line_of(text: &str) -> (r: Option<String>)
    ensures
        ov(r) == first_line(text@),
{
    let t = chars_of(text);
    let ls = lines_of(&t);
    if ls.len() > 0 {
        assert(vviews(ls@)[0] == ls@[0]@);
        Some(string_of(&ls[0]))
    } else {
        None
    }
}

/// The first line of captured output, when the command succeeded.
pub open spec fn captured_first_line(r: Result<Seq<char>, Seq<char>>) -> Option<Seq<char>> {
    match r {
        Ok(t) => first_line(t),
        Err(_) => None,
    }
}

fn captured_first_line_of(r: &Result<String, String>) -> (o: Option<String>)
    ensures
        ov(o) == captured_first_line(capture_view(*r)),
{
    match r {
        Ok(t) => first_line_of(t.as_str()),
        Err(_) => None,
    }
}

/// Where a program lookup (`where` on Windows, `which` elsewhere) found the
/// program: on Windows the first line of its output, elsewhere the whole
/// output, trimmed, when not empty.
pub open spec fn spec_find_program(os: HostOs, lookup: Result<Seq<char>, Seq<char>>) -> Option<
    Seq<char>,
> {
    match lookup {
        Err(_) => None,
        Ok(text) => {
            let candidate = if os == HostOs::Windows {
                match first_line(text) {
                    Some(l) => Some(trim(l)),
                    None => None,
                }
            } else {
                Some(trim(text))
            };
            match candidate {
                Some(c) => if c.len() > 0 {
                    Some(c)
                } else {
                    None
                },
                None => None,
            }
        },
    }
}

pub fn find_program(os: HostOs, lookup: &Result<String, String>) -> (r: Option<String>)
    ensures
        ov(r) == spec_find_program(os, capture_view(*lookup)),
{
    match lookup {
        Err(_) => None,
        Ok(text) => {
            let candidate = if os == HostOs::Windows {
                match first_line_of(text.as_str()) {
                    Some(l) => Some(trim_chars(&chars_of(l.as_str()))),
                    None => None,
                }
            } else {
                Some(trim_chars(&chars_of(text.as_str())))
            };
            match candidate {
                Some(c) => if c.len() > 0 {
                    Some(string_of(&c))
                } else {
                    None
                },
                None => None,
            }
        },
    }
}

/// Where CMake is installed by default on Windows.
pub const WINDOWS_CMAKE_PATH: &'static str = "C:\\Program Files\\CMake\\bin\\cmake.exe";

/// Where CMake is: what the program lookup found; on Windows also the
/// default install path when a file is there.
pub open spec fn spec_detect_cmake_path(
    os: HostOs,
    lookup: Result<Seq<char>, Seq<char>>,
    default_is_file: bool,
) -> Option<Seq<char>> {
    match spec_find_program(os, lookup) {
        Some(p) => Some(p),
        None => if os == HostOs::Windows && default_is_file {
            Some(WINDOWS_CMAKE_PATH@)
        } else {
            None
        },
    }
}

/// `lookup` is the output of `where cmake` (Windows) or `which cmake`;
/// `default_is_file` tells whether `WINDOWS_CMAKE_PATH` is a file.
pub fn detect_cmake_path(os: HostOs, lookup: &Result<String, String>, default_is_file: bool) -> (r:
    Option<String>)
    ensures
        ov(r) == spec_detect_cmake_path(os, capture_view(*lookup), default_is_file),
{
    match find_program(os, lookup) {
        Some(p) => Some(p),
        None => if os == HostOs::Windows && default_is_file {
            Some(crate::text::owned(WINDOWS_CMAKE_PATH))
        } else {
            None
        },
    }
}

fn tool(found: bool, path: Option<String>, version: Option<String>, message: Option<&str>) -> (r:
    ToolStatus)
    ensures
        tool_view(r) == (found, ov(path), ov(version), crate::compiler::osv(message)),
{
    ToolStatus {
        found,
        path,
        version,
        message: match message {
            Some(m) => Some(crate::text::owned(m)),
            None => None,
        },
    }
}

/// CMake's probe: found where `detect_cmake_path` found it, with the first
/// line of `cmake --version` as its version.
pub open spec fn spec_detect_cmake(path: Option<Seq<char>>, version_output: Result<Seq<char>, Seq<char>>) -> ToolView {
    match path {
        None => (false, None, None, Some("CMake was not found in PATH or the default install path"@)),
        Some(p) => (true, Some(p), captured_first_line(version_output), None),
    }
}

pub fn detect_cmake(path: Option<String>, version_output: &Result<String, String>) -> (r: ToolStatus)
    ensures
        tool_view(r) == spec_detect_cmake(ov(path), capture_view(*version_output)),
{
    match path {
        None => tool(false, None, None, Some("CMake was not found in PATH or the default install path")),
        Some(p) => tool(true, Some(p), captured_first_line_of(version_output), None),
    }
}

/// Where `vswhere.exe` is installed.
pub const VSWHERE_PATH: &'static str =
    "C:\\Program Files (x86)\\Microsoft Visual Studio\\Installer\\vswhere.exe";

/// Visual Studio's probe, from whether `vswhere.exe` is a file and what it
/// printed for the latest installation with the VC tools.
pub open spec fn spec_detect_visual_studio(
    os: HostOs,
    vswhere_is_file: bool,
    output: Result<Seq<char>, Seq<char>>,
) -> ToolView {
    if os != HostOs::Windows {
        (false, None, None, Some("Visual Studio is only required for Windows builds"@))
    } else if !vswhere_is_file {
        (false, None, None, Some("vswhere.exe was not found"@))
    } else {
        match output {
            Ok(text) => {
                let path = trim(text);
                if path.len() == 0 {
                    (false, None, None, Some("Visual Studio 2022 with VC Tools was not found"@))
                } else {
                    (true, Some(path), None, Some("Visual Studio with VC Tools detected"@))
                }
            },
            Err(e) => (false, None, None, Some(e)),
        }
    }
}

pub fn detect_visual_studio(os: HostOs, vswhere_is_file: bool, output: &Result<String, String>) -> (r:
    ToolStatus)
    ensures
        tool_view(r) == spec_detect_visual_studio(os, vswhere_is_file, capture_view(*output)),
{
    if os != HostOs::Windows {
        return tool(false, None, None, Some("Visual Studio is only required for Windows builds"));
    }
    if !vswhere_is_file {
        return tool(false, None, None, Some("vswhere.exe was not found"));
    }
    match output {
        Ok(text) => {
            let path = trim_chars(&chars_of(text.as_str()));
            if path.len() == 0 {
                tool(false, None, None, Some("Visual Studio 2022 with VC Tools was not found"))
            } else {
                tool(true, Some(string_of(&path)), None, Some("Visual Studio with VC Tools detected"))
            }
        },
        Err(e) => ToolStatus { found: false, path: None, version: None, message: Some(e.clone()) },
    }
}

/// Where the Windows 10 SDK headers are.
pub const WINDOWS_SDK_INCLUDE: &'static str = "C:\\Program Files (x86)\\Windows Kits\\10\\Include";

/// The greatest text of a list (`Iterator::max` on strings).
pub open spec fn max_text(s: Seq<Seq<char>>) -> Option<Seq<char>>
    decreases s.len(),
{
    if s.len() == 0 {
        None
    } else {
        match max_text(s.drop_last()) {
            None => Some(s.last()),
            Some(m) => if seq_lt(m, s.last()) {
                Some(s.last())
            } else {
                Some(m)
            },
        }
    }
}

/// The Windows SDK's probe: the newest version folder under its include
/// folder.
pub open spec fn spec_detect_windows_sdk(os: HostOs, include_is_dir: bool, subdirs: Seq<Seq<char>>) -> ToolView {
    if os != HostOs::Windows {
        (false, None, None, Some("Windows SDK is only required for Windows builds"@))
    } else if !include_is_dir {
        (false, None, None, Some("Windows 10 SDK include folder was not found"@))
    } else {
        (max_text(subdirs) is Some, Some(WINDOWS_SDK_INCLUDE@), max_text(subdirs), None)
    }
}

/// `subdirs` are the names of the folders in `WINDOWS_SDK_INCLUDE`.
pub fn detect_windows_sdk(os: HostOs, include_is_dir: bool, subdirs: &Vec<String>) -> (r: ToolStatus)
    ensures
        tool_view(r) == spec_detect_windows_sdk(os, include_is_dir, sviews(subdirs@)),
{
    if os != HostOs::Windows {
        return tool(false, None, None, Some("Windows SDK is only required for Windows builds"));
    }
    if !include_is_dir {
        return tool(false, None, None, Some("Windows 10 SDK include folder was not found"));
    }
    let ghost names = sviews(subdirs@);
    let mut best: Option<Vec<char>> = None;
    let mut i: usize = 0;
    while i < subdirs.len()
        invariant
            i <= subdirs.len(),
            names == sviews(subdirs@),
            (match best {
                Some(b) => Some(b@),
                None => None,
            }) == max_text(names.take(i as int)),
        decreases subdirs.len() - i,
    {
        let c = chars_of(subdirs[i].as_str());
        assert(names.take(i + 1).drop_last() =~= names.take(i as int));
        assert(names.take(i + 1).last() == c@);
        best = match best {
            None => Some(c),
            Some(b) => if crate::text::chars_lt(&b, &c) {
                Some(c)
            } else {
                Some(b)
            },
        };
        i += 1;
    }
    assert(names.take(subdirs.len() as int) =~= names);
    let latest = match best {
        Some(b) => Some(string_of(&b)),
        None => None,
    };
    let found = latest.is_some();
    tool(found, Some(crate::text::owned(WINDOWS_SDK_INCLUDE)), latest, None)
}

/// Xcode's probe, from the output of `xcodebuild -version` and where the
/// program lookup found `xcodebuild`.
pub open spec fn spec_detect_xcode(
    os: HostOs,
    version_output: Result<Seq<char>, Seq<char>>,
    path: Option<Seq<char>>,
) -> ToolView {
    if os != HostOs::Macos {
        (false, None, None, Some("Xcode is only required for macOS builds"@))
    } else if version_output is Ok {
        (true, path, captured_first_line(version_output), Some("Xcode command line tools detected"@))
    } else {
        (false, path, None, Some("Xcode was not found; install Xcode 16 or newer"@))
    }
}

pub fn detect_xcode(os: HostOs, version_output: &Result<String, String>, path: Option<String>) -> (r:
    ToolStatus)
    ensures
        tool_view(r) == spec_detect_xcode(os, capture_view(*version_output), ov(path)),
{
    if os != HostOs::Macos {
        return tool(false, None, None, Some("Xcode is only required for macOS builds"));
    }
    if version_output.is_ok() {
        tool(
            true,
            path,
            captured_first_line_of(version_output),
            Some("Xcode command line tools detected"),
        )
    } else {
        tool(false, path, None, Some("Xcode was not found; install Xcode 16 or newer"))
    }
}

/// Apple Clang's probe, from the output of `xcrun --find clang` and of
/// `xcrun clang --version`.
pub open spec fn spec_detect_clang(
    os: HostOs,
    find_output: Result<Seq<char>, Seq<char>>,
    version_output: Result<Seq<char>, Seq<char>>,
) -> ToolView {
    if os != HostOs::Macos {
        (false, None, None, Some("Clang through Xcode is only required for macOS builds"@))
    } else {
        let path = match find_output {
            Ok(t) => if trim(t).len() > 0 {
                Some(trim(t))
            } else {
                None
            },
            Err(_) => None,
        };
        (path is Some, path, captured_first_line(version_output), None)
    }
}

pub fn detect_clang(os: HostOs, find_output: &Result<String, String>, version_output: &Result<
    String,
    String,
>) -> (r: ToolStatus)
    ensures
        tool_view(r) == spec_detect_clang(os, capture_view(*find_output), capture_view(*version_output)),
{
    if os != HostOs::Macos {
        return tool(false, None, None, Some("Clang through Xcode is only required for macOS builds"));
    }
    let path = match find_output {
        Ok(t) => {
            let v = trim_chars(&chars_of(t.as_str()));
            if v.len() > 0 {
                Some(string_of(&v))
            } else {
                None
            }
        },
        Err(_) => None,
    };
    let found = path.is_some();
    tool(found, path, captured_first_line_of(version_output), None)
}

/// Python's probe, from where the lookups of `python` and then `python3`
/// found it and the output of `--version`.
pub open spec fn spec_detect_python(path: Option<Seq<char>>, version_output: Result<Seq<char>, Seq<char>>) -> ToolView {
    match path {
        Some(p) => if p.len() > 0 {
            (true, Some(p), captured_first_line(version_output), None)
        } else {
            (false, None, None, Some("Python was not found in PATH"@))
        },
        None => (false, None, None, Some("Python was not found in PATH"@)),
    }
}

pub fn detect_python(path: Option<String>, version_output: &Result<String, String>) -> (r: ToolStatus)
    ensures
        tool_view(r) == spec_detect_python(ov(path), capture_view(*version_output)),
{
    match path {
        Some(p) => if !p.as_str().is_empty() {
            tool(true, Some(p), captured_first_line_of(version_output), None)
        } else {
            tool(false, None, None, Some("Python was not found in PATH"))
        },
        None => tool(false, None, None, Some("Python was not found in PATH")),
    }
}

// ---------------------------------------------------------------------------
// The setup checklist
// ---------------------------------------------------------------------------

/// The view of a requirement: key, label, status, detail, path, version,
/// whether setup can install it, install hint.
pub type RequirementView = (
    Seq<char>,
    Seq<char>,
    SetupRequirementStatus,
    Seq<char>,
    Option<Seq<char>>,
    Option<Seq<char>>,
    bool,
    Option<Seq<char>>,
);

pub open spec fn requirement_view(r: SetupRequirement) -> RequirementView {
    (r.key@, r.label@, r.status, r.detail@, ov(r.path), ov(r.version), r.auto_installable, ov(r.install_hint))
}

pub open spec fn requirements_view(s: Seq<SetupRequirement>) -> Seq<RequirementView> {
    s.map_values(|r: SetupRequirement| requirement_view(r))
}

/// The requirement of one tool: ready when found; otherwise missing when
/// setup can install it, else left to the user. The detail is the probe's
/// message, else `Detected.` or `Not detected.`.
pub open spec fn spec_tool_requirement(
    key: Seq<char>,
    label: Seq<char>,
    tool: ToolView,
    auto_installable: bool,
    install_hint: Option<Seq<char>>,
) -> RequirementView {
    (
        key,
        label,
        if tool.0 {
            SetupRequirementStatus::Ready
        } else if auto_installable {
            SetupRequirementStatus::Missing
        } else {
            SetupRequirementStatus::Manual
        },
        match tool.3 {
            Some(m) => m,
            None => if tool.0 {
                "Detected."@
            } else {
                "Not detected."@
            },
        },
        tool.1,
        tool.2,
        auto_installable,
        install_hint,
    )
}

pub fn tool_requirement(
    key: &str,
    label: &str,
    tool: &ToolStatus,
    auto_installable: bool,
    install_hint: Option<String>,
) -> (r: SetupRequirement)
    ensures
        requirement_view(r) == spec_tool_requirement(
            key@,
            label@,
            tool_view(*tool),
            auto_installable,
            ov(install_hint),
        ),
{
    let status = if tool.found {
        SetupRequirementStatus::Ready
    } else if auto_installable {
        SetupRequirementStatus::Missing
    } else {
        SetupRequirementStatus::Manual
    };
    let detail = match &tool.message {
        Some(m) => m.clone(),
        None => if tool.found {
            crate::text::owned("Detected.")
        } else {
            crate::text::owned("Not detected.")
        },
    };
    SetupRequirement {
        key: crate::text::owned(key),
        label: crate::text::owned(label),
        status,
        detail,
        path: copy_opt(&tool.path),
        version: copy_opt(&tool.version),
        auto_installable,
        install_hint,
    }
}

/// How to install CMake on each operating system.
pub open spec fn spec_cmake_install_hint(os: HostOs) -> Seq<char> {
    match os {
        HostOs::Macos => "Install CMake with Homebrew: brew install cmake."@,
        HostOs::Windows => "Install CMake with winget: winget install Kitware.CMake."@,
        HostOs::Linux => "Install CMake 3.30+ with your system package manager or Kitware packages."@,
        HostOs::Other => "Install CMake 3.30+ and ensure it is available in PATH."@,
    }
}

pub fn cmake_install_hint(os: HostOs) -> (r: Option<String>)
    ensures
        ov(r) == Some(spec_cmake_install_hint(os)),
{
    let hint = match os {
        HostOs::Macos => "Install CMake with Homebrew: brew install cmake.",
        HostOs::Windows => "Install CMake with winget: winget install Kitware.CMake.",
        HostOs::Linux => "Install CMake 3.30+ with your system package manager or Kitware packages.",
        HostOs::Other => "Install CMake 3.30+ and ensure it is available in PATH.",
    };
    Some(crate::text::owned(hint))
}

/// How a platform is named to the user.
pub open spec fn spec_compiler_platform_label(platform: CompilerPlatform) -> Seq<char> {
    match platform {
        CompilerPlatform::Windows => "Windows"@,
        CompilerPlatform::Macos => "macOS"@,
        CompilerPlatform::Linux => "Linux"@,
        CompilerPlatform::Unsupported => "unsupported platform"@,
    }
}

pub fn compiler_platform_label(platform: &CompilerPlatform) -> (r: &'static str)
    ensures
        r@ == spec_compiler_platform_label(*platform),
{
    match platform {
        CompilerPlatform::Windows => "Windows",
        CompilerPlatform::Macos => "macOS",
        CompilerPlatform::Linux => "Linux",
        CompilerPlatform::Unsupported => "unsupported platform",
    }
}

/// The Cinema 4D requirement: ready with the first (newest) installation's
/// path and version when any is installed, else left to the user.
pub open spec fn spec_c4d_requirement(installed: Seq<InstalledC4dVersion>) -> RequirementView {
    if installed.len() == 0 {
        (
            "cinema4d"@,
            "Cinema 4D 2024.4+"@,
            SetupRequirementStatus::Manual,
            "No local Cinema 4D installation was detected."@,
            None,
            None,
            false,
            Some("Install Cinema 4D 2024.4 or newer before building plugins."@),
        )
    } else {
        (
            "cinema4d"@,
            "Cinema 4D 2024.4+"@,
            SetupRequirementStatus::Ready,
            "Detected "@ + dec(installed.len()) + " installation(s)."@,
            Some(installed[0].path@),
            Some(installed[0].version@),
            false,
            None,
        )
    }
}

pub fn c4d_requirement(installed: &Vec<InstalledC4dVersion>) -> (r: SetupRequirement)
    ensures
        requirement_view(r) == spec_c4d_requirement(installed@),
{
    if installed.len() == 0 {
        return SetupRequirement {
            key: crate::text::owned("cinema4d"),
            label: crate::text::owned("Cinema 4D 2024.4+"),
            status: SetupRequirementStatus::Manual,
            detail: crate::text::owned("No local Cinema 4D installation was detected."),
            path: None,
            version: None,
            auto_installable: false,
            install_hint: Some(
                crate::text::owned("Install Cinema 4D 2024.4 or newer before building plugins."),
            ),
        };
    }
    let a = chars_of("Detected ");
    let n = decimal(installed.len() as u64);
    let b = chars_of(" installation(s).");
    SetupRequirement {
        key: crate::text::owned("cinema4d"),
        label: crate::text::owned("Cinema 4D 2024.4+"),
        status: SetupRequirementStatus::Ready,
        detail: string_of(&concat(&concat(&a, &n), &b)),
        path: Some(installed[0].path.clone()),
        version: Some(installed[0].version.clone()),
        auto_installable: false,
        install_hint: None,
    }
}

/// The SDK root requirement: missing without a root (or with a blank one);
/// with spaces in it a warning, else ready.
pub open spec fn spec_sdk_root_requirement(sdk_root: Option<Seq<char>>) -> RequirementView {
    match sdk_root {
        Some(root) => if trim(root).len() > 0 {
            (
                "sdk_root"@,
                "SDK root"@,
                if has_ws(root) {
                    SetupRequirementStatus::Warning
                } else {
                    SetupRequirementStatus::Ready
                },
                if has_ws(root) {
                    "SDK root contains spaces; Maxon CMake/Xcode scripts can fail on this path."@
                } else {
                    "SDK root is configured."@
                },
                Some(root),
                None,
                true,
                Some("Use a path like ~/Documents/Maxon_SDK."@),
            )
        } else {
            missing_sdk_root()
        },
        None => missing_sdk_root(),
    }
}

pub open spec fn missing_sdk_root() -> RequirementView {
    (
        "sdk_root"@,
        "SDK root"@,
        SetupRequirementStatus::Missing,
        "Choose a local SDK root folder without spaces."@,
        None,
        None,
        true,
        Some("Use one-click setup to create Documents/Maxon_SDK."@),
    )
}

pub fn sdk_root_requirement(sdk_root: Option<&str>) -> (r: SetupRequirement)
    ensures
        requirement_view(r) == spec_sdk_root_requirement(crate::compiler::osv(sdk_root)),
{
    let missing = SetupRequirement {
        key: crate::text::owned("sdk_root"),
        label: crate::text::owned("SDK root"),
        status: SetupRequirementStatus::Missing,
        detail: crate::text::owned("Choose a local SDK root folder without spaces."),
        path: None,
        version: None,
        auto_installable: true,
        install_hint: Some(crate::text::owned("Use one-click setup to create Documents/Maxon_SDK.")),
    };
    let root = match sdk_root {
        Some(r) => r,
        None => return missing,
    };
    let rv = chars_of(root);
    if trim_chars(&rv).len() == 0 {
        return missing;
    }
    let spaces = crate::text::any_whitespace(&rv);
    SetupRequirement {
        key: crate::text::owned("sdk_root"),
        label: crate::text::owned("SDK root"),
        status: if spaces {
            SetupRequirementStatus::Warning
        } else {
            SetupRequirementStatus::Ready
        },
        detail: if spaces {
            crate::text::owned(
                "SDK root contains spaces; Maxon CMake/Xcode scripts can fail on this path.",
            )
        } else {
            crate::text::owned("SDK root is configured.")
        },
        path: Some(crate::text::owned(root)),
        version: None,
        auto_installable: true,
        install_hint: Some(crate::text::owned("Use a path like ~/Documents/Maxon_SDK.")),
    }
}

/// The matrix row of `version`: the first row listed for it.
pub open spec fn option_for(rows: Seq<SdkVersionOption>, version: Seq<char>) -> Option<
    VersionOptionView,
>
    decreases rows.len(),
{
    if rows.len() == 0 {
        None
    } else if rows[0].version@ == version {
        Some(option_view(rows[0]))
    } else {
        option_for(rows.drop_first(), version)
    }
}

/// The requirement of one SDK version: ready when its row has a root or an
/// archive; otherwise missing when it can be downloaded, else left to the
/// user.
pub open spec fn spec_version_requirement(version: Seq<char>, row: Option<VersionOptionView>) -> RequirementView {
    let url = match row {
        Some(o) => o.5,
        None => None,
    };
    let ready = match row {
        Some(o) => o.3 is Some || o.4 is Some,
        None => false,
    };
    (
        "sdk_"@ + version,
        "C++ SDK "@ + version,
        if ready {
            SetupRequirementStatus::Ready
        } else if url is Some {
            SetupRequirementStatus::Missing
        } else {
            SetupRequirementStatus::Manual
        },
        match row {
            Some(o) => o.6,
            None => "No SDK source is configured."@,
        },
        match row {
            Some(o) => if o.3 is Some {
                o.3
            } else {
                o.4
            },
            None => None,
        },
        Some(version),
        url is Some,
        match url {
            Some(u) => Some("One-click setup can download and extract "@ + u + "."@),
            None => None,
        },
    )
}

/// The SDK versions the setup needs: those of the installed Cinema 4D
/// copies, sorted and without repeats, or the oldest supported one when
/// none is installed.
pub open spec fn required_setup_versions(installed: Seq<InstalledC4dVersion>) -> Seq<Seq<char>> {
    let v = sort_dedup(installed_sdk_versions(installed));
    if v.len() == 0 {
        seq![DEFAULT_MIN_SDK_VERSION@]
    } else {
        v
    }
}

pub open spec fn spec_sdk_version_requirements(
    installed: Seq<InstalledC4dVersion>,
    rows: Seq<SdkVersionOption>,
) -> Seq<RequirementView> {
    required_setup_versions(installed).map_values(
        |v: Seq<char>| spec_version_requirement(v, option_for(rows, v)),
    )
}

fn find_row(rows: &Vec<SdkVersionOption>, version: &Vec<char>) -> (r: Option<usize>)
    ensures
        r matches Some(i) ==> i < rows.len() && option_for(rows@, version@) == Some(
            option_view(rows@[i as int]),
        ),
        r is None ==> option_for(rows@, version@) is None,
{
    let mut i: usize = 0;
    assert(rows@.skip(0) =~= rows@);
    while i < rows.len()
        invariant
            i <= rows.len(),
            option_for(rows@, version@) == option_for(rows@.skip(i as int), version@),
        decreases rows.len() - i,
    {
        assert(rows@.skip(i as int)[0] == rows@[i as int]);
        let c = chars_of(rows[i].version.as_str());
        if crate::text::chars_eq(&c, version) {
            return Some(i);
        }
        assert(rows@.skip(i as int).drop_first() =~= rows@.skip(i + 1));
        i += 1;
    }
    None
}

fn version_requirement(version: &Vec<char>, rows: &Vec<SdkVersionOption>) -> (r: SetupRequirement)
    ensures
        requirement_view(r) == spec_version_requirement(version@, option_for(rows@, version@)),
{
    let key = concat(&chars_of("sdk_"), version);
    let label = concat(&chars_of("C++ SDK "), version);
    match find_row(rows, version) {
        Some(i) => {
            let row = &rows[i];
            let ready = row.sdk_root.is_some() || row.sdk_zip.is_some();
            let url = copy_opt(&row.download_url);
            let status = if ready {
                SetupRequirementStatus::Ready
            } else if url.is_some() {
                SetupRequirementStatus::Missing
            } else {
                SetupRequirementStatus::Manual
            };
            let path = if row.sdk_root.is_some() {
                copy_opt(&row.sdk_root)
            } else {
                copy_opt(&row.sdk_zip)
            };
            let auto = url.is_some();
            let hint = match &url {
                Some(u) => {
                    let m = chars_of("One-click setup can download and extract ");
                    let uv = chars_of(u.as_str());
                    Some(string_of(&concat(&concat(&m, &uv), &chars_of("."))))
                },
                None => None,
            };
            SetupRequirement {
                key: string_of(&key),
                label: string_of(&label),
                status,
                detail: row.status.clone(),
                path,
                version: Some(string_of(version)),
                auto_installable: auto,
                install_hint: hint,
            }
        },
        None => SetupRequirement {
            key: string_of(&key),
            label: string_of(&label),
            status: SetupRequirementStatus::Manual,
            detail: crate::text::owned("No SDK source is configured."),
            path: None,
            version: Some(string_of(version)),
            auto_installable: false,
            install_hint: None,
        },
    }
}

pub fn sdk_version_requirements(installed: &Vec<InstalledC4dVersion>, rows: &Vec<SdkVersionOption>) -> (r:
    Vec<SetupRequirement>)
    ensures
        requirements_view(r@) == spec_sdk_version_requirements(installed@, rows@),
{
    let mut all: Vec<Vec<char>> = Vec::new();
    let mut k: usize = 0;
    while k < installed.len()
        invariant
            k <= installed.len(),
            vviews(all@) == installed_sdk_versions(installed@).take(k as int),
        decreases installed.len() - k,
    {
        let ghost prev = all@;
        all.push(chars_of(installed[k].sdk_version.as_str()));
        proof {
            crate::text::lemma_vviews_push(prev, all@[prev.len() as int]);
            assert(all@ == prev.push(all@[prev.len() as int]));
        }
        assert(installed_sdk_versions(installed@).take(k + 1) =~= installed_sdk_versions(
            installed@,
        ).take(k as int).push(installed@[k as int].sdk_version@));
        k += 1;
    }
    assert(installed_sdk_versions(installed@).take(installed.len() as int) =~= installed_sdk_versions(
        installed@,
    ));
    let mut versions = sort_dedup_vec(&all);
    if versions.len() == 0 {
        versions.push(chars_of(DEFAULT_MIN_SDK_VERSION));
        assert(vviews(versions@) =~= seq![DEFAULT_MIN_SDK_VERSION@]);
    }
    let ghost req = required_setup_versions(installed@);
    assert(vviews(versions@) == req);
    let mut r: Vec<SetupRequirement> = Vec::new();
    let mut i: usize = 0;
    while i < versions.len()
        invariant
            i <= versions.len(),
            vviews(versions@) == req,
            requirements_view(r@) == req.take(i as int).map_values(
                |v: Seq<char>| spec_version_requirement(v, option_for(rows@, v)),
            ),
        decreases versions.len() - i,
    {
        let ghost prev = r@;
        let one = version_requirement(&versions[i], rows);
        r.push(one);
        assert(requirements_view(r@) =~= requirements_view(prev).push(requirement_view(one)));
        assert(req.take(i + 1) =~= req.take(i as int).push(req[i as int]));
        assert(req.take(i + 1).map_values(
            |v: Seq<char>| spec_version_requirement(v, option_for(rows@, v)),
        ) =~= req.take(i as int).map_values(
            |v: Seq<char>| spec_version_requirement(v, option_for(rows@, v)),
        ).push(spec_version_requirement(req[i as int], option_for(rows@, req[i as int]))));
        i += 1;
    }
    assert(req.take(versions.len() as int) =~= req);
    r
}

/// The probes of the build tools.
pub struct ToolSet {
    pub cmake: ToolStatus,
    pub python: ToolStatus,
    pub xcode: ToolStatus,
    pub clang: ToolStatus,
    pub visual_studio: ToolStatus,
    pub windows_sdk: ToolStatus,
}

/// The requirements of the platform's own tools: Xcode and Clang on macOS,
/// Visual Studio and the Windows SDK on Windows, elsewhere whether the
/// platform builds at all.
pub open spec fn platform_requirements(os: HostOs, tools: ToolSet) -> Seq<RequirementView> {
    match os {
        HostOs::Macos => seq![
            spec_tool_requirement(
                "xcode"@,
                "Xcode 16+"@,
                tool_view(tools.xcode),
                false,
                Some("Install Xcode from the App Store, then run xcode-select if needed."@),
            ),
            spec_tool_requirement(
                "clang"@,
                "Apple Clang"@,
                tool_view(tools.clang),
                false,
                Some("Install Xcode command line tools with xcode-select --install."@),
            ),
        ],
        HostOs::Windows => seq![
            spec_tool_requirement(
                "visual_studio"@,
                "Visual Studio 2022 C++"@,
                tool_view(tools.visual_studio),
                false,
                Some("Install Visual Studio 2022 with Desktop development with C++."@),
            ),
            spec_tool_requirement(
                "windows_sdk"@,
                "Windows 10/11 SDK"@,
                tool_view(tools.windows_sdk),
                false,
                Some("Install the Windows SDK through Visual Studio Installer."@),
            ),
        ],
        _ => {
            let b = spec_build_platform(os);
            let supported = b.1 is Some;
            seq![
                (
                    "platform"@,
                    "Build platform"@,
                    if supported {
                        SetupRequirementStatus::Ready
                    } else {
                        SetupRequirementStatus::Manual
                    },
                    if supported {
                        "Using "@ + spec_compiler_platform_label(b.0)
                    } else {
                        "This operating system is not configured for C4D SDK builds yet."@
                    },
                    None,
                    None,
                    false,
                    None,
                ),
            ]
        },
    }
}

/// The setup checklist: Cinema 4D, the SDK root, each needed SDK version,
/// CMake, Python, then the platform's own tools.
pub open spec fn spec_setup_requirements(
    os: HostOs,
    tools: ToolSet,
    installed: Seq<InstalledC4dVersion>,
    rows: Seq<SdkVersionOption>,
    sdk_root: Option<Seq<char>>,
) -> Seq<RequirementView> {
    seq![spec_c4d_requirement(installed), spec_sdk_root_requirement(sdk_root)]
        + spec_sdk_version_requirements(installed, rows) + seq![
        spec_tool_requirement(
            "cmake"@,
            "CMake 3.30+"@,
            tool_view(tools.cmake),
            true,
            Some(spec_cmake_install_hint(os)),
        ),
        spec_tool_requirement(
            "python"@,
            "Python"@,
            tool_view(tools.python),
            false,
            Some("Install Python 3.10+ and ensure it is available in PATH."@),
        ),
    ] + platform_requirements(os, tools)
}

fn push_requirement(r: &mut Vec<SetupRequirement>, one: SetupRequirement)
    ensures
        requirements_view(final(r)@) == requirements_view(old(r)@).push(requirement_view(one)),
{
    r.push(one);
    assert(requirements_view(r@) =~= requirements_view(old(r)@).push(requirement_view(one)));
}

pub fn setup_requirements(
    os: HostOs,
    tools: &ToolSet,
    installed: &Vec<InstalledC4dVersion>,
    rows: &Vec<SdkVersionOption>,
    sdk_root: Option<&str>,
) -> (r: Vec<SetupRequirement>)
    ensures
        requirements_view(r@) == spec_setup_requirements(
            os,
            *tools,
            installed@,
            rows@,
            crate::compiler::osv(sdk_root),
        ),
{
    let mut r: Vec<SetupRequirement> = Vec::new();
    push_requirement(&mut r, c4d_requirement(installed));
    push_requirement(&mut r, sdk_root_requirement(sdk_root));
    let ghost head = requirements_view(r@);
    let mut versions = sdk_version_requirements(installed, rows);
    let ghost vv = requirements_view(versions@);
    r.append(&mut versions);
    assert(requirements_view(r@) =~= head + vv);
    let ghost with_versions = requirements_view(r@);
    push_requirement(
        &mut r,
        tool_requirement("cmake", "CMake 3.30+", &tools.cmake, true, cmake_install_hint(os)),
    );
    push_requirement(
        &mut r,
        tool_requirement(
            "python",
            "Python",
            &tools.python,
            false,
            Some(crate::text::owned("Install Python 3.10+ and ensure it is available in PATH.")),
        ),
    );
    let ghost with_tools = requirements_view(r@);
    match os {
        HostOs::Macos => {
            push_requirement(
                &mut r,
                tool_requirement(
                    "xcode",
                    "Xcode 16+",
                    &tools.xcode,
                    false,
                    Some(
                        crate::text::owned(
                            "Install Xcode from the App Store, then run xcode-select if needed.",
                        ),
                    ),
                ),
            );
            push_requirement(
                &mut r,
                tool_requirement(
                    "clang",
                    "Apple Clang",
                    &tools.clang,
                    false,
                    Some(
                        crate::text::owned(
                            "Install Xcode command line tools with xcode-select --install.",
                        ),
                    ),
                ),
            );
        },
        HostOs::Windows => {
            push_requirement(
                &mut r,
                tool_requirement(
                    "visual_studio",
                    "Visual Studio 2022 C++",
                    &tools.visual_studio,
                    false,
                    Some(
                        crate::text::owned(
                            "Install Visual Studio 2022 with Desktop development with C++.",
                        ),
                    ),
                ),
            );
            push_requirement(
                &mut r,
                tool_requirement(
                    "windows_sdk",
                    "Windows 10/11 SDK",
                    &tools.windows_sdk,
                    false,
                    Some(
                        crate::text::owned(
                            "Install the Windows SDK through Visual Studio Installer.",
                        ),
                    ),
                ),
            );
        },
        _ => {
            let b = current_build_platform(os);
            let supported = b.preset.is_some();
            let detail = if supported {
                let u = chars_of("Using ");
                let l = chars_of(compiler_platform_label(&b.platform));
                string_of(&concat(&u, &l))
            } else {
                crate::text::owned("This operating system is not configured for C4D SDK builds yet.")
            };
            push_requirement(
                &mut r,
                SetupRequirement {
                    key: crate::text::owned("platform"),
                    label: crate::text::owned("Build platform"),
                    status: if supported {
                        SetupRequirementStatus::Ready
                    } else {
                        SetupRequirementStatus::Manual
                    },
                    detail,
                    path: None,
                    version: None,
                    auto_installable: false,
                    install_hint: None,
                },
            );
        },
    }
    assert(requirements_view(r@) =~= with_tools + platform_requirements(os, *tools));
    assert(with_tools =~= with_versions + seq![
        spec_tool_requirement(
            "cmake"@,
            "CMake 3.30+"@,
            tool_view(tools.cmake),
            true,
            Some(spec_cmake_install_hint(os)),
        ),
        spec_tool_requirement(
            "python"@,
            "Python"@,
            tool_view(tools.python),
            false,
            Some("Install Python 3.10+ and ensure it is available in PATH."@),
        ),
    ]);
    r
}

/// A version's SDK is ready exactly when its matrix row (the first row
/// listed for it) has an SDK root or an SDK archive, and the requirement
/// then points at that root, else at that archive. An SDK that is not ready
/// is missing (and can be set up with one click) when its row has a
/// download address, and is left to the user otherwise.
pub proof fn law_sdk_ready_exactly_with_root_or_archive(
    installed: Seq<InstalledC4dVersion>,
    rows: Seq<SdkVersionOption>,
    i: int,
)
    requires
        0 <= i < required_setup_versions(installed).len(),
    ensures
        ({
            let v = required_setup_versions(installed)[i];
            let req = spec_sdk_version_requirements(installed, rows)[i];
            &&& req.0 == "sdk_"@ + v
            &&& (req.2 == SetupRequirementStatus::Ready) <==> (option_for(rows, v) matches Some(o) && (
            o.3 is Some || o.4 is Some))
            &&& (option_for(rows, v) matches Some(o) ==> (o.3 is Some ==> req.4 == o.3) && (o.3 is None
                ==> req.4 == o.4))
            &&& (req.2 != SetupRequirementStatus::Ready ==> (req.2 == SetupRequirementStatus::Missing
                <==> (option_for(rows, v) matches Some(o) && o.5 is Some)))
            &&& req.6 == (option_for(rows, v) matches Some(o) && o.5 is Some)
        }),
{
}

} // verus!
