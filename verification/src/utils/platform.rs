//! Platform facts used across the application. The operating system is an
//! input here: the caller names the one the program was built for.

use vstd::prelude::*;

use crate::text::{chars_of, replace_char_in, string_of};

verus! {

/// The operating system the program runs on.
#[derive(Clone, Copy, Debug, PartialEq, Eq, Structural)]
pub enum HostOs {
    Windows,
    Macos,
    Linux,
    Other,
}

/// The operating system named by `std::env::consts::OS`.
pub open spec fn spec_os_from_name(name: Seq<char>) -> HostOs {
    if name == "windows"@ {
        HostOs::Windows
    } else if name == "macos"@ {
        HostOs::Macos
    } else if name == "linux"@ {
        HostOs::Linux
    } else {
        HostOs::Other
    }
}

impl HostOs {
    /// The operating system named by `name` (as in `std::env::consts::OS`).
    pub fn from_os_name(name: &str) -> (r: HostOs)
        ensures
            r == spec_os_from_name(name@),
    {
        if crate::text::str_eq(name, "windows") {
            HostOs::Windows
        } else if crate::text::str_eq(name, "macos") {
            HostOs::Macos
        } else if crate::text::str_eq(name, "linux") {
            HostOs::Linux
        } else {
            HostOs::Other
        }
    }
}

/// A path with every `\` turned into `/`, as the front end expects.
pub fn normalize_path_for_serialization(path: &str) -> (r: String)
    ensures
        r@ == crate::text::replace_char(path@, '\\', '/'),
{
    let v = chars_of(path);
    let w = replace_char_in(&v, '\\', '/');
    string_of(&w)
}

/// True on macOS.
pub fn is_macos(os: HostOs) -> (r: bool)
    ensures
        r == (os == HostOs::Macos),
{
    os == HostOs::Macos
}

/// True on Windows.
pub fn is_windows(os: HostOs) -> (r: bool)
    ensures
        r == (os == HostOs::Windows),
{
    os == HostOs::Windows
}

/// True on Linux.
pub fn is_linux(os: HostOs) -> (r: bool)
    ensures
        r == (os == HostOs::Linux),
{
    os == HostOs::Linux
}

/// The platform name the front end uses.
pub open spec fn spec_current_platform(os: HostOs) -> Seq<char> {
    if os == HostOs::Macos {
        "macos"@
    } else if os == HostOs::Windows {
        "windows"@
    } else {
        "linux"@
    }
}

/// `macos`, `windows` or `linux`.
pub fn current_platform(os: HostOs) -> (r: &'static str)
    ensures
        r@ == spec_current_platform(os),
{
    if os == HostOs::Macos {
        "macos"
    } else if os == HostOs::Windows {
        "windows"
    } else {
        "linux"
    }
}

/// The platform name is always one of the three the front end knows, and
/// on a known operating system exactly one of the platform tests holds.
pub proof fn law_platform_detection_consistent(os: HostOs)
    ensures
        spec_current_platform(os) == "macos"@ || spec_current_platform(os) == "windows"@
            || spec_current_platform(os) == "linux"@,
        os != HostOs::Other ==> ((os == HostOs::Macos) as int + (os == HostOs::Windows) as int
            + (os == HostOs::Linux) as int == 1),
        os == HostOs::Other ==> spec_current_platform(os) == "linux"@,
{
}

} // verus!
