//! Shared data types of the compiler service and the validators for values
//! that come from the user interface.

use vstd::prelude::*;

use crate::text::{chars_of, concat, decimal, string_of};

verus! {

/// The largest recovery or preset file the application writes (10 MiB).
pub const MAX_RECOVERY_DATA_BYTES: u32 = 10485760;

/// The pattern a recovery file name must match: letters, digits, `_` and
/// `-`, optionally followed by one extension.
pub const FILENAME_PATTERN: &'static str = "^[a-zA-Z0-9_-]+(\\.[a-zA-Z0-9]+)?$";

/// The view of an optional string.
pub open spec fn ov(o: Option<String>) -> Option<Seq<char>> {
    match o {
        Some(s) => Some(s@),
        None => None,
    }
}

/// A copy of an optional string.
pub fn copy_opt(o: &Option<String>) -> (r: Option<String>)
    ensures
        ov(r) == ov(*o),
{
    match o {
        Some(s) => Some(s.clone()),
        None => None,
    }
}

/// Application preferences that persist between sessions.
#[derive(Clone, Debug)]
pub struct AppPreferences {
    pub theme: String,
    /// The user's interface language, such as `zh-CN` or `en-US`; `None`
    /// follows the system language.
    pub language: Option<String>,
}

impl Default for AppPreferences {
    fn default() -> (r: Self)
        ensures
            r.theme@ == "system"@,
            r.language is None,
    {
        AppPreferences { theme: crate::text::owned("system"), language: None }
    }
}

/// Which CMake configurations a build produces.
#[derive(Clone, Copy, Debug, PartialEq, Eq, Structural)]
pub enum BuildConfiguration {
    Debug,
    Release,
    Both,
}

/// The CMake configuration names that `c` builds, in build order.
pub open spec fn spec_cmake_configs(c: BuildConfiguration) -> Seq<Seq<char>> {
    match c {
        BuildConfiguration::Debug => seq!["Debug"@],
        BuildConfiguration::Release => seq!["Release"@],
        BuildConfiguration::Both => seq!["Debug"@, "Release"@],
    }
}

impl BuildConfiguration {
    pub fn cmake_configs(&self) -> (r: Vec<&'static str>)
        ensures
            r@.map_values(|s: &str| s@) == spec_cmake_configs(*self),
    {
        let mut r: Vec<&'static str> = Vec::new();
        match self {
            BuildConfiguration::Debug => {
                r.push("Debug");
            },
            BuildConfiguration::Release => {
                r.push("Release");
            },
            BuildConfiguration::Both => {
                r.push("Debug");
                r.push("Release");
            },
        }
        assert(r@.map_values(|s: &str| s@) =~= spec_cmake_configs(*self));
        r
    }
}

/// How built binaries are packaged.
#[derive(Clone, Copy, Debug, PartialEq, Eq, Structural)]
pub enum PackageMode {
    Merged,
    PerVersion,
    Both,
}

/// The platform family that builds run on.
#[derive(Clone, Copy, Debug, PartialEq, Eq, Structural)]
pub enum CompilerPlatform {
    Windows,
    Macos,
    Linux,
    Unsupported,
}

/// The order in which SDK sources are consulted.
#[derive(Clone, Copy, Debug, PartialEq, Eq, Structural)]
pub enum SdkSourceMode {
    ConfiguredThenInstalledThenOfficial,
}

/// One build as the user requested it.
#[derive(Clone, Debug)]
pub struct BuildRequest {
    pub plugin_root: String,
    pub module_name: String,
    pub package_name: String,
    pub versions: Vec<String>,
    pub configuration: BuildConfiguration,
    pub sdk_source: SdkSourceMode,
    pub package_mode: PackageMode,
    pub zip_enabled: bool,
    pub clean_output: bool,
    pub refresh_sdk_cache: bool,
    pub output_dir: Option<String>,
}

/// The identifier of a started build.
#[derive(Clone, Debug)]
pub struct BuildJobId {
    pub id: String,
}

/// What was found of one build tool.
#[derive(Clone, Debug)]
pub struct ToolStatus {
    pub found: bool,
    pub path: Option<String>,
    pub version: Option<String>,
    pub message: Option<String>,
}

/// A Cinema 4D installation found on this machine.
#[derive(Clone, Debug)]
pub struct InstalledC4dVersion {
    pub version: String,
    pub path: String,
    pub sdk_version: String,
    pub download_url: String,
}

/// Where an SDK was found.
#[derive(Clone, Copy, Debug, PartialEq, Eq, Structural)]
pub enum SdkResolutionSource {
    Config,
    InstalledZip,
    OfficialDownload,
    Cache,
}

/// How one SDK version resolves.
#[derive(Clone, Debug)]
pub struct SdkResolution {
    pub version: String,
    pub source: SdkResolutionSource,
    pub sdk_root: Option<String>,
    pub archive_path: Option<String>,
    pub download_url: Option<String>,
    pub status: String,
}

/// One row of the SDK matrix.
#[derive(Clone, Debug)]
pub struct SdkVersionOption {
    pub version: String,
    pub label: String,
    pub configured: bool,
    pub sdk_root: Option<String>,
    pub sdk_zip: Option<String>,
    pub download_url: Option<String>,
    pub status: String,
}

/// One packaged output of a build.
#[derive(Clone, Debug)]
pub struct BuildArtifact {
    pub version: Option<String>,
    pub configuration: Option<String>,
    pub kind: String,
    pub path: String,
}

/// One line of the build log.
#[derive(Clone, Debug)]
pub struct BuildLogEvent {
    pub job_id: String,
    pub level: String,
    pub category: String,
    pub timestamp: String,
    pub message: String,
}

/// Build progress: `current` of `total` steps.
#[derive(Clone, Debug)]
pub struct BuildProgressEvent {
    pub job_id: String,
    pub current: u32,
    pub total: u32,
    pub label: String,
}

/// The end of a build.
#[derive(Clone, Debug)]
pub struct BuildFinishedEvent {
    pub job_id: String,
    pub success: bool,
    pub message: String,
}

/// The SDK root the user chose.
#[derive(Clone, Debug)]
pub struct SdkRootConfig {
    pub sdk_root: Option<String>,
}

/// A per-version SDK source the user entered.
#[derive(Clone, Debug)]
pub struct SdkSourceOverride {
    pub sdk_root: Option<String>,
    pub sdk_zip: Option<String>,
    pub download_url: Option<String>,
}

/// The persisted SDK source configuration.
#[derive(Clone, Debug)]
pub struct SdkSourceConfig {
    pub sdk_root: Option<String>,
}

/// The result of configuring SDK sources automatically.
#[derive(Clone, Debug)]
pub struct SdkAutoConfigReport {
    pub sdk_root: Option<String>,
    pub installed_versions: Vec<InstalledC4dVersion>,
    pub versions: Vec<SdkVersionOption>,
}

/// The state of one setup requirement.
#[derive(Clone, Copy, Debug, PartialEq, Eq, Structural)]
pub enum SetupRequirementStatus {
    Ready,
    Warning,
    Missing,
    Manual,
}

/// One item of the setup check.
#[derive(Clone, Debug)]
pub struct SetupRequirement {
    pub key: String,
    pub label: String,
    pub status: SetupRequirementStatus,
    pub detail: String,
    pub path: Option<String>,
    pub version: Option<String>,
    pub auto_installable: bool,
    pub install_hint: Option<String>,
}

/// The result of the setup check.
#[derive(Clone, Debug)]
pub struct SdkSetupReport {
    pub sdk_root: Option<String>,
    pub installed_versions: Vec<InstalledC4dVersion>,
    pub versions: Vec<SdkVersionOption>,
    pub prepared_versions: Vec<SdkResolution>,
    pub requirements: Vec<SetupRequirement>,
    pub summary: String,
}

/// Errors of the recovery-file operations.
#[derive(Clone, Debug)]
pub enum RecoveryError {
    /// The file does not exist: an expected case, not a failure.
    FileNotFound,
    /// The file name was rejected.
    ValidationError { message: String },
    /// The data is larger than the limit.
    DataTooLarge { max_bytes: u32 },
    /// Reading or writing failed.
    IoError { message: String },
    /// JSON could not be written or read.
    ParseError { message: String },
}

/// The text of a recovery error.
pub open spec fn recovery_error_text(e: RecoveryError) -> Seq<char> {
    match e {
        RecoveryError::FileNotFound => "File not found"@,
        RecoveryError::ValidationError { message } => "Validation error: "@ + message@,
        RecoveryError::DataTooLarge { max_bytes } => "Data too large (max "@ + crate::text::dec(
            max_bytes as nat,
        ) + " bytes)"@,
        RecoveryError::IoError { message } => "IO error: "@ + message@,
        RecoveryError::ParseError { message } => "Parse error: "@ + message@,
    }
}

impl RecoveryError {
    /// The error as text.
    pub fn message(&self) -> (r: String)
        ensures
            r@ == recovery_error_text(*self),
    {
        let v = match self {
            RecoveryError::FileNotFound => chars_of("File not found"),
            RecoveryError::ValidationError { message } => {
                let a = chars_of("Validation error: ");
                let b = chars_of(message.as_str());
                concat(&a, &b)
            },
            RecoveryError::DataTooLarge { max_bytes } => {
                let a = chars_of("Data too large (max ");
                let b = decimal(*max_bytes as u64);
                let c = chars_of(" bytes)");
                let ab = concat(&a, &b);
                concat(&ab, &c)
            },
            RecoveryError::IoError { message } => {
                let a = chars_of("IO error: ");
                let b = chars_of(message.as_str());
                concat(&a, &b)
            },
            RecoveryError::ParseError { message } => {
                let a = chars_of("Parse error: ");
                let b = chars_of(message.as_str());
                concat(&a, &b)
            },
        };
        string_of(&v)
    }
}

/// Whether the regular expression `pattern` compiles (`Some`) and matches
/// `text` (`Some(true)`).
pub uninterp spec fn regex_match(pattern: Seq<char>, text: Seq<char>) -> Option<bool>;

/// An ASCII letter or digit (`[a-zA-Z0-9]`).
pub open spec fn ascii_alnum(c: char) -> bool {
    ('a' <= c && c <= 'z') || ('A' <= c && c <= 'Z') || ('0' <= c && c <= '9')
}

/// A character of `[a-zA-Z0-9_-]`.
pub open spec fn stem_char(c: char) -> bool {
    ascii_alnum(c) || c == '_' || c == '-'
}

/// The texts that `FILENAME_PATTERN` matches whole: one or more of
/// `[a-zA-Z0-9_-]`, then optionally a dot and one or more ASCII letters or
/// digits.
pub open spec fn filename_shape(s: Seq<char>) -> bool {
    ||| (s.len() > 0 && forall|k: int| 0 <= k < s.len() ==> stem_char(#[trigger] s[k]))
    ||| exists|i: int|
        #![trigger s[i]]
        0 < i < s.len() - 1 && s[i] == '.' && (forall|k: int| 0 <= k < i ==> stem_char(#[trigger] s[k]))
            && (forall|k: int| i < k < s.len() ==> ascii_alnum(#[trigger] s[k]))
}

/// `regex::Regex::new(pattern)` followed by `Regex::is_match(text)`. The
/// contract names the outcome, which depends on the pattern and the text
/// alone; for `FILENAME_PATTERN` it also states what the pattern's syntax
/// means (anchors `^`/`$` at the ends of the text, ASCII classes, an
/// optional group). Other patterns' matching is not restated.
#[verifier::external_body]
fn regex_is_match(pattern: &str, text: &str) -> (r: Option<bool>)
    ensures
        r == regex_match(pattern@, text@),
        pattern@ == FILENAME_PATTERN@ ==> r == Some(filename_shape(text@)),
{
    match regex::Regex::new(pattern) {
        Ok(re) => Some(re.is_match(text)),
        Err(_) => None,
    }
}

/// What `validate_filename` answers for `name`.
pub open spec fn spec_validate_filename(name: Seq<char>) -> Result<(), Seq<char>> {
    if name.len() == 0 {
        Err("Filename cannot be empty"@)
    } else if name.len() > 100 {
        Err("Filename too long (max 100 characters)"@)
    } else if !filename_shape(name) {
        Err(
            "Invalid filename: only alphanumeric characters, dashes, underscores, and dots allowed"@,
        )
    } else {
        Ok(())
    }
}

/// The view of a result with a text error.
pub open spec fn rv(r: Result<(), String>) -> Result<(), Seq<char>> {
    match r {
        Ok(()) => Ok(()),
        Err(e) => Err(e@),
    }
}

/// Checks that a file name is safe to use on the file system: only
/// letters, digits, dashes, underscores and one extension.
pub fn validate_filename(filename: &str) -> (r: Result<(), String>)
    ensures
        rv(r) == spec_validate_filename(filename@),
{
    let n = crate::text::chars_of(filename).len();
    if n == 0 {
        return Err(crate::text::owned("Filename cannot be empty"));
    }
    if n > 100 {
        return Err(crate::text::owned("Filename too long (max 100 characters)"));
    }
    match regex_is_match(FILENAME_PATTERN, filename) {
        Some(true) => Ok(()),
        _ => Err(
            crate::text::owned(
                "Invalid filename: only alphanumeric characters, dashes, underscores, and dots allowed",
            ),
        ),
    }
}

/// What `validate_string_input` answers.
pub open spec fn spec_validate_string_input(input: Seq<char>, max_len: nat, field_name: Seq<char>) -> Result<
    (),
    Seq<char>,
> {
    if input.len() > max_len {
        Err(field_name + " too long (max "@ + crate::text::dec(max_len) + " characters)"@)
    } else {
        Ok(())
    }
}

/// Checks a length in characters, not bytes.
pub fn validate_string_input(input: &str, max_len: usize, field_name: &str) -> (r: Result<
    (),
    String,
>)
    ensures
        rv(r) == spec_validate_string_input(input@, max_len as nat, field_name@),
{
    let char_count = chars_of(input).len();
    if char_count > max_len {
        let a = chars_of(field_name);
        let b = chars_of(" too long (max ");
        let c = decimal(max_len as u64);
        let d = chars_of(" characters)");
        let ab = concat(&a, &b);
        let abc = concat(&ab, &c);
        let all = concat(&abc, &d);
        return Err(string_of(&all));
    }
    Ok(())
}

/// What `validate_theme` answers.
pub open spec fn spec_validate_theme(theme: Seq<char>) -> Result<(), Seq<char>> {
    if theme == "light"@ || theme == "dark"@ || theme == "system"@ {
        Ok(())
    } else {
        Err("Invalid theme: must be 'light', 'dark', or 'system'"@)
    }
}

/// Checks a theme name.
pub fn validate_theme(theme: &str) -> (r: Result<(), String>)
    ensures
        rv(r) == spec_validate_theme(theme@),
{
    if crate::text::str_eq(theme, "light") || crate::text::str_eq(theme, "dark")
        || crate::text::str_eq(theme, "system") {
        Ok(())
    } else {
        Err(crate::text::owned("Invalid theme: must be 'light', 'dark', or 'system'"))
    }
}

} // verus!
