//! Where the SDK source configuration lives and what it holds.

use vstd::prelude::*;

use crate::compiler::osv;
use crate::compiler::sviews;
use crate::paths::{join_str, parent, parent_of, path_join};
use crate::text::{any_whitespace, chars_of, concat, has_ws, string_of};
use crate::json::{
    get, get_member, json_document, json_view, lemma_members_view, members_view, parse_json, JsonValue,
    JsonView,
};
use crate::types::{copy_opt, ov, SdkSourceConfig};

verus! {

/// The folder, below the documents folder, that holds the SDKs.
pub const SDK_ROOT_FOLDER: &'static str = "Maxon_SDK";

/// The file name of the SDK source configuration.
pub const SDK_CONFIG_FILE: &'static str = "sdk_sources.json";

/// The application's folder name inside the configuration folder.
pub const APP_CONFIG_FOLDER: &'static str = "com.boghma.c4d-plugin-compiler";

/// The configuration file: in the first of the configuration, data and
/// home folders that the platform reports (else `.`).
pub open spec fn spec_sdk_source_config_path(
    config_dir: Option<Seq<char>>,
    data_dir: Option<Seq<char>>,
    home_dir: Option<Seq<char>>,
) -> Seq<char> {
    let base = match config_dir {
        Some(c) => c,
        None => match data_dir {
            Some(d) => d,
            None => match home_dir {
                Some(h) => h,
                None => "."@,
            },
        },
    };
    path_join(path_join(base, APP_CONFIG_FOLDER@), SDK_CONFIG_FILE@)
}

pub fn sdk_source_config_path(
    config_dir: Option<&str>,
    data_dir: Option<&str>,
    home_dir: Option<&str>,
) -> (r: String)
    ensures
        r@ == spec_sdk_source_config_path(osv(config_dir), osv(data_dir), osv(home_dir)),
{
    let base = match config_dir {
        Some(c) => chars_of(c),
        None => match data_dir {
            Some(d) => chars_of(d),
            None => match home_dir {
                Some(h) => chars_of(h),
                None => chars_of("."),
            },
        },
    };
    let a = join_str(&base, APP_CONFIG_FOLDER);
    string_of(&join_str(&a, SDK_CONFIG_FILE))
}

/// Where older checkouts kept the configuration, relative to the working
/// folder.
pub open spec fn spec_legacy_config_paths() -> Seq<Seq<char>> {
    seq![
        path_join(path_join("src-tauri"@, "configs"@), SDK_CONFIG_FILE@),
        path_join("configs"@, SDK_CONFIG_FILE@),
    ]
}

pub fn legacy_workspace_sdk_source_config_paths() -> (r: Vec<String>)
    ensures
        sviews(r@) == spec_legacy_config_paths(),
{
    let a = chars_of("src-tauri");
    let b = join_str(&a, "configs");
    let first = join_str(&b, SDK_CONFIG_FILE);
    let c = chars_of("configs");
    let second = join_str(&c, SDK_CONFIG_FILE);
    let mut r: Vec<String> = Vec::new();
    r.push(string_of(&first));
    r.push(string_of(&second));
    assert(sviews(r@) =~= spec_legacy_config_paths());
    r
}

/// `Maxon_SDK` in the documents folder (in `.` when there is none).
pub open spec fn spec_default_sdk_root(documents: Option<Seq<char>>) -> Seq<char> {
    match documents {
        Some(d) => path_join(d, SDK_ROOT_FOLDER@),
        None => path_join("."@, SDK_ROOT_FOLDER@),
    }
}

pub fn default_sdk_root(documents: Option<&str>) -> (r: String)
    ensures
        r@ == spec_default_sdk_root(osv(documents)),
{
    let base = match documents {
        Some(d) => chars_of(d),
        None => chars_of("."),
    };
    string_of(&join_str(&base, SDK_ROOT_FOLDER))
}

/// The configuration used when none is stored: the default SDK root.
pub fn default_sdk_source_config(documents: Option<&str>) -> (r: SdkSourceConfig)
    ensures
        ov(r.sdk_root) == Some(spec_default_sdk_root(osv(documents))),
{
    SdkSourceConfig { sdk_root: Some(default_sdk_root(documents)) }
}

/// The view of a loaded configuration: its SDK root, or the load error.
pub open spec fn loaded_view(r: Result<SdkSourceConfig, String>) -> Result<Option<Seq<char>>, Seq<
    char,
>> {
    match r {
        Ok(c) => Ok(ov(c.sdk_root)),
        Err(e) => Err(e@),
    }
}

/// The configured SDK root: the stored one, else the default.
pub open spec fn spec_configured_sdk_root(
    loaded: Result<Option<Seq<char>>, Seq<char>>,
    documents: Option<Seq<char>>,
) -> Seq<char> {
    match loaded {
        Ok(Some(root)) => root,
        _ => spec_default_sdk_root(documents),
    }
}

pub fn configured_sdk_root(loaded: &Result<SdkSourceConfig, String>, documents: Option<&str>) -> (r:
    String)
    ensures
        r@ == spec_configured_sdk_root(loaded_view(*loaded), osv(documents)),
{
    match loaded {
        Ok(c) => match &c.sdk_root {
            Some(root) => root.clone(),
            None => default_sdk_root(documents),
        },
        Err(_) => default_sdk_root(documents),
    }
}

/// `SDK root must not contain spaces: <path>` when `path` holds whitespace.
pub open spec fn spec_validate_no_spaces(path: Seq<char>) -> Result<(), Seq<char>> {
    if has_ws(path) {
        Err("SDK root must not contain spaces: "@ + path)
    } else {
        Ok(())
    }
}

pub fn validate_no_spaces(path: &str) -> (r: Result<(), String>)
    ensures
        crate::types::rv(r) == spec_validate_no_spaces(path@),
{
    let p = chars_of(path);
    if any_whitespace(&p) {
        let m = chars_of("SDK root must not contain spaces: ");
        Err(string_of(&concat(&m, &p)))
    } else {
        Ok(())
    }
}

// ---------------------------------------------------------------------------
// Reading the configuration
// ---------------------------------------------------------------------------

/// The first member of a configuration written by older releases (an
/// object of per-version objects) whose `sdk_root` is non-blank text.
pub open spec fn first_legacy_root(members: Seq<(Seq<char>, JsonView)>) -> Option<Seq<char>>
    decreases members.len(),
{
    if members.len() == 0 {
        None
    } else {
        match get(members[0].1, "sdk_root"@) {
            Some(JsonView::Text(s)) => if crate::text::trim(s).len() > 0 {
                Some(s)
            } else {
                first_legacy_root(members.drop_first())
            },
            _ => first_legacy_root(members.drop_first()),
        }
    }
}

/// The SDK root an older configuration names.
pub open spec fn spec_legacy_sdk_root(value: JsonView) -> Option<Seq<char>> {
    match value {
        JsonView::Object(members) => first_legacy_root(members),
        _ => None,
    }
}

#[verifier::loop_isolation(false)]
pub fn legacy_sdk_root(value: &JsonValue) -> (r: Option<String>)
    ensures
        ov(r) == spec_legacy_sdk_root(json_view(*value)),
{
    let members = match value {
        JsonValue::Object(m) => m,
        _ => return None,
    };
    let ghost mv = members_view(members@);
    proof {
        lemma_members_view(members@);
    }
    let mut i: usize = 0;
    assert(mv.skip(0) =~= mv);
    while i < members.len()
        invariant
            i <= members.len(),
            mv == members_view(members@),
            mv.len() == members@.len(),
            first_legacy_root(mv) == first_legacy_root(mv.skip(i as int)),
        decreases members.len() - i,
    {
        let ghost rest = mv.skip(i as int);
        assert(rest[0] == mv[i as int]);
        assert(rest.drop_first() =~= mv.skip(i + 1));
        match get_member(&members[i].1, "sdk_root") {
            Some(JsonValue::Text(s)) => {
                if crate::text::trim_str(s.as_str()).len() > 0 {
                    return Some(s.clone());
                }
            },
            _ => {},
        }
        i += 1;
    }
    None
}

/// The configuration a parsed document holds: with an `sdk_root` member,
/// what reading the document as a configuration gave (`typed`); else the
/// root an older configuration names; else the default configuration. A
/// text that did not parse is an error.
pub open spec fn spec_sdk_source_config_from_document(
    document: Result<JsonView, Seq<char>>,
    typed: Result<Option<Seq<char>>, Seq<char>>,
    documents: Option<Seq<char>>,
) -> Result<Option<Seq<char>>, Seq<char>> {
    match document {
        Err(e) => Err("Failed to parse SDK config: "@ + e),
        Ok(value) => if get(value, "sdk_root"@) is Some {
            match typed {
                Ok(root) => Ok(root),
                Err(e) => Err("Failed to parse SDK root config: "@ + e),
            }
        } else {
            match spec_legacy_sdk_root(value) {
                Some(root) => Ok(Some(root)),
                None => Ok(Some(spec_default_sdk_root(documents))),
            }
        },
    }
}

/// The view of a configuration or its error.
pub open spec fn loaded_config_view(r: Result<SdkSourceConfig, String>) -> Result<
    Option<Seq<char>>,
    Seq<char>,
> {
    match r {
        Ok(c) => Ok(ov(c.sdk_root)),
        Err(e) => Err(e@),
    }
}

/// The view of a parsed document or the parser's error.
pub open spec fn document_view(document: Result<&JsonValue, &str>) -> Result<JsonView, Seq<char>> {
    match document {
        Ok(v) => Ok(json_view(*v)),
        Err(e) => Err(e@),
    }
}

/// The configuration of a parsed document (see
/// `spec_sdk_source_config_from_document`): `document` is the parsed text or
/// the parser's error; `typed` is the text read as a configuration (its
/// root, or the reader's error).
pub fn sdk_source_config_from_document(
    document: Result<&JsonValue, &str>,
    typed: &Result<SdkSourceConfig, String>,
    documents: Option<&str>,
) -> (r: Result<SdkSourceConfig, String>)
    ensures
        loaded_config_view(r) == spec_sdk_source_config_from_document(
            document_view(document),
            loaded_config_view(*typed),
            osv(documents),
        ),
{
    match document {
        Err(e) => {
            let m = chars_of("Failed to parse SDK config: ");
            Err(string_of(&concat(&m, &chars_of(e))))
        },
        Ok(value) => {
            if get_member(value, "sdk_root").is_some() {
                match typed {
                    Ok(c) => Ok(SdkSourceConfig { sdk_root: copy_opt(&c.sdk_root) }),
                    Err(e) => {
                        let m = chars_of("Failed to parse SDK root config: ");
                        Err(string_of(&concat(&m, &chars_of(e.as_str()))))
                    },
                }
            } else {
                match legacy_sdk_root(value) {
                    Some(root) => Ok(SdkSourceConfig { sdk_root: Some(root) }),
                    None => Ok(default_sdk_source_config(documents)),
                }
            }
        },
    }
}

/// The configuration a configuration file's text holds: the text is parsed
/// as JSON, and the document read as `spec_sdk_source_config_from_document`
/// says. `typed` is the same text read as a configuration.
pub fn parse_sdk_source_config(
    text: &str,
    typed: &Result<SdkSourceConfig, String>,
    documents: Option<&str>,
) -> (r: Result<SdkSourceConfig, String>)
    ensures
        loaded_config_view(r) == spec_sdk_source_config_from_document(
            json_document(text@),
            loaded_config_view(*typed),
            osv(documents),
        ),
{
    match parse_json(text) {
        Ok(value) => sdk_source_config_from_document(Ok(&value), typed, documents),
        Err(e) => sdk_source_config_from_document(Err(e.as_str()), typed, documents),
    }
}

/// Loading the configuration: the default one when the file does not
/// exist; a read error names the file; otherwise what its text holds.
/// `text` is how reading the file went.
pub open spec fn spec_load_sdk_source_config(
    config_path: Seq<char>,
    is_file: bool,
    text: Result<Seq<char>, Seq<char>>,
    typed: Result<Option<Seq<char>>, Seq<char>>,
    documents: Option<Seq<char>>,
) -> Result<Option<Seq<char>>, Seq<char>> {
    if !is_file {
        Ok(Some(spec_default_sdk_root(documents)))
    } else {
        match text {
            Err(e) => Err("Failed to read "@ + config_path + ": "@ + e),
            Ok(t) => spec_sdk_source_config_from_document(json_document(t), typed, documents),
        }
    }
}

pub fn load_sdk_source_config(
    config_path: &str,
    is_file: bool,
    text: &Result<String, String>,
    typed: &Result<SdkSourceConfig, String>,
    documents: Option<&str>,
) -> (r: Result<SdkSourceConfig, String>)
    ensures
        loaded_config_view(r) == spec_load_sdk_source_config(
            config_path@,
            is_file,
            crate::compiler::srv(*text),
            loaded_config_view(*typed),
            osv(documents),
        ),
{
    if !is_file {
        return Ok(default_sdk_source_config(documents));
    }
    match text {
        Err(e) => {
            let m = concat(
                &concat(&chars_of("Failed to read "), &chars_of(config_path)),
                &chars_of(": "),
            );
            Err(string_of(&concat(&m, &chars_of(e.as_str()))))
        },
        Ok(t) => parse_sdk_source_config(t.as_str(), typed, documents),
    }
}

/// What is stored reads back: a configuration file whose text parses to a
/// document with an `sdk_root` member loads as the root it was written
/// with, and a missing file loads as the default root.
pub proof fn law_stored_config_reads_back(
    config_path: Seq<char>,
    text: Seq<char>,
    root: Option<Seq<char>>,
    documents: Option<Seq<char>>,
)
    requires
        json_document(text) matches Ok(document) && get(document, "sdk_root"@) is Some,
    ensures
        spec_load_sdk_source_config(config_path, true, Ok(text), Ok(root), documents) == Ok::<
            Option<Seq<char>>,
            Seq<char>,
        >(root),
        spec_load_sdk_source_config(config_path, false, Ok(text), Ok(root), documents) == Ok::<
            Option<Seq<char>>,
            Seq<char>,
        >(Some(spec_default_sdk_root(documents))),
{
}

} // verus!
