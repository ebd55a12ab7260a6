//! The decisions behind the application's commands: recovery files, the
//! crash log, and where an artifact is shown.

use vstd::prelude::*;

use crate::json::{json_document, json_view, parse_json, JsonValue, JsonView};
use crate::paths::{extension, extension_of, join_str, parent, parent_of, path_join};
use crate::text::{chars_of, concat, dec, decimal, has_ws, string_of, trim, trim_str};
use crate::types::{
    ov, spec_validate_filename, validate_filename, RecoveryError, MAX_RECOVERY_DATA_BYTES,
};
use crate::utils::platform::HostOs;

verus! {

// ---------------------------------------------------------------------------
// Recovery files
// ---------------------------------------------------------------------------

/// The folder recovery files live in, below the application data folder.
pub const RECOVERY_FOLDER: &'static str = "recovery";

/// The file the build queue presets are stored in.
pub const BUILD_QUEUE_PRESETS_FILE: &'static str = "build_queue_presets.json";

/// How long a recovery file is kept, in seconds (seven days).
pub const RECOVERY_RETENTION_SECS: u64 = 604800;

/// `<data>/recovery/<filename>.json`, once the file name passes the checks
/// of `validate_filename`; a rejected name is a validation error.
pub open spec fn spec_recovery_file_path(data_dir: Seq<char>, filename: Seq<char>) -> Result<
    Seq<char>,
    Seq<char>,
> {
    match spec_validate_filename(filename) {
        Err(e) => Err(e),
        Ok(_) => Ok(path_join(path_join(data_dir, RECOVERY_FOLDER@), filename + ".json"@)),
    }
}

/// The view of a recovery error's kind and text.
pub open spec fn recovery_view(e: RecoveryError) -> Seq<char> {
    crate::types::recovery_error_text(e)
}

pub fn recovery_file_path(data_dir: &str, filename: &str) -> (r: Result<String, RecoveryError>)
    ensures
        match r {
            Ok(p) => spec_recovery_file_path(data_dir@, filename@) == Ok::<Seq<char>, Seq<char>>(
                p@,
            ),
            Err(e) => e matches RecoveryError::ValidationError { message } && spec_recovery_file_path(
                data_dir@,
                filename@,
            ) == Err::<Seq<char>, Seq<char>>(message@),
        },
{
    match validate_filename(filename) {
        Err(message) => Err(RecoveryError::ValidationError { message }),
        Ok(_) => {
            let d = chars_of(data_dir);
            let folder = join_str(&d, RECOVERY_FOLDER);
            let name = concat(&chars_of(filename), &chars_of(".json"));
            Ok(string_of(&crate::paths::join(&folder, &name)))
        },
    }
}

/// Data of `len` bytes may be stored unless it is over the limit.
pub fn check_recovery_size(len: usize) -> (r: Result<(), RecoveryError>)
    ensures
        r is Ok <==> len <= MAX_RECOVERY_DATA_BYTES,
        r matches Err(e) ==> e matches RecoveryError::DataTooLarge { max_bytes } && max_bytes
            == MAX_RECOVERY_DATA_BYTES,
{
    if len > MAX_RECOVERY_DATA_BYTES as usize {
        Err(RecoveryError::DataTooLarge { max_bytes: MAX_RECOVERY_DATA_BYTES })
    } else {
        Ok(())
    }
}

/// A recovery error with its texts as character sequences.
pub enum RecoveryErrorView {
    FileNotFound,
    ValidationError { message: Seq<char> },
    DataTooLarge { max_bytes: u32 },
    IoError { message: Seq<char> },
    ParseError { message: Seq<char> },
}

pub open spec fn recovery_error_view(e: RecoveryError) -> RecoveryErrorView {
    match e {
        RecoveryError::FileNotFound => RecoveryErrorView::FileNotFound,
        RecoveryError::ValidationError { message } => RecoveryErrorView::ValidationError {
            message: message@,
        },
        RecoveryError::DataTooLarge { max_bytes } => RecoveryErrorView::DataTooLarge { max_bytes },
        RecoveryError::IoError { message } => RecoveryErrorView::IoError { message: message@ },
        RecoveryError::ParseError { message } => RecoveryErrorView::ParseError { message: message@ },
    }
}

/// Before emergency data is stored: the file name is checked first, then
/// the data as it will be written (its length in bytes, or the serializer's
/// error) must fit the limit.
pub open spec fn spec_check_emergency_save(filename: Seq<char>, serialized: Result<usize, Seq<char>>) -> Result<
    (),
    RecoveryErrorView,
> {
    match spec_validate_filename(filename) {
        Err(message) => Err(RecoveryErrorView::ValidationError { message }),
        Ok(_) => match serialized {
            Err(message) => Err(RecoveryErrorView::ParseError { message }),
            Ok(len) => if len > MAX_RECOVERY_DATA_BYTES {
                Err(RecoveryErrorView::DataTooLarge { max_bytes: MAX_RECOVERY_DATA_BYTES })
            } else {
                Ok(())
            },
        },
    }
}

/// The checks before emergency data is stored (see
/// `spec_check_emergency_save`).
pub fn check_emergency_save(filename: &str, serialized: Result<usize, &str>) -> (r: Result<
    (),
    RecoveryError,
>)
    ensures
        match r {
            Ok(_) => spec_check_emergency_save(filename@, serialized_view(serialized)) is Ok,
            Err(e) => spec_check_emergency_save(filename@, serialized_view(serialized)) == Err::<
                (),
                RecoveryErrorView,
            >(recovery_error_view(e)),
        },
{
    match validate_filename(filename) {
        Err(message) => Err(RecoveryError::ValidationError { message }),
        Ok(_) => match serialized {
            Err(m) => Err(RecoveryError::ParseError { message: crate::text::owned(m) }),
            Ok(len) => check_recovery_size(len),
        },
    }
}

pub open spec fn serialized_view(s: Result<usize, &str>) -> Result<usize, Seq<char>> {
    match s {
        Ok(n) => Ok(n),
        Err(e) => Err(e@),
    }
}

/// What loading emergency data answers once its file is known: `contents`
/// is nothing when no file is there (not found), else how reading it went
/// (a read error is an I/O error); the text read is parsed as JSON (a
/// parse error is reported as such).
pub open spec fn spec_emergency_data(contents: Option<Result<Seq<char>, Seq<char>>>) -> Result<
    JsonView,
    RecoveryErrorView,
> {
    match contents {
        None => Err(RecoveryErrorView::FileNotFound),
        Some(Err(message)) => Err(RecoveryErrorView::IoError { message }),
        Some(Ok(text)) => match json_document(text) {
            Err(message) => Err(RecoveryErrorView::ParseError { message }),
            Ok(document) => Ok(document),
        },
    }
}

pub open spec fn contents_view(c: Option<Result<String, String>>) -> Option<Result<Seq<char>, Seq<char>>> {
    match c {
        None => None,
        Some(Ok(t)) => Some(Ok(t@)),
        Some(Err(e)) => Some(Err(e@)),
    }
}

/// The emergency data a recovery file holds (see `spec_emergency_data`).
pub fn emergency_data(contents: Option<Result<String, String>>) -> (r: Result<JsonValue, RecoveryError>)
    ensures
        match r {
            Ok(v) => spec_emergency_data(contents_view(contents)) == Ok::<JsonView, RecoveryErrorView>(
                json_view(v),
            ),
            Err(e) => spec_emergency_data(contents_view(contents)) == Err::<JsonView, RecoveryErrorView>(
                recovery_error_view(e),
            ),
        },
{
    match contents {
        None => Err(RecoveryError::FileNotFound),
        Some(Err(message)) => Err(RecoveryError::IoError { message }),
        Some(Ok(text)) => match parse_json(text.as_str()) {
            Err(message) => Err(RecoveryError::ParseError { message }),
            Ok(v) => Ok(v),
        },
    }
}

/// The time before which recovery files are removed: seven days before
/// `now` (seconds since the Unix epoch).
pub fn recovery_cutoff(now: u64) -> (r: u64)
    requires
        now >= RECOVERY_RETENTION_SECS,
    ensures
        r == now - RECOVERY_RETENTION_SECS,
{
    now - RECOVERY_RETENTION_SECS
}

/// A recovery file is removed when it is a `.json` file last changed before
/// the cutoff.
pub open spec fn spec_is_expired_recovery_file(path: Seq<char>, modified_secs: u64, cutoff: u64) -> bool {
    extension(path) == Some("json"@) && modified_secs < cutoff
}

pub fn is_expired_recovery_file(path: &str, modified_secs: u64, cutoff: u64) -> (r: bool)
    ensures
        r == spec_is_expired_recovery_file(path@, modified_secs, cutoff),
{
    let pv = chars_of(path);
    let is_json = match extension_of(&pv) {
        Some(e) => crate::text::chars_eq(&e, &chars_of("json")),
        None => false,
    };
    is_json && modified_secs < cutoff
}

/// The paths of the files a cleanup at `cutoff` removes, in order; each
/// file is given by its path and last change (seconds since the Unix
/// epoch).
pub open spec fn expired_paths(files: Seq<(Seq<char>, u64)>, cutoff: u64) -> Seq<Seq<char>>
    decreases files.len(),
{
    if files.len() == 0 {
        Seq::empty()
    } else {
        let rest = expired_paths(files.drop_last(), cutoff);
        if spec_is_expired_recovery_file(files.last().0, files.last().1, cutoff) {
            rest.push(files.last().0)
        } else {
            rest
        }
    }
}

/// The view of listed files: path and last change.
pub open spec fn files_view(files: Seq<(String, u64)>) -> Seq<(Seq<char>, u64)> {
    files.map_values(|f: (String, u64)| (f.0@, f.1))
}

pub fn expired_recovery_files(files: &Vec<(String, u64)>, cutoff: u64) -> (r: Vec<String>)
    ensures
        crate::compiler::sviews(r@) == expired_paths(files_view(files@), cutoff),
{
    let ghost fv = files_view(files@);
    let mut r: Vec<String> = Vec::new();
    let mut i: usize = 0;
    assert(crate::compiler::sviews(r@) =~= expired_paths(fv.take(0), cutoff));
    while i < files.len()
        invariant
            i <= files.len(),
            fv == files_view(files@),
            crate::compiler::sviews(r@) == expired_paths(fv.take(i as int), cutoff),
        decreases files.len() - i,
    {
        assert(fv.take(i + 1).drop_last() =~= fv.take(i as int));
        assert(fv.take(i + 1).last() == (files@[i as int].0@, files@[i as int].1));
        if is_expired_recovery_file(files[i].0.as_str(), files[i].1, cutoff) {
            let ghost prev = r@;
            r.push(files[i].0.clone());
            proof {
                crate::compiler::lemma_sviews_push(prev, r@[prev.len() as int]);
                assert(r@ == prev.push(r@[prev.len() as int]));
            }
        }
        i += 1;
    }
    assert(fv.take(files.len() as int) =~= fv);
    r
}

// ---------------------------------------------------------------------------
// The crash log
// ---------------------------------------------------------------------------

/// The crash log file in the log folder.
pub const CRASH_LOG_FILE: &'static str = "crash.log";

/// One crash log entry: a header with the time and source, the message,
/// the context when given, the stack when it is not blank, and a blank
/// line.
pub open spec fn spec_crash_log_entry(
    timestamp: Seq<char>,
    source: Seq<char>,
    message: Seq<char>,
    context: Option<Seq<char>>,
    stack: Option<Seq<char>>,
) -> Seq<char> {
    let head = "===== "@ + timestamp + " ["@ + source + "] =====\n"@ + message + "\n"@;
    let with_context = match context {
        Some(c) => head + "context: "@ + c + "\n"@,
        None => head,
    };
    let with_stack = match stack {
        Some(s) => if trim(s).len() > 0 {
            with_context + "stack:\n"@ + s + "\n"@
        } else {
            with_context
        },
        None => with_context,
    };
    with_stack + "\n"@
}

/// `context` is the JSON text of the context value.
pub fn crash_log_entry(
    timestamp: &str,
    source: &str,
    message: &str,
    context: Option<&str>,
    stack: Option<&str>,
) -> (r: String)
    ensures
        r@ == spec_crash_log_entry(
            timestamp@,
            source@,
            message@,
            crate::compiler::osv(context),
            crate::compiler::osv(stack),
        ),
{
    let head = concat(
        &concat(
            &concat(
                &concat(
                    &concat(&concat(&chars_of("===== "), &chars_of(timestamp)), &chars_of(" [")),
                    &chars_of(source),
                ),
                &chars_of("] =====\n"),
            ),
            &chars_of(message),
        ),
        &chars_of("\n"),
    );
    let with_context = match context {
        Some(c) => concat(&concat(&concat(&head, &chars_of("context: ")), &chars_of(c)), &chars_of("\n")),
        None => head,
    };
    let with_stack = match stack {
        Some(s) => if trim_str(s).len() > 0 {
            concat(&concat(&concat(&with_context, &chars_of("stack:\n")), &chars_of(s)), &chars_of("\n"))
        } else {
            with_context
        },
        None => with_context,
    };
    string_of(&concat(&with_stack, &chars_of("\n")))
}

/// `<payload> at <file>:<line>`, with `unknown panic` and
/// `unknown location` for what a panic did not carry.
pub open spec fn spec_panic_message(payload: Option<Seq<char>>, location: Option<(Seq<char>, u32)>) -> Seq<char> {
    (match payload {
        Some(p) => p,
        None => "unknown panic"@,
    }) + " at "@ + match location {
        Some((file, line)) => file + ":"@ + dec(line as nat),
        None => "unknown location"@,
    }
}

pub fn panic_message(payload: Option<&str>, location: Option<(&str, u32)>) -> (r: String)
    ensures
        r@ == spec_panic_message(
            crate::compiler::osv(payload),
            match location {
                Some((f, l)) => Some((f@, l)),
                None => None,
            },
        ),
{
    let p = match payload {
        Some(p) => chars_of(p),
        None => chars_of("unknown panic"),
    };
    let l = match location {
        Some((file, line)) => concat(&concat(&chars_of(file), &chars_of(":")), &decimal(line as u64)),
        None => chars_of("unknown location"),
    };
    string_of(&concat(&concat(&p, &chars_of(" at ")), &l))
}

/// The fallback crash log folder: `<cache>/C4D Plugin Compiler/logs`, with
/// the data folder and then the home folder standing in for the cache
/// folder.
pub open spec fn spec_process_log_dir(
    cache: Option<Seq<char>>,
    data: Option<Seq<char>>,
    home: Option<Seq<char>>,
) -> Result<Seq<char>, Seq<char>> {
    let base = match cache {
        Some(c) => Some(c),
        None => match data {
            Some(d) => Some(d),
            None => home,
        },
    };
    match base {
        Some(b) => Ok(path_join(path_join(b, "C4D Plugin Compiler"@), "logs"@)),
        None => Err("Failed to resolve fallback crash log directory"@),
    }
}

pub fn process_log_dir(cache: Option<&str>, data: Option<&str>, home: Option<&str>) -> (r: Result<
    String,
    String,
>)
    ensures
        crate::compiler::srv(r) == spec_process_log_dir(
            crate::compiler::osv(cache),
            crate::compiler::osv(data),
            crate::compiler::osv(home),
        ),
{
    let base = match cache {
        Some(c) => Some(c),
        None => match data {
            Some(d) => Some(d),
            None => home,
        },
    };
    match base {
        Some(b) => {
            let bv = chars_of(b);
            let a = join_str(&bv, "C4D Plugin Compiler");
            Ok(string_of(&join_str(&a, "logs")))
        },
        None => Err(crate::text::owned("Failed to resolve fallback crash log directory")),
    }
}

// ---------------------------------------------------------------------------
// Showing artifacts
// ---------------------------------------------------------------------------

/// The folder to show for an artifact: the folder holding it when it is a
/// file, else the path itself.
pub open spec fn spec_artifact_folder(path: Seq<char>, is_file: bool) -> Result<Seq<char>, Seq<char>> {
    if is_file {
        match parent(path) {
            Some(p) => Ok(p),
            None => Err("No parent folder for "@ + path),
        }
    } else {
        Ok(path)
    }
}

pub fn artifact_folder(path: &str, is_file: bool) -> (r: Result<String, String>)
    ensures
        crate::compiler::srv(r) == spec_artifact_folder(path@, is_file),
{
    if is_file {
        let pv = chars_of(path);
        match parent_of(&pv) {
            Some(p) => Ok(string_of(&p)),
            None => Err(string_of(&concat(&chars_of("No parent folder for "), &pv))),
        }
    } else {
        Ok(crate::text::owned(path))
    }
}

/// The program that opens a folder in the desktop's file browser.
pub open spec fn spec_folder_opener(os: HostOs) -> Option<Seq<char>> {
    match os {
        HostOs::Windows => Some("explorer"@),
        HostOs::Macos => Some("open"@),
        HostOs::Linux => Some("xdg-open"@),
        HostOs::Other => None,
    }
}

pub fn folder_opener(os: HostOs) -> (r: Option<&'static str>)
    ensures
        crate::compiler::osv(r) == spec_folder_opener(os),
{
    match os {
        HostOs::Windows => Some("explorer"),
        HostOs::Macos => Some("open"),
        HostOs::Linux => Some("xdg-open"),
        HostOs::Other => None,
    }
}

/// The error a panicking compiler task reports.
pub open spec fn spec_task_panic_message(payload: Option<Seq<char>>) -> Seq<char> {
    "Compiler task panicked: "@ + match payload {
        Some(p) => p,
        None => "unknown panic"@,
    }
}

pub fn task_panic_message(payload: Option<&str>) -> (r: String)
    ensures
        r@ == spec_task_panic_message(crate::compiler::osv(payload)),
{
    let p = match payload {
        Some(p) => chars_of(p),
        None => chars_of("unknown panic"),
    };
    string_of(&concat(&chars_of("Compiler task panicked: "), &p))
}

} // verus!
