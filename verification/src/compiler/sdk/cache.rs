//! The SDK cache: unpacking an archive into a version's cache folder and
//! keeping a downloaded archive. Both alternate file operations and
//! decisions, so each is a step function from where it stands and what the
//! last operation gave to the next stage and operation.
//!
//! An archive is never unpacked into the cache folder itself: it goes into
//! a staging folder beside it, is checked there, and only a staging folder
//! that holds an SDK is moved into the cache folder's place. A staging
//! folder that failed is removed.

use vstd::prelude::*;

use super::{
    extracted_sdk_root, ready_sdk_root, sdk_archive_path, sdk_cache_root, spec_extracted_sdk_root,
    spec_ready_sdk_root, spec_sdk_archive_path, spec_sdk_cache_root, SdkContext,
};
use crate::compiler::{require_file, spec_require_file, srv};
use crate::fs::{fs_exists, fs_is_file, fs_readable_zip, in_walk, EntryView, FsSnapshot};
use crate::paths::{join, parent, parent_of, path_join, relative, relative_of};
use crate::text::{chars_of, concat, owned, string_of};

verus! {

// ---------------------------------------------------------------------------
// Unpacking an archive
// ---------------------------------------------------------------------------

/// The folder beside the cache folder `target` that an archive is unpacked
/// into and checked in before it becomes the cache.
pub open spec fn spec_staging_root(target: Seq<char>) -> Seq<char> {
    target + ".extracting"@
}

pub fn staging_root(target: &str) -> (r: String)
    ensures
        r@ == spec_staging_root(target@),
{
    string_of(&concat(&chars_of(target), &chars_of(".extracting")))
}

/// Where the path `p`, found inside the folder `from`, lies once `from` has
/// been moved to `to`; a path outside `from` stays as it is.
pub open spec fn spec_moved_path(p: Seq<char>, from: Seq<char>, to: Seq<char>) -> Seq<char> {
    match relative(from, p) {
        Some(rel) => if rel.len() == 0 {
            to
        } else {
            path_join(to, rel)
        },
        None => p,
    }
}

pub fn moved_path(p: &str, from: &str, to: &str) -> (r: String)
    ensures
        r@ == spec_moved_path(p@, from@, to@),
{
    let pv = chars_of(p);
    let fv = chars_of(from);
    match relative_of(&fv, &pv) {
        Some(rel) => if rel.len() == 0 {
            owned(to)
        } else {
            string_of(&join(&chars_of(to), &rel))
        },
        None => owned(p),
    }
}

/// Where unpacking an SDK archive stands between two file operations. Each
/// stage but `Start` carries the cache folder `target` of the run.
pub enum UnpackStage {
    Start,
    /// The cache folder `target` is being removed for a fresh start.
    Refreshing { target: String },
    /// The cache folder `target` held no SDK and is being removed.
    RemovingIncomplete { target: String },
    /// A staging folder left over from an earlier run is being removed.
    ClearingStaging { target: String },
    /// The archive is being unpacked into the staging folder of `target`.
    Unzipping { target: String },
    /// The staging folder, whose SDK is `root`, is being moved to `target`.
    Installing { target: String, root: String },
    /// The staging folder of `target` is being removed after `error`.
    Discarding { target: String, error: String },
}

/// The next file operation of unpacking.
pub enum UnpackAction {
    /// Remove the folder `path` with everything in it; a failure is
    /// reported as `<failure>: <error>`.
    RemoveDir { path: String, failure: String },
    /// Create the folder `target` and unpack the zip `archive` into it.
    Unzip { archive: String, target: String },
    /// Rename the folder `from` to `to`; a failure is reported as
    /// `<failure>: <error>`.
    Move { from: String, to: String, failure: String },
    /// Unpacking is over: the SDK root, or the error.
    Finish { result: Result<String, String> },
}

pub enum UnpackStageView {
    Start,
    Refreshing { target: Seq<char> },
    RemovingIncomplete { target: Seq<char> },
    ClearingStaging { target: Seq<char> },
    Unzipping { target: Seq<char> },
    Installing { target: Seq<char>, root: Seq<char> },
    Discarding { target: Seq<char>, error: Seq<char> },
}

pub enum UnpackActionView {
    RemoveDir { path: Seq<char>, failure: Seq<char> },
    Unzip { archive: Seq<char>, target: Seq<char> },
    Move { from: Seq<char>, to: Seq<char>, failure: Seq<char> },
    Finish { result: Result<Seq<char>, Seq<char>> },
}

pub open spec fn unpack_stage_view(s: UnpackStage) -> UnpackStageView {
    match s {
        UnpackStage::Start => UnpackStageView::Start,
        UnpackStage::Refreshing { target } => UnpackStageView::Refreshing { target: target@ },
        UnpackStage::RemovingIncomplete { target } => UnpackStageView::RemovingIncomplete {
            target: target@,
        },
        UnpackStage::ClearingStaging { target } => UnpackStageView::ClearingStaging {
            target: target@,
        },
        UnpackStage::Unzipping { target } => UnpackStageView::Unzipping { target: target@ },
        UnpackStage::Installing { target, root } => UnpackStageView::Installing {
            target: target@,
            root: root@,
        },
        UnpackStage::Discarding { target, error } => UnpackStageView::Discarding {
            target: target@,
            error: error@,
        },
    }
}

pub open spec fn unpack_action_view(a: UnpackAction) -> UnpackActionView {
    match a {
        UnpackAction::RemoveDir { path, failure } => UnpackActionView::RemoveDir {
            path: path@,
            failure: failure@,
        },
        UnpackAction::Unzip { archive, target } => UnpackActionView::Unzip {
            archive: archive@,
            target: target@,
        },
        UnpackAction::Move { from, to, failure } => UnpackActionView::Move {
            from: from@,
            to: to@,
            failure: failure@,
        },
        UnpackAction::Finish { result } => UnpackActionView::Finish { result: srv(result) },
    }
}

/// The cache folder of a run: the one a stage carries, or, at the start,
/// the version's cache folder.
pub open spec fn unpack_run_target(
    fs: Seq<EntryView>,
    ctx: SdkContext,
    version: Seq<char>,
    stage: UnpackStageView,
) -> Seq<char> {
    match stage {
        UnpackStageView::Start => spec_sdk_cache_root(fs, ctx, version),
        UnpackStageView::Refreshing { target } => target,
        UnpackStageView::RemovingIncomplete { target } => target,
        UnpackStageView::ClearingStaging { target } => target,
        UnpackStageView::Unzipping { target } => target,
        UnpackStageView::Installing { target, .. } => target,
        UnpackStageView::Discarding { target, .. } => target,
    }
}

/// Unpacking into the staging folder of `target`: a staging folder left
/// over is removed first.
pub open spec fn spec_unpack_begin(fs: Seq<EntryView>, archive: Seq<char>, target: Seq<char>) -> (
    UnpackStageView,
    UnpackActionView,
) {
    let staging = spec_staging_root(target);
    if fs_exists(fs, staging) {
        (
            UnpackStageView::ClearingStaging { target },
            UnpackActionView::RemoveDir {
                path: staging,
                failure: "Failed to remove stale SDK extraction "@ + staging,
            },
        )
    } else {
        (UnpackStageView::Unzipping { target }, UnpackActionView::Unzip { archive, target: staging })
    }
}

/// After `error`, the staging folder of `target` is removed before the run
/// ends with `error`.
pub open spec fn spec_unpack_discard(target: Seq<char>, error: Seq<char>) -> (
    UnpackStageView,
    UnpackActionView,
) {
    let staging = spec_staging_root(target);
    (
        UnpackStageView::Discarding { target, error },
        UnpackActionView::RemoveDir { path: staging, failure: "Failed to remove "@ + staging },
    )
}

/// The cache folder as unpacking finds it: an SDK there (or nested in it)
/// is the answer; a folder without one is removed; without a folder the
/// archive is unpacked into the staging folder.
pub open spec fn spec_unpack_check(fs: Seq<EntryView>, archive: Seq<char>, target: Seq<char>) -> (
    UnpackStageView,
    UnpackActionView,
) {
    if fs_exists(fs, target) {
        match spec_ready_sdk_root(fs, target) {
            Some(root) => (UnpackStageView::Start, UnpackActionView::Finish { result: Ok(root) }),
            None => (
                UnpackStageView::RemovingIncomplete { target },
                UnpackActionView::RemoveDir {
                    path: target,
                    failure: "Failed to remove incomplete SDK cache "@ + target,
                },
            ),
        }
    } else {
        spec_unpack_begin(fs, archive, target)
    }
}

/// One step of unpacking `archive` for `version` (from scratch when
/// `refresh`): the archive must be a file; a refresh first removes the
/// cache folder; an SDK already in the cache folder is kept; a cache folder
/// without one is removed; the archive is unpacked into the staging folder
/// and checked there; a staging folder that holds an SDK is moved to the
/// cache folder, and the SDK's place there is the answer; a staging folder
/// that holds none, or whose unpacking or move failed, is removed and the
/// run ends with the error. `outcome` is how the last operation went.
pub open spec fn spec_unpack_step(
    fs: Seq<EntryView>,
    ctx: SdkContext,
    version: Seq<char>,
    archive: Seq<char>,
    refresh: bool,
    stage: UnpackStageView,
    outcome: Result<(), Seq<char>>,
) -> (UnpackStageView, UnpackActionView) {
    match stage {
        UnpackStageView::Start => match spec_require_file(fs, archive) {
            Err(e) => (UnpackStageView::Start, UnpackActionView::Finish { result: Err(e) }),
            Ok(_) => {
                let target = spec_sdk_cache_root(fs, ctx, version);
                if refresh && fs_exists(fs, target) {
                    (
                        UnpackStageView::Refreshing { target },
                        UnpackActionView::RemoveDir { path: target, failure: "Failed to remove "@ + target },
                    )
                } else {
                    spec_unpack_check(fs, archive, target)
                }
            },
        },
        UnpackStageView::Refreshing { target } => match outcome {
            Err(e) => (UnpackStageView::Start, UnpackActionView::Finish { result: Err(e) }),
            Ok(_) => spec_unpack_check(fs, archive, target),
        },
        UnpackStageView::RemovingIncomplete { target } => match outcome {
            Err(e) => (UnpackStageView::Start, UnpackActionView::Finish { result: Err(e) }),
            Ok(_) => if fs_exists(fs, target) {
                (
                    UnpackStageView::Start,
                    UnpackActionView::Finish { result: spec_extracted_sdk_root(fs, target) },
                )
            } else {
                spec_unpack_begin(fs, archive, target)
            },
        },
        UnpackStageView::ClearingStaging { target } => match outcome {
            Err(e) => (UnpackStageView::Start, UnpackActionView::Finish { result: Err(e) }),
            Ok(_) => (
                UnpackStageView::Unzipping { target },
                UnpackActionView::Unzip { archive, target: spec_staging_root(target) },
            ),
        },
        UnpackStageView::Unzipping { target } => match outcome {
            Err(e) => spec_unpack_discard(target, e),
            Ok(_) => {
                let staging = spec_staging_root(target);
                match spec_extracted_sdk_root(fs, staging) {
                    Ok(root) => (
                        UnpackStageView::Installing { target, root },
                        UnpackActionView::Move {
                            from: staging,
                            to: target,
                            failure: "Failed to move "@ + staging + " to "@ + target,
                        },
                    ),
                    Err(e) => spec_unpack_discard(target, e),
                }
            },
        },
        UnpackStageView::Installing { target, root } => match outcome {
            Err(e) => spec_unpack_discard(target, e),
            Ok(_) => (
                UnpackStageView::Start,
                UnpackActionView::Finish {
                    result: Ok(spec_moved_path(root, spec_staging_root(target), target)),
                },
            ),
        },
        UnpackStageView::Discarding { error, .. } => (
            UnpackStageView::Start,
            UnpackActionView::Finish { result: Err(error) },
        ),
    }
}

pub open spec fn unit_view(r: Result<(), String>) -> Result<(), Seq<char>> {
    match r {
        Ok(_) => Ok(()),
        Err(e) => Err(e@),
    }
}

fn unpack_begin(fs: &FsSnapshot, archive: &str, target: String) -> (r: (UnpackStage, UnpackAction))
    ensures
        (unpack_stage_view(r.0), unpack_action_view(r.1)) == spec_unpack_begin(fs@, archive@, target@),
{
    let staging = staging_root(target.as_str());
    let sv = chars_of(staging.as_str());
    if fs.path_exists(&sv) {
        let failure = string_of(&concat(&chars_of("Failed to remove stale SDK extraction "), &sv));
        (UnpackStage::ClearingStaging { target }, UnpackAction::RemoveDir { path: staging, failure })
    } else {
        (UnpackStage::Unzipping { target }, UnpackAction::Unzip { archive: owned(archive), target: staging })
    }
}

fn unpack_discard(target: String, error: String) -> (r: (UnpackStage, UnpackAction))
    ensures
        (unpack_stage_view(r.0), unpack_action_view(r.1)) == spec_unpack_discard(target@, error@),
{
    let staging = staging_root(target.as_str());
    let failure = string_of(&concat(&chars_of("Failed to remove "), &chars_of(staging.as_str())));
    (UnpackStage::Discarding { target, error }, UnpackAction::RemoveDir { path: staging, failure })
}

fn unpack_check(fs: &FsSnapshot, archive: &str, target: String) -> (r: (UnpackStage, UnpackAction))
    ensures
        (unpack_stage_view(r.0), unpack_action_view(r.1)) == spec_unpack_check(fs@, archive@, target@),
{
    let tv = chars_of(target.as_str());
    if fs.path_exists(&tv) {
        match ready_sdk_root(fs, target.as_str()) {
            Some(root) => (UnpackStage::Start, UnpackAction::Finish { result: Ok(root) }),
            None => {
                let failure = string_of(&concat(&chars_of("Failed to remove incomplete SDK cache "), &tv));
                let path = owned(target.as_str());
                (UnpackStage::RemovingIncomplete { target }, UnpackAction::RemoveDir { path, failure })
            },
        }
    } else {
        unpack_begin(fs, archive, target)
    }
}

/// One step of unpacking an SDK archive (see `spec_unpack_step`). The caller
/// starts at `UnpackStage::Start`, performs each `RemoveDir`, `Unzip` and
/// `Move` and hands back how it went, until `Finish`.
pub fn unpack_step(
    fs: &FsSnapshot,
    ctx: &SdkContext,
    version: &str,
    archive: &str,
    refresh: bool,
    stage: UnpackStage,
    outcome: Result<(), String>,
) -> (r: (UnpackStage, UnpackAction))
    ensures
        (unpack_stage_view(r.0), unpack_action_view(r.1)) == spec_unpack_step(
            fs@,
            *ctx,
            version@,
            archive@,
            refresh,
            unpack_stage_view(stage),
            unit_view(outcome),
        ),
{
    match stage {
        UnpackStage::Start => match require_file(fs, archive) {
            Err(e) => (UnpackStage::Start, UnpackAction::Finish { result: Err(e) }),
            Ok(_) => {
                let target = sdk_cache_root(fs, ctx, version);
                let tv = chars_of(target.as_str());
                if refresh && fs.path_exists(&tv) {
                    let failure = string_of(&concat(&chars_of("Failed to remove "), &tv));
                    let path = owned(target.as_str());
                    (UnpackStage::Refreshing { target }, UnpackAction::RemoveDir { path, failure })
                } else {
                    unpack_check(fs, archive, target)
                }
            },
        },
        UnpackStage::Refreshing { target } => match outcome {
            Err(e) => (UnpackStage::Start, UnpackAction::Finish { result: Err(e) }),
            Ok(_) => unpack_check(fs, archive, target),
        },
        UnpackStage::RemovingIncomplete { target } => match outcome {
            Err(e) => (UnpackStage::Start, UnpackAction::Finish { result: Err(e) }),
            Ok(_) => {
                let tv = chars_of(target.as_str());
                if fs.path_exists(&tv) {
                    (
                        UnpackStage::Start,
                        UnpackAction::Finish { result: extracted_sdk_root(fs, target.as_str()) },
                    )
                } else {
                    unpack_begin(fs, archive, target)
                }
            },
        },
        UnpackStage::ClearingStaging { target } => match outcome {
            Err(e) => (UnpackStage::Start, UnpackAction::Finish { result: Err(e) }),
            Ok(_) => {
                let staging = staging_root(target.as_str());
                (UnpackStage::Unzipping { target }, UnpackAction::Unzip { archive: owned(archive), target: staging })
            },
        },
        UnpackStage::Unzipping { target } => match outcome {
            Err(e) => unpack_discard(target, e),
            Ok(_) => {
                let staging = staging_root(target.as_str());
                match extracted_sdk_root(fs, staging.as_str()) {
                    Ok(root) => {
                        let sv = chars_of(staging.as_str());
                        let m = concat(&concat(&chars_of("Failed to move "), &sv), &chars_of(" to "));
                        let failure = string_of(&concat(&m, &chars_of(target.as_str())));
                        let to = owned(target.as_str());
                        (
                            UnpackStage::Installing { target, root },
                            UnpackAction::Move { from: staging, to, failure },
                        )
                    },
                    Err(e) => unpack_discard(target, e),
                }
            },
        },
        UnpackStage::Installing { target, root } => match outcome {
            Err(e) => unpack_discard(target, e),
            Ok(_) => {
                let staging = staging_root(target.as_str());
                let moved = moved_path(root.as_str(), staging.as_str(), target.as_str());
                (UnpackStage::Start, UnpackAction::Finish { result: Ok(moved) })
            },
        },
        UnpackStage::Discarding { error, .. } => (
            UnpackStage::Start,
            UnpackAction::Finish { result: Err(error) },
        ),
    }
}

// ---------------------------------------------------------------------------
// Keeping a downloaded archive
// ---------------------------------------------------------------------------

/// Where fetching an SDK archive stands between two file operations.
pub enum FetchStage {
    Start,
    /// The folder of `archive` is being created.
    MakingFolder { archive: String },
    /// An unreadable `archive` is being removed.
    RemovingInvalid { archive: String },
    /// `archive` is being downloaded.
    Downloading { archive: String },
}

/// The next file operation of fetching.
pub enum FetchAction {
    /// Create the folder `path` and its parents; a failure is reported as
    /// `<failure>: <error>`.
    CreateDir { path: String, failure: String },
    /// Remove the file `path`; a failure is reported as `<failure>: <error>`.
    RemoveFile { path: String, failure: String },
    /// Download `url` into the file `target`.
    Download { url: String, target: String },
    /// Fetching is over: the archive's path, or the error.
    Finish { result: Result<String, String> },
}

pub enum FetchStageView {
    Start,
    MakingFolder { archive: Seq<char> },
    RemovingInvalid { archive: Seq<char> },
    Downloading { archive: Seq<char> },
}

pub enum FetchActionView {
    CreateDir { path: Seq<char>, failure: Seq<char> },
    RemoveFile { path: Seq<char>, failure: Seq<char> },
    Download { url: Seq<char>, target: Seq<char> },
    Finish { result: Result<Seq<char>, Seq<char>> },
}

pub open spec fn fetch_stage_view(s: FetchStage) -> FetchStageView {
    match s {
        FetchStage::Start => FetchStageView::Start,
        FetchStage::MakingFolder { archive } => FetchStageView::MakingFolder { archive: archive@ },
        FetchStage::RemovingInvalid { archive } => FetchStageView::RemovingInvalid {
            archive: archive@,
        },
        FetchStage::Downloading { archive } => FetchStageView::Downloading { archive: archive@ },
    }
}

pub open spec fn fetch_action_view(a: FetchAction) -> FetchActionView {
    match a {
        FetchAction::CreateDir { path, failure } => FetchActionView::CreateDir {
            path: path@,
            failure: failure@,
        },
        FetchAction::RemoveFile { path, failure } => FetchActionView::RemoveFile {
            path: path@,
            failure: failure@,
        },
        FetchAction::Download { url, target } => FetchActionView::Download {
            url: url@,
            target: target@,
        },
        FetchAction::Finish { result } => FetchActionView::Finish { result: srv(result) },
    }
}

/// With the archive's folder in place: a readable archive already there is
/// kept; an unreadable one is removed; otherwise it is downloaded.
pub open spec fn spec_fetch_check(fs: Seq<EntryView>, url: Seq<char>, archive: Seq<char>) -> (
    FetchStageView,
    FetchActionView,
) {
    if fs_is_file(fs, archive) {
        if fs_readable_zip(fs, archive) {
            (FetchStageView::Start, FetchActionView::Finish { result: Ok(archive) })
        } else {
            (
                FetchStageView::RemovingInvalid { archive },
                FetchActionView::RemoveFile {
                    path: archive,
                    failure: "Failed to remove invalid SDK archive "@ + archive,
                },
            )
        }
    } else {
        (FetchStageView::Downloading { archive }, FetchActionView::Download { url, target: archive })
    }
}

/// One step of fetching the archive of `version` from `url` into the
/// version's download folder: the folder is created, a readable archive
/// already there is kept, an unreadable one is replaced by the download.
/// `outcome` is how the last operation went; a failed operation ends
/// fetching with its error.
pub open spec fn spec_fetch_step(
    fs: Seq<EntryView>,
    ctx: SdkContext,
    version: Seq<char>,
    url: Seq<char>,
    stage: FetchStageView,
    outcome: Result<(), Seq<char>>,
) -> (FetchStageView, FetchActionView) {
    match stage {
        FetchStageView::Start => {
            let archive = spec_sdk_archive_path(fs, ctx, version);
            match parent(archive) {
                Some(folder) => (
                    FetchStageView::MakingFolder { archive },
                    FetchActionView::CreateDir { path: folder, failure: "Failed to create "@ + folder },
                ),
                None => spec_fetch_check(fs, url, archive),
            }
        },
        FetchStageView::MakingFolder { archive } => match outcome {
            Err(e) => (FetchStageView::Start, FetchActionView::Finish { result: Err(e) }),
            Ok(_) => spec_fetch_check(fs, url, archive),
        },
        FetchStageView::RemovingInvalid { archive } => match outcome {
            Err(e) => (FetchStageView::Start, FetchActionView::Finish { result: Err(e) }),
            Ok(_) => (
                FetchStageView::Downloading { archive },
                FetchActionView::Download { url, target: archive },
            ),
        },
        FetchStageView::Downloading { archive } => match outcome {
            Err(e) => (FetchStageView::Start, FetchActionView::Finish { result: Err(e) }),
            Ok(_) => (FetchStageView::Start, FetchActionView::Finish { result: Ok(archive) }),
        },
    }
}

fn fetch_check(fs: &FsSnapshot, url: &str, archive: String) -> (r: (FetchStage, FetchAction))
    ensures
        (fetch_stage_view(r.0), fetch_action_view(r.1)) == spec_fetch_check(fs@, url@, archive@),
{
    let av = chars_of(archive.as_str());
    if fs.is_file(&av) {
        if fs.readable_zip(&av) {
            (FetchStage::Start, FetchAction::Finish { result: Ok(archive) })
        } else {
            let failure = string_of(&concat(&chars_of("Failed to remove invalid SDK archive "), &av));
            let path = owned(archive.as_str());
            (FetchStage::RemovingInvalid { archive }, FetchAction::RemoveFile { path, failure })
        }
    } else {
        let target = owned(archive.as_str());
        (FetchStage::Downloading { archive }, FetchAction::Download { url: owned(url), target })
    }
}

/// One step of fetching an SDK archive (see `spec_fetch_step`). The caller
/// starts at `FetchStage::Start`, performs each operation and hands back
/// how it went, until `Finish`.
pub fn fetch_step(
    fs: &FsSnapshot,
    ctx: &SdkContext,
    version: &str,
    url: &str,
    stage: FetchStage,
    outcome: Result<(), String>,
) -> (r: (FetchStage, FetchAction))
    ensures
        (fetch_stage_view(r.0), fetch_action_view(r.1)) == spec_fetch_step(
            fs@,
            *ctx,
            version@,
            url@,
            fetch_stage_view(stage),
            unit_view(outcome),
        ),
{
    match stage {
        FetchStage::Start => {
            let archive = sdk_archive_path(fs, ctx, version);
            let av = chars_of(archive.as_str());
            match parent_of(&av) {
                Some(folder) => {
                    let failure = string_of(&concat(&chars_of("Failed to create "), &folder));
                    (
                        FetchStage::MakingFolder { archive },
                        FetchAction::CreateDir { path: string_of(&folder), failure },
                    )
                },
                None => fetch_check(fs, url, archive),
            }
        },
        FetchStage::MakingFolder { archive } => match outcome {
            Err(e) => (FetchStage::Start, FetchAction::Finish { result: Err(e) }),
            Ok(_) => fetch_check(fs, url, archive),
        },
        FetchStage::RemovingInvalid { archive } => match outcome {
            Err(e) => (FetchStage::Start, FetchAction::Finish { result: Err(e) }),
            Ok(_) => {
                let target = owned(archive.as_str());
                (FetchStage::Downloading { archive }, FetchAction::Download { url: owned(url), target })
            },
        },
        FetchStage::Downloading { archive } => match outcome {
            Err(e) => (FetchStage::Start, FetchAction::Finish { result: Err(e) }),
            Ok(_) => (FetchStage::Start, FetchAction::Finish { result: Ok(archive) }),
        },
    }
}

// ---------------------------------------------------------------------------
// Laws of the cache
// ---------------------------------------------------------------------------

/// Without a refresh, an SDK already unpacked in the cache folder is the
/// answer at once: nothing is removed or unpacked again.
pub proof fn law_unpack_keeps_ready_cache(
    fs: Seq<EntryView>,
    ctx: SdkContext,
    version: Seq<char>,
    archive: Seq<char>,
    outcome: Result<(), Seq<char>>,
)
    requires
        fs_is_file(fs, archive),
        fs_exists(fs, spec_sdk_cache_root(fs, ctx, version)),
        spec_ready_sdk_root(fs, spec_sdk_cache_root(fs, ctx, version)) is Some,
    ensures
        spec_unpack_step(fs, ctx, version, archive, false, UnpackStageView::Start, outcome) == (
            UnpackStageView::Start,
            UnpackActionView::Finish {
                result: Ok(spec_ready_sdk_root(fs, spec_sdk_cache_root(fs, ctx, version))->0),
            },
        ),
{
}

/// A run keeps the cache folder it started with: every stage after the
/// start carries the version's cache folder (as the start saw it), or the
/// folder the stage before it carried.
pub proof fn law_unpack_keeps_its_target(
    fs: Seq<EntryView>,
    ctx: SdkContext,
    version: Seq<char>,
    archive: Seq<char>,
    refresh: bool,
    stage: UnpackStageView,
    outcome: Result<(), Seq<char>>,
)
    ensures
        ({
            let next = spec_unpack_step(fs, ctx, version, archive, refresh, stage, outcome).0;
            next is Start || unpack_run_target(fs, ctx, version, next) == unpack_run_target(
                fs,
                ctx,
                version,
                stage,
            )
        }),
{
}

/// The cache folder is never unpacked into: every unpacking goes into the
/// staging folder beside it, which is another folder. The cache folder is
/// only ever filled by moving the staging folder there, and only once the
/// staging folder has been checked to hold an SDK.
pub proof fn law_unpack_fills_the_cache_only_with_a_checked_sdk(
    fs: Seq<EntryView>,
    ctx: SdkContext,
    version: Seq<char>,
    archive: Seq<char>,
    refresh: bool,
    stage: UnpackStageView,
    outcome: Result<(), Seq<char>>,
)
    ensures
        ({
            let target = unpack_run_target(fs, ctx, version, stage);
            let action = spec_unpack_step(fs, ctx, version, archive, refresh, stage, outcome).1;
            (action matches UnpackActionView::Unzip { target: t, .. } ==> t == spec_staging_root(
                target,
            ) && t != target) && (action matches UnpackActionView::Move { from, to, .. } ==> from
                == spec_staging_root(target) && to == target && spec_ready_sdk_root(fs, from) is Some
                && outcome is Ok)
        }),
{
    let target = unpack_run_target(fs, ctx, version, stage);
    reveal_strlit(".extracting");
    assert(spec_staging_root(target).len() == target.len() + 11);
}

/// Once unpacking has begun, no run ends in an error with the staging
/// folder left behind: a failed unpacking, a staging folder without an SDK
/// and a failed move all lead to removing the staging folder, and the run
/// then ends with that error whether the removal worked or not.
pub proof fn law_unpack_removes_a_failed_staging_folder(
    fs: Seq<EntryView>,
    ctx: SdkContext,
    version: Seq<char>,
    archive: Seq<char>,
    refresh: bool,
    stage: UnpackStageView,
    outcome: Result<(), Seq<char>>,
)
    ensures
        ({
            let (next, action) = spec_unpack_step(fs, ctx, version, archive, refresh, stage, outcome);
            let target = unpack_run_target(fs, ctx, version, stage);
            ((stage is Unzipping || stage is Installing) ==> !(action matches UnpackActionView::Finish {
                result: Err(_),
            }) && ((action is RemoveDir) ==> (action == UnpackActionView::RemoveDir {
                path: spec_staging_root(target),
                failure: "Failed to remove "@ + spec_staging_root(target),
            } && next is Discarding)))
            && (stage matches UnpackStageView::Discarding { error, .. } ==> action
                == UnpackActionView::Finish { result: Err(error) })
        }),
{
}

/// What is moved into the cache folder was checked: after a successful
/// unpacking, the SDK that the move carries is an SDK folder of the staging
/// folder, the staging folder itself or one at most three levels below it.
pub proof fn law_unpack_moves_a_checked_sdk(
    fs: Seq<EntryView>,
    ctx: SdkContext,
    version: Seq<char>,
    archive: Seq<char>,
    refresh: bool,
    target: Seq<char>,
)
    ensures
        ({
            let staging = spec_staging_root(target);
            let next = spec_unpack_step(
                fs,
                ctx,
                version,
                archive,
                refresh,
                UnpackStageView::Unzipping { target },
                Ok(()),
            ).0;
            next matches UnpackStageView::Installing { target: t, root } ==> t == target
                && super::spec_is_sdk_root(fs, root) && (root == staging || in_walk(
                staging,
                root,
                0,
                3,
            ))
        }),
{
    super::lemma_ready_sdk_root(fs, spec_staging_root(target));
}

/// The answer of a run that moved its staging folder into place lies in
/// the cache folder, as far below it as the SDK lay below the staging
/// folder when it was checked.
pub proof fn law_unpack_answer_lies_in_the_cache(
    fs: Seq<EntryView>,
    ctx: SdkContext,
    version: Seq<char>,
    archive: Seq<char>,
    refresh: bool,
    target: Seq<char>,
    root: Seq<char>,
)
    requires
        target.len() > 0,
        relative(spec_staging_root(target), root) is Some,
    ensures
        ({
            let action = spec_unpack_step(
                fs,
                ctx,
                version,
                archive,
                refresh,
                UnpackStageView::Installing { target, root },
                Ok(()),
            ).1;
            action matches UnpackActionView::Finish { result: Ok(p) } && relative(target, p)
                == relative(spec_staging_root(target), root) && crate::fs::depth_of(target, p)
                == crate::fs::depth_of(spec_staging_root(target), root)
        }),
{
    let staging = spec_staging_root(target);
    let rel = relative(staging, root)->0;
    let p = spec_moved_path(root, staging, target);
    if rel.len() > 0 {
        let prefix = path_join(target, Seq::<char>::empty());
        assert(p == prefix + rel) by {
            if target.last() == '/' {
                assert(prefix =~= target);
            } else {
                assert(prefix =~= target + seq!['/']);
                assert(p =~= prefix + rel);
            }
        }
        assert(prefix.is_prefix_of(p)) by {
            assert(p.take(prefix.len() as int) =~= prefix);
        }
        assert(p.skip(prefix.len() as int) =~= rel);
        assert(p != target) by {
            assert(p.len() > target.len());
        }
    }
}

/// A readable archive already in the download folder is kept: once the
/// folder is in place, fetching ends with it and downloads nothing.
pub proof fn law_fetch_keeps_readable_archive(
    fs: Seq<EntryView>,
    ctx: SdkContext,
    version: Seq<char>,
    url: Seq<char>,
    archive: Seq<char>,
)
    requires
        fs_is_file(fs, archive),
        fs_readable_zip(fs, archive),
    ensures
        spec_fetch_step(fs, ctx, version, url, FetchStageView::MakingFolder { archive }, Ok(())) == (
            FetchStageView::Start,
            FetchActionView::Finish { result: Ok(archive) },
        ),
{
}

} // verus!
