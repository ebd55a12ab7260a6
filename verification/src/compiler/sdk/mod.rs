//! Cinema 4D C++ SDK discovery: configured roots and archives, installed
//! Cinema 4D copies, the cache and the official downloads.

pub mod cache;
pub mod config;
pub mod installed;
pub mod versioning;

use vstd::prelude::*;

use self::config::{
    configured_sdk_root, default_sdk_root, loaded_view, spec_configured_sdk_root,
    spec_default_sdk_root, spec_validate_no_spaces, validate_no_spaces, SDK_ROOT_FOLDER,
};
use self::installed::{installed_sdk_zip_path, spec_installed_sdk_zip_path};
use self::versioning::{
    generated_download_url_if_known, path_matches_sdk_version, sdk_archive_name,
    spec_generated_download_url_if_known, spec_path_matches_sdk_version, spec_sdk_archive_name,
    spec_version_folder, version_folder,
};
use crate::compiler::env::{
    requirements_view, setup_requirements, spec_setup_requirements, RequirementView, ToolSet,
};
use crate::compiler::{
    osv, parse_version_list, require_file, spec_parse_version_list, spec_require_file, sviews,
};
use crate::json::{
    get, get_member, json_document, json_view, json_views, lemma_json_views, parse_json, JsonValue,
    JsonView,
};
use crate::fs::{
    fs_is_dir, fs_is_file, fs_readable_zip, in_walk, EntryKind, EntryView, FsSnapshot,
    first_where, walk_visits,
};
use crate::paths::{
    extension, extension_of, file_name, file_name_of, join_str, parent, parent_of, path_join,
};
use self::versioning::{sort_key, version_sort_key, version_sort_key_fits};
use crate::text::{
    chars_of, concat, dec, eq_ignore_ascii_case, sort_dedup, sort_dedup_vec, string_of, trim,
    vviews,
};
use crate::types::{
    copy_opt, ov, BuildRequest, SdkAutoConfigReport, SdkSourceOverride, InstalledC4dVersion, SdkResolution, SdkResolutionSource,
    SdkRootConfig, SdkSetupReport, SdkSourceConfig, SdkVersionOption, SetupRequirementStatus,
};
use crate::utils::platform::HostOs;

verus! {

/// The site the official SDK archives are downloaded from.
pub const MAXON_BASE_URL: &'static str = "https://developers.maxon.net";

/// The oldest SDK version the compiler supports.
pub const DEFAULT_MIN_SDK_VERSION: &'static str = "2024.4";

/// What SDK discovery needs to know besides the file system: the platform,
/// the documents folder and the stored configuration as loading it gave it.
pub struct SdkContext {
    pub os: HostOs,
    pub documents_dir: Option<String>,
    pub stored_config: Result<SdkSourceConfig, String>,
}

/// The configured SDK root of a context.
pub open spec fn ctx_root(ctx: SdkContext) -> Seq<char> {
    spec_configured_sdk_root(loaded_view(ctx.stored_config), ov(ctx.documents_dir))
}

// ---------------------------------------------------------------------------
// SDK layouts
// ---------------------------------------------------------------------------

/// A CMake SDK (2025 and newer): `CMakeLists.txt`, `CMakePresets.json`,
/// `cmake/`, `frameworks/` and `plugins/`.
pub open spec fn spec_is_cmake_sdk_root(fs: Seq<EntryView>, p: Seq<char>) -> bool {
    &&& fs_is_file(fs, path_join(p, "CMakeLists.txt"@))
    &&& fs_is_file(fs, path_join(p, "CMakePresets.json"@))
    &&& fs_is_dir(fs, path_join(p, "cmake"@))
    &&& fs_is_dir(fs, path_join(p, "frameworks"@))
    &&& fs_is_dir(fs, path_join(p, "plugins"@))
}

/// A project-tool SDK (2024): `frameworks/`, `plugins/`,
/// `tools/projecttool/` and a solution generator script.
pub open spec fn spec_is_legacy_sdk_root(fs: Seq<EntryView>, p: Seq<char>) -> bool {
    &&& fs_is_dir(fs, path_join(p, "frameworks"@))
    &&& fs_is_dir(fs, path_join(p, "plugins"@))
    &&& fs_is_dir(fs, path_join(path_join(p, "tools"@), "projecttool"@))
    &&& (fs_is_file(fs, path_join(p, "generate_solution_osx.command"@)) || fs_is_file(
        fs,
        path_join(p, "generate_solution_win.bat"@),
    ))
}

/// Either SDK layout.
pub open spec fn spec_is_sdk_root(fs: Seq<EntryView>, p: Seq<char>) -> bool {
    spec_is_cmake_sdk_root(fs, p) || spec_is_legacy_sdk_root(fs, p)
}

fn is_file_at(fs: &FsSnapshot, p: &Vec<char>, name: &str) -> (r: bool)
    ensures
        r == fs_is_file(fs@, path_join(p@, name@)),
{
    fs.is_file(&join_str(p, name))
}

fn is_dir_at(fs: &FsSnapshot, p: &Vec<char>, name: &str) -> (r: bool)
    ensures
        r == fs_is_dir(fs@, path_join(p@, name@)),
{
    fs.is_dir(&join_str(p, name))
}

fn cmake_root(fs: &FsSnapshot, p: &Vec<char>) -> (r: bool)
    ensures
        r == spec_is_cmake_sdk_root(fs@, p@),
{
    is_file_at(fs, p, "CMakeLists.txt") && is_file_at(fs, p, "CMakePresets.json") && is_dir_at(
        fs,
        p,
        "cmake",
    ) && is_dir_at(fs, p, "frameworks") && is_dir_at(fs, p, "plugins")
}

fn legacy_root(fs: &FsSnapshot, p: &Vec<char>) -> (r: bool)
    ensures
        r == spec_is_legacy_sdk_root(fs@, p@),
{
    let tools = join_str(p, "tools");
    is_dir_at(fs, p, "frameworks") && is_dir_at(fs, p, "plugins") && is_dir_at(
        fs,
        &tools,
        "projecttool",
    ) && (is_file_at(fs, p, "generate_solution_osx.command") || is_file_at(
        fs,
        p,
        "generate_solution_win.bat",
    ))
}

fn sdk_root_at(fs: &FsSnapshot, p: &Vec<char>) -> (r: bool)
    ensures
        r == spec_is_sdk_root(fs@, p@),
{
    cmake_root(fs, p) || legacy_root(fs, p)
}

/// Whether `path` holds a CMake SDK.
pub fn is_cmake_sdk_root(fs: &FsSnapshot, path: &str) -> (r: bool)
    ensures
        r == spec_is_cmake_sdk_root(fs@, path@),
{
    cmake_root(fs, &chars_of(path))
}

/// Whether `path` holds a project-tool SDK.
pub fn is_legacy_sdk_root(fs: &FsSnapshot, path: &str) -> (r: bool)
    ensures
        r == spec_is_legacy_sdk_root(fs@, path@),
{
    legacy_root(fs, &chars_of(path))
}

// ---------------------------------------------------------------------------
// Paths
// ---------------------------------------------------------------------------

/// The folder that holds the per-version SDK folders: the configured root,
/// or its parent when the root itself is an SDK.
pub open spec fn spec_collection_root(fs: Seq<EntryView>, root: Seq<char>) -> Seq<char> {
    if spec_is_sdk_root(fs, root) {
        match parent(root) {
            Some(p) => p,
            None => root,
        }
    } else {
        root
    }
}

/// The folder holding the per-version SDK folders (see
/// `spec_collection_root`).
pub fn configured_sdk_collection_root(fs: &FsSnapshot, ctx: &SdkContext) -> (r: String)
    ensures
        r@ == spec_collection_root(fs@, ctx_root(*ctx)),
{
    let root = configured_sdk_root(&ctx.stored_config, opt_str(&ctx.documents_dir));
    let rv = chars_of(root.as_str());
    if sdk_root_at(fs, &rv) {
        match parent_of(&rv) {
            Some(p) => string_of(&p),
            None => root,
        }
    } else {
        root
    }
}

/// The borrowed form of an optional string.
pub fn opt_str(o: &Option<String>) -> (r: Option<&str>)
    ensures
        osv(r) == ov(*o),
{
    match o {
        Some(s) => Some(s.as_str()),
        None => None,
    }
}

/// `<collection>/<version folder>/sdk`: the cache folder an extracted SDK
/// is moved into.
pub open spec fn spec_sdk_cache_root(fs: Seq<EntryView>, ctx: SdkContext, version: Seq<char>) -> Seq<
    char,
> {
    path_join(
        path_join(spec_collection_root(fs, ctx_root(ctx)), spec_version_folder(version)),
        "sdk"@,
    )
}

pub fn sdk_cache_root(fs: &FsSnapshot, ctx: &SdkContext, version: &str) -> (r: String)
    ensures
        r@ == spec_sdk_cache_root(fs@, *ctx, version@),
{
    let c = configured_sdk_collection_root(fs, ctx);
    let cv = chars_of(c.as_str());
    let f = version_folder(version);
    let a = crate::paths::join(&cv, &chars_of(f.as_str()));
    string_of(&join_str(&a, "sdk"))
}

/// `<collection>/<version folder>/downloads/<archive>`: where a download
/// is kept.
pub open spec fn spec_sdk_archive_path(fs: Seq<EntryView>, ctx: SdkContext, version: Seq<char>) -> Seq<
    char,
> {
    path_join(
        path_join(
            path_join(spec_collection_root(fs, ctx_root(ctx)), spec_version_folder(version)),
            "downloads"@,
        ),
        spec_sdk_archive_name(version),
    )
}

pub fn sdk_archive_path(fs: &FsSnapshot, ctx: &SdkContext, version: &str) -> (r: String)
    ensures
        r@ == spec_sdk_archive_path(fs@, *ctx, version@),
{
    let c = configured_sdk_collection_root(fs, ctx);
    let cv = chars_of(c.as_str());
    let f = version_folder(version);
    let a = crate::paths::join(&cv, &chars_of(f.as_str()));
    let b = join_str(&a, "downloads");
    let n = sdk_archive_name(version);
    string_of(&crate::paths::join(&b, &chars_of(n.as_str())))
}

// ---------------------------------------------------------------------------
// Finding configured SDKs and archives
// ---------------------------------------------------------------------------

/// An SDK folder of `version` within five levels below `root`.
pub open spec fn sdk_dir_test(fs: Seq<EntryView>, root: Seq<char>, version: Seq<char>) -> spec_fn(
    EntryView,
) -> bool {
    |e: EntryView|
        in_walk(root, e.0, 0, 5) && e.1 == EntryKind::Dir && spec_is_sdk_root(fs, e.0)
            && spec_path_matches_sdk_version(e.0, version)
}

/// The SDK of `version` under the configured root: the root itself when it
/// is an SDK (and names the version), else the first SDK folder of the
/// version a walk of five levels meets.
pub open spec fn spec_find_configured_sdk_root(
    fs: Seq<EntryView>,
    root: Seq<char>,
    version: Seq<char>,
) -> Option<Seq<char>> {
    if !fs_is_dir(fs, root) {
        None
    } else if spec_is_sdk_root(fs, root) {
        if spec_path_matches_sdk_version(root, version) {
            Some(root)
        } else {
            None
        }
    } else {
        match first_where(fs, sdk_dir_test(fs, root, version)) {
            Some(e) => Some(e.0),
            None => None,
        }
    }
}

pub fn find_configured_sdk_root(fs: &FsSnapshot, configured_root: &str, version: &str) -> (r:
    Option<String>)
    ensures
        ov(r) == spec_find_configured_sdk_root(fs@, configured_root@, version@),
{
    let root = chars_of(configured_root);
    if !fs.is_dir(&root) {
        return None;
    }
    if sdk_root_at(fs, &root) {
        if path_matches_sdk_version(configured_root, version) {
            return Some(crate::text::owned(configured_root));
        }
        return None;
    }
    let ghost f = sdk_dir_test(fs@, root@, version@);
    let mut i: usize = 0;
    proof {
        crate::fs::lemma_first_where_start(fs@, f);
    }
    while i < fs.entries.len()
        invariant
            i <= fs@.len(),
            fs@.len() == fs.entries@.len(),
            f == sdk_dir_test(fs@, root@, version@),
            root@ == configured_root@,
            fs_is_dir(fs@, root@),
            !spec_is_sdk_root(fs@, root@),
            first_where(fs@, f) == first_where(fs@.skip(i as int), f),
        decreases fs.entries.len() - i,
    {
        let p = fs.path_at(i);
        let e = &fs.entries[i];
        assert(fs@[i as int] == e@);
        let ps = string_of(&p);
        let hit = walk_visits(&root, &p, 0, 5) && e.kind == EntryKind::Dir && sdk_root_at(fs, &p)
            && path_matches_sdk_version(ps.as_str(), version);
        assert(hit == f(fs@[i as int]));
        if hit {
            proof {
                crate::fs::lemma_first_where_hit(fs@, f, i as int);
            }
            return Some(ps);
        }
        proof {
            crate::fs::lemma_first_where_step(fs@, f, i as int);
        }
        i += 1;
    }
    proof {
        crate::fs::lemma_first_where_end(fs@, f);
    }
    None
}

/// An archive of `version` within five levels below `root`: a file named as
/// the version's archive, or a `.zip` (any case) whose path names the
/// version.
pub open spec fn sdk_archive_test(root: Seq<char>, version: Seq<char>) -> spec_fn(EntryView) -> bool {
    |e: EntryView|
        in_walk(root, e.0, 0, 5) && e.1 == EntryKind::File && (file_name(e.0) == Some(
            spec_sdk_archive_name(version),
        ) || (spec_path_matches_sdk_version(e.0, version) && zip_extension(e.0)))
}

/// The path's extension is `zip` in any letter case.
pub open spec fn zip_extension(p: Seq<char>) -> bool {
    match extension(p) {
        Some(x) => eq_ignore_ascii_case(x, "zip"@),
        None => false,
    }
}

/// The first archive of `version` a walk of the configured root meets.
pub open spec fn spec_find_configured_sdk_archive(
    fs: Seq<EntryView>,
    root: Seq<char>,
    version: Seq<char>,
) -> Option<Seq<char>> {
    if !fs_is_dir(fs, root) {
        None
    } else {
        match first_where(fs, sdk_archive_test(root, version)) {
            Some(e) => Some(e.0),
            None => None,
        }
    }
}

pub fn find_configured_sdk_archive(fs: &FsSnapshot, configured_root: &str, version: &str) -> (r:
    Option<String>)
    ensures
        ov(r) == spec_find_configured_sdk_archive(fs@, configured_root@, version@),
{
    let root = chars_of(configured_root);
    if !fs.is_dir(&root) {
        return None;
    }
    let expected = sdk_archive_name(version);
    let ev = chars_of(expected.as_str());
    let zip = chars_of("zip");
    let ghost f = sdk_archive_test(root@, version@);
    let mut i: usize = 0;
    proof {
        crate::fs::lemma_first_where_start(fs@, f);
    }
    while i < fs.entries.len()
        invariant
            i <= fs@.len(),
            fs@.len() == fs.entries@.len(),
            ev@ == spec_sdk_archive_name(version@),
            zip@ == "zip"@,
            f == sdk_archive_test(root@, version@),
            root@ == configured_root@,
            fs_is_dir(fs@, root@),
            first_where(fs@, f) == first_where(fs@.skip(i as int), f),
        decreases fs.entries.len() - i,
    {
        let p = fs.path_at(i);
        let e = &fs.entries[i];
        assert(fs@[i as int] == e@);
        let ps = string_of(&p);
        let named = match file_name_of(&p) {
            Some(n) => crate::text::chars_eq(&n, &ev),
            None => false,
        };
        let zipped = match extension_of(&p) {
            Some(x) => crate::text::chars_eq_ignore_ascii_case(&x, &zip),
            None => false,
        };
        let hit = walk_visits(&root, &p, 0, 5) && e.kind == EntryKind::File && (named || (
        path_matches_sdk_version(ps.as_str(), version) && zipped));
        assert(hit == f(fs@[i as int]));
        if hit {
            proof {
                crate::fs::lemma_first_where_hit(fs@, f, i as int);
            }
            return Some(ps);
        }
        proof {
            crate::fs::lemma_first_where_step(fs@, f, i as int);
        }
        i += 1;
    }
    proof {
        crate::fs::lemma_first_where_end(fs@, f);
    }
    None
}

// ---------------------------------------------------------------------------
// Resolution
// ---------------------------------------------------------------------------

/// The view of a resolution: version, source, SDK root, archive, download
/// address and status.
pub type ResolutionView = (
    Seq<char>,
    SdkResolutionSource,
    Option<Seq<char>>,
    Option<Seq<char>>,
    Option<Seq<char>>,
    Seq<char>,
);

pub open spec fn resolution_view(r: SdkResolution) -> ResolutionView {
    (r.version@, r.source, ov(r.sdk_root), ov(r.archive_path), ov(r.download_url), r.status@)
}

/// How `version` resolves: a configured SDK folder; else a configured
/// archive (an unreadable one sends the build to the official download);
/// else the cache (unless refreshing); else the official download of a
/// known release; else, as a last fallback, the installed Cinema 4D's
/// `sdk.zip` (an unreadable one is reported); else nothing.
pub open spec fn spec_resolve_sdk_version(
    fs: Seq<EntryView>,
    ctx: SdkContext,
    version: Seq<char>,
    refresh: bool,
) -> ResolutionView {
    let root = ctx_root(ctx);
    let url = spec_generated_download_url_if_known(version);
    match spec_find_configured_sdk_root(fs, root, version) {
        Some(sdk_root) => (
            version,
            SdkResolutionSource::Config,
            Some(sdk_root),
            None,
            url,
            "configured root"@,
        ),
        None => match spec_find_configured_sdk_archive(fs, root, version) {
            Some(archive) => if fs_readable_zip(fs, archive) {
                (
                    version,
                    SdkResolutionSource::Config,
                    None,
                    Some(archive),
                    url,
                    "configured archive"@,
                )
            } else {
                (
                    version,
                    SdkResolutionSource::OfficialDownload,
                    None,
                    None,
                    url,
                    "invalid configured archive: "@ + archive,
                )
            },
            None => {
                let cache = spec_sdk_cache_root(fs, ctx, version);
                let zip = spec_installed_sdk_zip_path(ctx.os, version);
                if fs_is_dir(fs, cache) && !refresh && spec_is_cmake_sdk_root(fs, cache) {
                    (
                        version,
                        SdkResolutionSource::Cache,
                        Some(cache),
                        None,
                        url,
                        "cached root"@,
                    )
                } else if url is Some {
                    (
                        version,
                        SdkResolutionSource::OfficialDownload,
                        None,
                        None,
                        url,
                        "auto download"@,
                    )
                } else if fs_is_file(fs, zip) {
                    if fs_readable_zip(fs, zip) {
                        (
                            version,
                            SdkResolutionSource::InstalledZip,
                            None,
                            Some(zip),
                            url,
                            "installed sdk.zip"@,
                        )
                    } else {
                        (
                            version,
                            SdkResolutionSource::OfficialDownload,
                            None,
                            None,
                            url,
                            "invalid installed sdk.zip: "@ + zip,
                        )
                    }
                } else {
                    (
                        version,
                        SdkResolutionSource::OfficialDownload,
                        None,
                        None,
                        url,
                        "no SDK source found"@,
                    )
                }
            },
        },
    }
}

fn resolution(
    version: &str,
    source: SdkResolutionSource,
    sdk_root: Option<String>,
    archive_path: Option<String>,
    status: Vec<char>,
) -> (r: SdkResolution)
    ensures
        resolution_view(r) == (
            version@,
            source,
            ov(sdk_root),
            ov(archive_path),
            spec_generated_download_url_if_known(version@),
            status@,
        ),
{
    SdkResolution {
        version: crate::text::owned(version),
        source,
        sdk_root,
        archive_path,
        download_url: generated_download_url_if_known(version),
        status: string_of(&status),
    }
}

/// How one SDK version resolves (see `spec_resolve_sdk_version`).
pub fn resolve_sdk_version(fs: &FsSnapshot, ctx: &SdkContext, version: &str, refresh: bool) -> (r:
    SdkResolution)
    ensures
        resolution_view(r) == spec_resolve_sdk_version(fs@, *ctx, version@, refresh),
{
    let root = configured_sdk_root(&ctx.stored_config, opt_str(&ctx.documents_dir));
    if let Some(sdk_root) = find_configured_sdk_root(fs, root.as_str(), version) {
        return resolution(
            version,
            SdkResolutionSource::Config,
            Some(sdk_root),
            None,
            chars_of("configured root"),
        );
    }
    if let Some(archive) = find_configured_sdk_archive(fs, root.as_str(), version) {
        let av = chars_of(archive.as_str());
        if fs.readable_zip(&av) {
            return resolution(
                version,
                SdkResolutionSource::Config,
                None,
                Some(archive),
                chars_of("configured archive"),
            );
        }
        let m = chars_of("invalid configured archive: ");
        return resolution(
            version,
            SdkResolutionSource::OfficialDownload,
            None,
            None,
            concat(&m, &av),
        );
    }
    let cache = sdk_cache_root(fs, ctx, version);
    let cv = chars_of(cache.as_str());
    if fs.is_dir(&cv) && !refresh && cmake_root(fs, &cv) {
        return resolution(
            version,
            SdkResolutionSource::Cache,
            Some(cache),
            None,
            chars_of("cached root"),
        );
    }
    if generated_download_url_if_known(version).is_some() {
        return resolution(
            version,
            SdkResolutionSource::OfficialDownload,
            None,
            None,
            chars_of("auto download"),
        );
    }
    let zip = installed_sdk_zip_path(ctx.os, version);
    let zv = chars_of(zip.as_str());
    if fs.is_file(&zv) {
        if fs.readable_zip(&zv) {
            return resolution(
                version,
                SdkResolutionSource::InstalledZip,
                None,
                Some(zip),
                chars_of("installed sdk.zip"),
            );
        }
        let m = chars_of("invalid installed sdk.zip: ");
        return resolution(
            version,
            SdkResolutionSource::OfficialDownload,
            None,
            None,
            concat(&m, &zv),
        );
    }
    resolution(
        version,
        SdkResolutionSource::OfficialDownload,
        None,
        None,
        chars_of("no SDK source found"),
    )
}

/// The first official download candidate of `version`.
pub fn find_official_cpp_sdk_url(version: &str) -> (r: Option<String>)
    ensures
        ov(r) == spec_generated_download_url_if_known(version@),
{
    let mut c = versioning::sdk_download_candidates(version);
    assert(sviews(c@).len() == c@.len());
    if c.len() > 0 {
        assert(sviews(c@)[0] == c@[0]@);
        Some(c.remove(0))
    } else {
        None
    }
}

// ---------------------------------------------------------------------------
// The SDK matrix
// ---------------------------------------------------------------------------

/// The view of a matrix row: version, label, configured, SDK root, archive,
/// download address and status.
pub type VersionOptionView = (
    Seq<char>,
    Seq<char>,
    bool,
    Option<Seq<char>>,
    Option<Seq<char>>,
    Option<Seq<char>>,
    Seq<char>,
);

pub open spec fn option_view(o: SdkVersionOption) -> VersionOptionView {
    (o.version@, o.label@, o.configured, ov(o.sdk_root), ov(o.sdk_zip), ov(o.download_url), o.status@)
}

/// The matrix row of `version` for a configuration whose SDK root is
/// `config_root`; the cache folder follows the stored configuration `ctx`.
pub open spec fn spec_sdk_version_option(
    fs: Seq<EntryView>,
    ctx: SdkContext,
    version: Seq<char>,
    config_root: Option<Seq<char>>,
) -> VersionOptionView {
    let root = match config_root {
        Some(r) => r,
        None => spec_default_sdk_root(ov(ctx.documents_dir)),
    };
    let url = spec_generated_download_url_if_known(version);
    let label = "Cinema 4D "@ + version;
    let configured = config_root is Some;
    let zip = spec_installed_sdk_zip_path(ctx.os, version);
    let cached = spec_sdk_cache_root(fs, ctx, version);
    match spec_find_configured_sdk_root(fs, root, version) {
        Some(sdk_root) => (version, label, configured, Some(sdk_root), None, url, "configured root"@),
        None => match spec_find_configured_sdk_archive(fs, root, version) {
            Some(archive) => if !fs_readable_zip(fs, archive) {
                (
                    version,
                    label,
                    configured,
                    None,
                    None,
                    url,
                    "invalid configured archive: "@ + archive,
                )
            } else {
                (version, label, configured, None, Some(archive), url, "configured archive"@)
            },
            None => if spec_is_sdk_root(fs, cached) {
                (version, label, configured, Some(cached), None, url, "cached root"@)
            } else if url is Some {
                (version, label, configured, None, None, url, "auto download"@)
            } else if fs_is_file(fs, zip) {
                if !fs_readable_zip(fs, zip) {
                    (version, label, configured, None, None, url, "invalid installed sdk.zip: "@ + zip)
                } else {
                    (version, label, configured, None, Some(zip), url, "installed sdk.zip"@)
                }
            } else {
                (version, label, configured, None, None, url, "no SDK source found"@)
            },
        },
    }
}

fn option(
    version: &str,
    configured: bool,
    sdk_root: Option<String>,
    sdk_zip: Option<String>,
    status: Vec<char>,
) -> (r: SdkVersionOption)
    ensures
        option_view(r) == (
            version@,
            "Cinema 4D "@ + version@,
            configured,
            ov(sdk_root),
            ov(sdk_zip),
            spec_generated_download_url_if_known(version@),
            status@,
        ),
{
    let l = chars_of("Cinema 4D ");
    let v = chars_of(version);
    SdkVersionOption {
        version: crate::text::owned(version),
        label: string_of(&concat(&l, &v)),
        configured,
        sdk_root,
        sdk_zip,
        download_url: generated_download_url_if_known(version),
        status: string_of(&status),
    }
}

/// One row of the SDK matrix (see `spec_sdk_version_option`).
pub fn sdk_version_option(
    fs: &FsSnapshot,
    ctx: &SdkContext,
    version: &str,
    config: &SdkSourceConfig,
) -> (r: SdkVersionOption)
    ensures
        option_view(r) == spec_sdk_version_option(fs@, *ctx, version@, ov(config.sdk_root)),
{
    let root = match &config.sdk_root {
        Some(r) => r.clone(),
        None => default_sdk_root(opt_str(&ctx.documents_dir)),
    };
    let configured = config.sdk_root.is_some();
    if let Some(sdk_root) = find_configured_sdk_root(fs, root.as_str(), version) {
        return option(version, configured, Some(sdk_root), None, chars_of("configured root"));
    }
    if let Some(archive) = find_configured_sdk_archive(fs, root.as_str(), version) {
        let av = chars_of(archive.as_str());
        if !fs.readable_zip(&av) {
            let m = chars_of("invalid configured archive: ");
            return option(version, configured, None, None, concat(&m, &av));
        }
        return option(version, configured, None, Some(archive), chars_of("configured archive"));
    }
    let cached = sdk_cache_root(fs, ctx, version);
    let cv = chars_of(cached.as_str());
    if sdk_root_at(fs, &cv) {
        return option(version, configured, Some(cached), None, chars_of("cached root"));
    }
    if generated_download_url_if_known(version).is_some() {
        return option(version, configured, None, None, chars_of("auto download"));
    }
    let zip = installed_sdk_zip_path(ctx.os, version);
    let zv = chars_of(zip.as_str());
    if fs.is_file(&zv) {
        if !fs.readable_zip(&zv) {
            let m = chars_of("invalid installed sdk.zip: ");
            return option(version, configured, None, None, concat(&m, &zv));
        }
        return option(version, configured, None, Some(zip), chars_of("installed sdk.zip"));
    }
    option(version, configured, None, None, chars_of("no SDK source found"))
}

// ---------------------------------------------------------------------------
// The SDK matrix
// ---------------------------------------------------------------------------

/// The SDK versions the compiler knows how to fetch.
pub open spec fn known_sdk_versions() -> Seq<Seq<char>> {
    seq!["2024.4"@, "2025"@, "2026"@]
}

/// The SDK versions the matrix always shows, oldest first.
pub fn known_sdk_version_list() -> (r: Vec<Vec<char>>)
    ensures
        vviews(r@) == known_sdk_versions(),
{
    let mut all: Vec<Vec<char>> = Vec::new();
    all.push(chars_of("2024.4"));
    all.push(chars_of("2025"));
    all.push(chars_of("2026"));
    proof {
        reveal_strlit("2024.4");
        reveal_strlit("2025");
        reveal_strlit("2026");
        assert(vviews(all@) =~= known_sdk_versions());
    }
    all
}

/// The SDK versions that installed Cinema 4D copies call for.
pub open spec fn installed_sdk_versions(s: Seq<InstalledC4dVersion>) -> Seq<Seq<char>> {
    s.map_values(|x: InstalledC4dVersion| x.sdk_version@)
}

/// A version at or above the oldest supported SDK.
pub open spec fn supported_version(v: Seq<char>) -> bool {
    sort_key(v) >= sort_key(DEFAULT_MIN_SDK_VERSION@)
}

/// The versions of the SDK matrix: the known and the installed ones, without
/// repeats, in ascending text order, keeping those that are supported.
pub open spec fn spec_available_versions(installed: Seq<InstalledC4dVersion>) -> Seq<Seq<char>> {
    sort_dedup(known_sdk_versions() + installed_sdk_versions(installed)).filter(
        |v: Seq<char>| supported_version(v),
    )
}

/// The SDK root of the configuration the matrix is built from: the stored
/// one where it loaded, else the default configuration's.
pub open spec fn matrix_config_root(ctx: SdkContext) -> Option<Seq<char>> {
    match ctx.stored_config {
        Ok(c) => ov(c.sdk_root),
        Err(_) => Some(spec_default_sdk_root(ov(ctx.documents_dir))),
    }
}

/// The configuration the matrix is built from (see `matrix_config_root`).
pub fn matrix_config(ctx: &SdkContext) -> (r: SdkSourceConfig)
    ensures
        ov(r.sdk_root) == matrix_config_root(*ctx),
{
    match &ctx.stored_config {
        Ok(c) => SdkSourceConfig { sdk_root: copy_opt(&c.sdk_root) },
        Err(_) => SdkSourceConfig {
            sdk_root: Some(default_sdk_root(opt_str(&ctx.documents_dir))),
        },
    }
}

/// Whether `version` is at or above the oldest supported SDK, given that
/// oldest version's key.
fn is_supported(version: &str, min_key: u32) -> (r: bool)
    requires
        min_key == sort_key(DEFAULT_MIN_SDK_VERSION@),
    ensures
        r == supported_version(version@),
{
    if version_sort_key_fits(version) {
        version_sort_key(version) >= min_key
    } else {
        true
    }
}

/// The SDK matrix: one row per available version (see
/// `spec_available_versions`), each as `sdk_version_option` gives it.
pub fn available_sdk_versions(
    fs: &FsSnapshot,
    ctx: &SdkContext,
    installed: &Vec<InstalledC4dVersion>,
) -> (r: Vec<SdkVersionOption>)
    ensures
        r.len() == spec_available_versions(installed@).len(),
        forall|i: int|
            0 <= i < r.len() ==> option_view(#[trigger] r[i]) == spec_sdk_version_option(
                fs@,
                *ctx,
                spec_available_versions(installed@)[i],
                matrix_config_root(*ctx),
            ),
{
    let config = matrix_config(ctx);
    let mut all = known_sdk_version_list();
    let mut k: usize = 0;
    while k < installed.len()
        invariant
            k <= installed.len(),
            vviews(all@) == known_sdk_versions() + installed_sdk_versions(installed@).take(k as int),
        decreases installed.len() - k,
    {
        let ghost prev = all@;
        all.push(chars_of(installed[k].sdk_version.as_str()));
        proof {
            crate::text::lemma_vviews_push(prev, all@[prev.len() as int]);
            assert(all@ == prev.push(all@[prev.len() as int]));
            assert(installed_sdk_versions(installed@).take(k + 1) =~= installed_sdk_versions(
                installed@,
            ).take(k as int).push(installed@[k as int].sdk_version@));
        }
        k += 1;
    }
    assert(installed_sdk_versions(installed@).take(installed.len() as int) =~= installed_sdk_versions(
        installed@,
    ));
    let sorted = sort_dedup_vec(&all);
    let ghost names = vviews(sorted@);
    let ghost pred = |v: Seq<char>| supported_version(v);
    proof {
        versioning::lemma_known_sort_keys();
        reveal_strlit("2024.4");
    }
    let min_key = version_sort_key(DEFAULT_MIN_SDK_VERSION);
    let mut r: Vec<SdkVersionOption> = Vec::new();
    let mut i: usize = 0;
    while i < sorted.len()
        invariant
            i <= sorted.len(),
            names == vviews(sorted@),
            names == sort_dedup(known_sdk_versions() + installed_sdk_versions(installed@)),
            min_key == sort_key(DEFAULT_MIN_SDK_VERSION@),
            ov(config.sdk_root) == matrix_config_root(*ctx),
            pred == (|v: Seq<char>| supported_version(v)),
            r.len() == names.take(i as int).filter(pred).len(),
            forall|j: int|
                0 <= j < r.len() ==> option_view(#[trigger] r[j]) == spec_sdk_version_option(
                    fs@,
                    *ctx,
                    names.take(i as int).filter(pred)[j],
                    matrix_config_root(*ctx),
                ),
        decreases sorted.len() - i,
    {
        let v = string_of(&sorted[i]);
        assert(v@ == names[i as int]);
        proof {
            names.take(i as int).lemma_filter_push(names[i as int], pred);
            assert(names.take(i + 1) =~= names.take(i as int).push(names[i as int]));
        }
        if is_supported(v.as_str(), min_key) {
            let row = sdk_version_option(fs, ctx, v.as_str(), &config);
            r.push(row);
        }
        i += 1;
    }
    assert(names.take(sorted.len() as int) =~= names);
    r
}

// ---------------------------------------------------------------------------
// Configuration changes
// ---------------------------------------------------------------------------

/// The SDK root a configuration change stores: the given root, trimmed,
/// unless it is blank; else the default root. A root with whitespace is
/// refused.
pub open spec fn spec_save_sdk_root_config(
    sdk_root: Option<Seq<char>>,
    documents: Option<Seq<char>>,
) -> Result<Option<Seq<char>>, Seq<char>> {
    let chosen = match sdk_root {
        Some(r) => if trim(r).len() > 0 {
            trim(r)
        } else {
            spec_default_sdk_root(documents)
        },
        None => spec_default_sdk_root(documents),
    };
    match spec_validate_no_spaces(chosen) {
        Err(e) => Err(e),
        Ok(_) => Ok(Some(chosen)),
    }
}

/// The view of a configuration result.
pub open spec fn config_result_view(r: Result<SdkSourceConfig, String>) -> Result<
    Option<Seq<char>>,
    Seq<char>,
> {
    match r {
        Ok(c) => Ok(ov(c.sdk_root)),
        Err(e) => Err(e@),
    }
}

/// The configuration to store for the SDK root the user chose (see
/// `spec_save_sdk_root_config`); writing it is the caller's part.
pub fn save_sdk_root_config(config: &SdkRootConfig, documents: Option<&str>) -> (r: Result<
    SdkSourceConfig,
    String,
>)
    ensures
        config_result_view(r) == spec_save_sdk_root_config(ov(config.sdk_root), osv(documents)),
{
    let chosen = match &config.sdk_root {
        Some(root) => {
            let t = crate::text::trim_str(root.as_str());
            if t.len() > 0 {
                string_of(&t)
            } else {
                default_sdk_root(documents)
            }
        },
        None => default_sdk_root(documents),
    };
    match validate_no_spaces(chosen.as_str()) {
        Err(e) => Err(e),
        Ok(_) => Ok(SdkSourceConfig { sdk_root: Some(chosen) }),
    }
}

/// The SDK versions one-click setup prepares: the oldest supported one when
/// no Cinema 4D is installed, else the supported versions the installed
/// copies call for, sorted and without repeats.
pub open spec fn spec_required_sdk_versions(installed: Seq<InstalledC4dVersion>) -> Seq<Seq<char>> {
    if installed.len() == 0 {
        seq![DEFAULT_MIN_SDK_VERSION@]
    } else {
        sort_dedup(installed_sdk_versions(installed)).filter(|v: Seq<char>| supported_version(v))
    }
}

pub fn required_sdk_versions(installed: &Vec<InstalledC4dVersion>) -> (r: Vec<String>)
    ensures
        sviews(r@) == spec_required_sdk_versions(installed@),
{
    let mut r: Vec<String> = Vec::new();
    if installed.len() == 0 {
        r.push(crate::text::owned(DEFAULT_MIN_SDK_VERSION));
        assert(sviews(r@) =~= seq![DEFAULT_MIN_SDK_VERSION@]);
        return r;
    }
    let mut all: Vec<Vec<char>> = Vec::new();
    let mut k: usize = 0;
    while k < installed.len()
        invariant
            k <= installed.len(),
            vviews(all@) == installed_sdk_versions(installed@).take(k as int),
        decreases installed.len() - k,
    {
        let ghost prev = all@;
        all.push(chars_of(installed[k].sdk_version.as_str()));
        proof {
            crate::text::lemma_vviews_push(prev, all@[prev.len() as int]);
            assert(all@ == prev.push(all@[prev.len() as int]));
        }
        assert(installed_sdk_versions(installed@).take(k + 1) =~= installed_sdk_versions(
            installed@,
        ).take(k as int).push(installed@[k as int].sdk_version@));
        k += 1;
    }
    assert(installed_sdk_versions(installed@).take(installed.len() as int) =~= installed_sdk_versions(
        installed@,
    ));
    let sorted = sort_dedup_vec(&all);
    let ghost names = vviews(sorted@);
    let ghost pred = |v: Seq<char>| supported_version(v);
    proof {
        versioning::lemma_known_sort_keys();
        reveal_strlit("2024.4");
    }
    let min_key = version_sort_key(DEFAULT_MIN_SDK_VERSION);
    let mut i: usize = 0;
    assert(sviews(r@) =~= names.take(0).filter(pred)) by {
        reveal(Seq::filter);
    }
    while i < sorted.len()
        invariant
            i <= sorted.len(),
            names == vviews(sorted@),
            min_key == sort_key(DEFAULT_MIN_SDK_VERSION@),
            pred == (|v: Seq<char>| supported_version(v)),
            sviews(r@) == names.take(i as int).filter(pred),
        decreases sorted.len() - i,
    {
        let v = string_of(&sorted[i]);
        proof {
            names.take(i as int).lemma_filter_push(names[i as int], pred);
            assert(names.take(i + 1) =~= names.take(i as int).push(names[i as int]));
        }
        if is_supported(v.as_str(), min_key) {
            let ghost prev = r@;
            r.push(v);
            proof {
                crate::compiler::lemma_sviews_push(prev, r@[prev.len() as int]);
                assert(r@ == prev.push(r@[prev.len() as int]));
            }
        }
        i += 1;
    }
    assert(names.take(sorted.len() as int) =~= names);
    r
}

/// The versions the version fields of a request name, field by field.
pub open spec fn requested_versions(fields: Seq<Seq<char>>) -> Seq<Seq<char>>
    decreases fields.len(),
{
    if fields.len() == 0 {
        Seq::empty()
    } else {
        requested_versions(fields.drop_last()) + spec_parse_version_list(fields.last())
    }
}

/// The versions a request builds, in order.
pub fn request_versions(request: &BuildRequest) -> (r: Vec<String>)
    ensures
        sviews(r@) == requested_versions(sviews(request.versions@)),
{
    let ghost fields = sviews(request.versions@);
    let mut r: Vec<String> = Vec::new();
    let mut i: usize = 0;
    assert(sviews(r@) =~= requested_versions(fields.take(0)));
    while i < request.versions.len()
        invariant
            i <= request.versions.len(),
            fields == sviews(request.versions@),
            sviews(r@) == requested_versions(fields.take(i as int)),
        decreases request.versions.len() - i,
    {
        let ghost before = sviews(r@);
        let mut more = parse_version_list(request.versions[i].as_str());
        let ghost mv = sviews(more@);
        r.append(&mut more);
        assert(sviews(r@) =~= before + mv);
        assert(fields.take(i + 1).drop_last() =~= fields.take(i as int));
        assert(fields.take(i + 1).last() == request.versions@[i as int]@);
        i += 1;
    }
    assert(fields.take(request.versions.len() as int) =~= fields);
    r
}

/// The resolution of every version a request names.
pub open spec fn spec_resolve_sdk_versions(
    fs: Seq<EntryView>,
    ctx: SdkContext,
    request: BuildRequest,
) -> Seq<ResolutionView> {
    requested_versions(sviews(request.versions@)).map_values(
        |v: Seq<char>| spec_resolve_sdk_version(fs, ctx, v, request.refresh_sdk_cache),
    )
}

pub fn resolve_sdk_versions(fs: &FsSnapshot, ctx: &SdkContext, request: &BuildRequest) -> (r: Vec<
    SdkResolution,
>)
    ensures
        r@.map_values(|x: SdkResolution| resolution_view(x)) == spec_resolve_sdk_versions(
            fs@,
            *ctx,
            *request,
        ),
{
    let versions = request_versions(request);
    let ghost names = sviews(versions@);
    let ghost f = |v: Seq<char>| spec_resolve_sdk_version(fs@, *ctx, v, request.refresh_sdk_cache);
    let mut r: Vec<SdkResolution> = Vec::new();
    let mut i: usize = 0;
    while i < versions.len()
        invariant
            i <= versions.len(),
            names == sviews(versions@),
            f == (|v: Seq<char>| spec_resolve_sdk_version(fs@, *ctx, v, request.refresh_sdk_cache)),
            r@.map_values(|x: SdkResolution| resolution_view(x)) == names.take(i as int).map_values(f),
        decreases versions.len() - i,
    {
        let ghost prev = r@;
        let one = resolve_sdk_version(fs, ctx, versions[i].as_str(), request.refresh_sdk_cache);
        r.push(one);
        assert(r@.map_values(|x: SdkResolution| resolution_view(x)) =~= prev.map_values(
            |x: SdkResolution| resolution_view(x),
        ).push(resolution_view(one)));
        assert(names.take(i + 1).map_values(f) =~= names.take(i as int).map_values(f).push(
            f(names[i as int]),
        ));
        i += 1;
    }
    assert(names.take(versions.len() as int) =~= names);
    r
}

// ---------------------------------------------------------------------------
// Extracted SDKs
// ---------------------------------------------------------------------------

/// An SDK folder within three levels below `root` (the root included).
pub open spec fn nested_sdk_test(fs: Seq<EntryView>, root: Seq<char>) -> spec_fn(EntryView) -> bool {
    |e: EntryView| in_walk(root, e.0, 0, 3) && spec_is_sdk_root(fs, e.0)
}

/// The first SDK folder a walk of three levels below `root` meets.
pub open spec fn spec_find_nested_sdk_root(fs: Seq<EntryView>, root: Seq<char>) -> Option<Seq<char>> {
    match first_where(fs, nested_sdk_test(fs, root)) {
        Some(e) => Some(e.0),
        None => None,
    }
}

pub fn find_nested_sdk_root(fs: &FsSnapshot, root: &str) -> (r: Option<String>)
    ensures
        ov(r) == spec_find_nested_sdk_root(fs@, root@),
{
    let rv = chars_of(root);
    let ghost f = nested_sdk_test(fs@, rv@);
    proof {
        crate::fs::lemma_first_where_start(fs@, f);
    }
    let mut i: usize = 0;
    while i < fs.entries.len()
        invariant
            i <= fs@.len(),
            fs@.len() == fs.entries@.len(),
            rv@ == root@,
            f == nested_sdk_test(fs@, rv@),
            first_where(fs@, f) == first_where(fs@.skip(i as int), f),
        decreases fs.entries.len() - i,
    {
        let p = fs.path_at(i);
        let hit = walk_visits(&rv, &p, 0, 3) && sdk_root_at(fs, &p);
        assert(hit == f(fs@[i as int]));
        if hit {
            proof {
                crate::fs::lemma_first_where_hit(fs@, f, i as int);
            }
            return Some(string_of(&p));
        }
        proof {
            crate::fs::lemma_first_where_step(fs@, f, i as int);
        }
        i += 1;
    }
    proof {
        crate::fs::lemma_first_where_end(fs@, f);
    }
    None
}

/// The SDK an extraction folder holds: the folder itself when it is an SDK,
/// else the first SDK folder nested in it.
pub open spec fn spec_ready_sdk_root(fs: Seq<EntryView>, target: Seq<char>) -> Option<Seq<char>> {
    if spec_is_sdk_root(fs, target) {
        Some(target)
    } else {
        spec_find_nested_sdk_root(fs, target)
    }
}

/// The SDK an extraction folder holds is an SDK folder: the extraction
/// folder itself, or one at most three levels below it.
pub proof fn lemma_ready_sdk_root(fs: Seq<EntryView>, target: Seq<char>)
    ensures
        spec_ready_sdk_root(fs, target) matches Some(r) ==> spec_is_sdk_root(fs, r) && (r == target
            || in_walk(target, r, 0, 3)),
{
    crate::fs::lemma_first_where_passes(fs, nested_sdk_test(fs, target));
}

pub fn ready_sdk_root(fs: &FsSnapshot, target: &str) -> (r: Option<String>)
    ensures
        ov(r) == spec_ready_sdk_root(fs@, target@),
{
    let tv = chars_of(target);
    if sdk_root_at(fs, &tv) {
        Some(crate::text::owned(target))
    } else {
        find_nested_sdk_root(fs, target)
    }
}

/// What an extraction into `target` produced: its SDK, or an error when it
/// holds none.
pub open spec fn spec_extracted_sdk_root(fs: Seq<EntryView>, target: Seq<char>) -> Result<
    Seq<char>,
    Seq<char>,
> {
    match spec_ready_sdk_root(fs, target) {
        Some(r) => Ok(r),
        None => Err("Extracted SDK root is incomplete or invalid: "@ + target),
    }
}

pub fn extracted_sdk_root(fs: &FsSnapshot, target: &str) -> (r: Result<String, String>)
    ensures
        crate::compiler::srv(r) == spec_extracted_sdk_root(fs@, target@),
{
    match ready_sdk_root(fs, target) {
        Some(r) => Ok(r),
        None => {
            let m = chars_of("Extracted SDK root is incomplete or invalid: ");
            let tv = chars_of(target);
            Err(string_of(&concat(&m, &tv)))
        },
    }
}

// ---------------------------------------------------------------------------
// The setup report
// ---------------------------------------------------------------------------

/// How many requirements are missing or left to the user.
pub open spec fn attention_count(reqs: Seq<RequirementView>) -> nat
    decreases reqs.len(),
{
    if reqs.len() == 0 {
        0
    } else {
        attention_count(reqs.drop_last()) + (if reqs.last().2 == SetupRequirementStatus::Missing
            || reqs.last().2 == SetupRequirementStatus::Manual {
            1nat
        } else {
            0nat
        })
    }
}

/// The summary line of the setup report.
pub open spec fn spec_setup_summary(reqs: Seq<RequirementView>) -> Seq<char> {
    if attention_count(reqs) == 0 {
        "Ready for Cinema 4D C++ SDK builds"@
    } else {
        dec(attention_count(reqs)) + " setup items need attention"@
    }
}

/// The setup report: the SDK root, what is installed, the SDK matrix, the
/// SDKs just prepared, the checklist and its summary.
pub fn sdk_setup_report(
    os: HostOs,
    tools: &ToolSet,
    sdk_root: Option<String>,
    installed: Vec<InstalledC4dVersion>,
    versions: Vec<SdkVersionOption>,
    prepared_versions: Vec<SdkResolution>,
) -> (r: SdkSetupReport)
    ensures
        ov(r.sdk_root) == ov(sdk_root),
        r.installed_versions@ == installed@,
        r.versions@ == versions@,
        r.prepared_versions@ == prepared_versions@,
        requirements_view(r.requirements@) == spec_setup_requirements(
            os,
            *tools,
            installed@,
            versions@,
            ov(sdk_root),
        ),
        r.summary@ == spec_setup_summary(requirements_view(r.requirements@)),
{
    let requirements = setup_requirements(os, tools, &installed, &versions, opt_str(&sdk_root));
    let ghost rv = requirements_view(requirements@);
    let mut count: u64 = 0;
    let mut i: usize = 0;
    while i < requirements.len()
        invariant
            i <= requirements.len(),
            rv == requirements_view(requirements@),
            count == attention_count(rv.take(i as int)),
            count <= i,
        decreases requirements.len() - i,
    {
        assert(rv.take(i + 1).drop_last() =~= rv.take(i as int));
        assert(rv.take(i + 1).last() == rv[i as int]);
        let st = requirements[i].status;
        if st == SetupRequirementStatus::Missing || st == SetupRequirementStatus::Manual {
            count = count + 1;
        }
        i += 1;
    }
    assert(rv.take(requirements.len() as int) =~= rv);
    let summary = if count == 0 {
        crate::text::owned("Ready for Cinema 4D C++ SDK builds")
    } else {
        let n = crate::text::decimal(count);
        let m = chars_of(" setup items need attention");
        string_of(&concat(&n, &m))
    };
    SdkSetupReport {
        sdk_root,
        installed_versions: installed,
        versions,
        prepared_versions,
        requirements,
        summary,
    }
}

// ---------------------------------------------------------------------------
// Configuration commands
// ---------------------------------------------------------------------------

/// The context after storing `config`: the same platform and documents
/// folder, with `config` as the stored configuration.
pub fn context_with(ctx: &SdkContext, config: &SdkSourceConfig) -> (r: SdkContext)
    ensures
        r.os == ctx.os,
        ov(r.documents_dir) == ov(ctx.documents_dir),
        loaded_view(r.stored_config) == Ok::<Option<Seq<char>>, Seq<char>>(ov(config.sdk_root)),
        matrix_config_root(r) == ov(config.sdk_root),
{
    SdkContext {
        os: ctx.os,
        documents_dir: copy_opt(&ctx.documents_dir),
        stored_config: Ok(SdkSourceConfig { sdk_root: copy_opt(&config.sdk_root) }),
    }
}

/// The context after storing `config` agrees with `ctx` on everything but
/// the stored configuration.
pub open spec fn stored_as(new_ctx: SdkContext, ctx: SdkContext, root: Option<Seq<char>>) -> bool {
    &&& new_ctx.os == ctx.os
    &&& ov(new_ctx.documents_dir) == ov(ctx.documents_dir)
    &&& loaded_view(new_ctx.stored_config) == Ok::<Option<Seq<char>>, Seq<char>>(root)
    &&& matrix_config_root(new_ctx) == root
}

/// One-click configuration: store the default SDK root, then report it with
/// the installed copies and the SDK matrix under the new configuration. The
/// returned context holds the configuration to write.
pub fn auto_configure_sdk_sources(
    fs: &FsSnapshot,
    ctx: &SdkContext,
    installed: Vec<InstalledC4dVersion>,
) -> (r: Result<(SdkContext, SdkAutoConfigReport), String>)
    ensures
        match r {
            Err(e) => spec_save_sdk_root_config(
                Some(spec_default_sdk_root(ov(ctx.documents_dir))),
                ov(ctx.documents_dir),
            ) == Err::<Option<Seq<char>>, Seq<char>>(e@),
            Ok((new_ctx, report)) => {
                &&& spec_save_sdk_root_config(
                    Some(spec_default_sdk_root(ov(ctx.documents_dir))),
                    ov(ctx.documents_dir),
                ) == Ok::<Option<Seq<char>>, Seq<char>>(ov(report.sdk_root))
                &&& stored_as(new_ctx, *ctx, ov(report.sdk_root))
                &&& report.installed_versions@ == installed@
                &&& report.versions@.len() == spec_available_versions(installed@).len()
                &&& forall|i: int|
                    0 <= i < report.versions@.len() ==> option_view(#[trigger] report.versions@[i])
                        == spec_sdk_version_option(
                        fs@,
                        new_ctx,
                        spec_available_versions(installed@)[i],
                        matrix_config_root(new_ctx),
                    )
            },
        },
{
    let documents = opt_str(&ctx.documents_dir);
    let wanted = SdkRootConfig { sdk_root: Some(default_sdk_root(documents)) };
    let config = match save_sdk_root_config(&wanted, documents) {
        Ok(c) => c,
        Err(e) => return Err(e),
    };
    let new_ctx = context_with(ctx, &config);
    let versions = available_sdk_versions(fs, &new_ctx, &installed);
    Ok((new_ctx, SdkAutoConfigReport { sdk_root: config.sdk_root, installed_versions: installed, versions }))
}

/// The setup check without preparing anything: the stored configuration's
/// root, the installed copies and the SDK matrix; a configuration that did
/// not load is the error.
pub fn inspect_sdk_setup(
    fs: &FsSnapshot,
    ctx: &SdkContext,
    os: HostOs,
    tools: &ToolSet,
    installed: Vec<InstalledC4dVersion>,
) -> (r: Result<SdkSetupReport, String>)
    ensures
        match ctx.stored_config {
            Err(e) => r matches Err(x) && x@ == e@,
            Ok(c) => r matches Ok(report) && {
                &&& ov(report.sdk_root) == ov(c.sdk_root)
                &&& report.installed_versions@ == installed@
                &&& report.prepared_versions@.len() == 0
                &&& report.versions@.len() == spec_available_versions(installed@).len()
                &&& (forall|i: int|
                    0 <= i < report.versions@.len() ==> option_view(#[trigger] report.versions@[i])
                        == spec_sdk_version_option(
                        fs@,
                        *ctx,
                        spec_available_versions(installed@)[i],
                        matrix_config_root(*ctx),
                    ))
                &&& requirements_view(report.requirements@) == spec_setup_requirements(
                    os,
                    *tools,
                    installed@,
                    report.versions@,
                    ov(c.sdk_root),
                )
                &&& report.summary@ == spec_setup_summary(requirements_view(report.requirements@))
            },
        },
{
    match &ctx.stored_config {
        Err(e) => Err(e.clone()),
        Ok(c) => {
            let versions = available_sdk_versions(fs, ctx, &installed);
            Ok(sdk_setup_report(os, tools, copy_opt(&c.sdk_root), installed, versions, Vec::new()))
        },
    }
}

/// Storing a per-version source: a root given with it becomes the SDK root;
/// without one, a configuration lacking a root gets the default one. The
/// answer is the version's matrix row under the resulting configuration,
/// with the context that holds it.
pub fn save_sdk_source(fs: &FsSnapshot, ctx: &SdkContext, version: &str, source: &SdkSourceOverride) -> (r:
    Result<(SdkContext, SdkVersionOption), String>)
    ensures
        match ctx.stored_config {
            Err(e) => r matches Err(x) && x@ == e@,
            Ok(c) => {
                let wanted = match ov(source.sdk_root) {
                    Some(root) => Some(spec_save_sdk_root_config(Some(root), ov(ctx.documents_dir))),
                    None => if ov(c.sdk_root) is None {
                        Some(spec_save_sdk_root_config(None, ov(ctx.documents_dir)))
                    } else {
                        None
                    },
                };
                match wanted {
                    Some(Err(e)) => r matches Err(x) && x@ == e,
                    Some(Ok(root)) => r matches Ok((new_ctx, row)) && stored_as(new_ctx, *ctx, root)
                        && option_view(row) == spec_sdk_version_option(fs@, new_ctx, version@, root),
                    None => r matches Ok((new_ctx, row)) && stored_as(new_ctx, *ctx, ov(c.sdk_root))
                        && option_view(row) == spec_sdk_version_option(
                        fs@,
                        new_ctx,
                        version@,
                        ov(c.sdk_root),
                    ),
                }
            },
        },
{
    let loaded = match &ctx.stored_config {
        Err(e) => return Err(e.clone()),
        Ok(c) => c,
    };
    let documents = opt_str(&ctx.documents_dir);
    let config = if let Some(root) = &source.sdk_root {
        match save_sdk_root_config(&SdkRootConfig { sdk_root: Some(root.clone()) }, documents) {
            Ok(c) => c,
            Err(e) => return Err(e),
        }
    } else if loaded.sdk_root.is_none() {
        match save_sdk_root_config(&SdkRootConfig { sdk_root: None }, documents) {
            Ok(c) => c,
            Err(e) => return Err(e),
        }
    } else {
        SdkSourceConfig { sdk_root: copy_opt(&loaded.sdk_root) }
    };
    let new_ctx = context_with(ctx, &config);
    let row = sdk_version_option(fs, &new_ctx, version, &config);
    Ok((new_ctx, row))
}

/// Dropping the per-version sources: the default configuration is stored
/// and the SDK matrix under it is the answer, with the context that holds
/// it. (Sources are not kept per version, so `_version` selects nothing.)
pub fn remove_sdk_source(
    fs: &FsSnapshot,
    ctx: &SdkContext,
    _version: &str,
    installed: &Vec<InstalledC4dVersion>,
) -> (r: (SdkContext, Vec<SdkVersionOption>))
    ensures
        stored_as(r.0, *ctx, Some(spec_default_sdk_root(ov(ctx.documents_dir)))),
        r.1@.len() == spec_available_versions(installed@).len(),
        forall|i: int|
            0 <= i < r.1@.len() ==> option_view(#[trigger] r.1@[i]) == spec_sdk_version_option(
                fs@,
                r.0,
                spec_available_versions(installed@)[i],
                Some(spec_default_sdk_root(ov(ctx.documents_dir))),
            ),
{
    let config = self::config::default_sdk_source_config(opt_str(&ctx.documents_dir));
    let new_ctx = context_with(ctx, &config);
    let rows = available_sdk_versions(fs, &new_ctx, installed);
    (new_ctx, rows)
}

// ---------------------------------------------------------------------------
// One-click setup of the required SDKs
// ---------------------------------------------------------------------------

/// Where one-click setup stands between two pieces of outside work.
pub enum ConfigureStage {
    Start,
    /// `config` is being written; `installed` are the Cinema 4D copies found.
    Storing { config: SdkSourceConfig, installed: Vec<InstalledC4dVersion> },
    /// The SDKs of `versions` are prepared in order; `prepared` holds those
    /// done so far.
    Preparing {
        config: SdkSourceConfig,
        installed: Vec<InstalledC4dVersion>,
        versions: Vec<String>,
        prepared: Vec<SdkResolution>,
    },
}

/// What the last piece of outside work of one-click setup produced.
pub enum ConfigureEvent {
    /// Setup starts with the Cinema 4D copies installed here.
    Begin { installed: Vec<InstalledC4dVersion> },
    /// The configuration was written, or could not be.
    Stored { result: Result<(), String> },
    /// The SDK of the version was prepared, or could not be.
    Prepared { result: Result<SdkResolution, String> },
}

/// The next piece of outside work of one-click setup.
pub enum ConfigureAction {
    /// Write `config` as the stored configuration; report `Stored`.
    Store { config: SdkSourceConfig },
    /// Prepare the SDK of `version` under `context` (see `prepare_sdk`);
    /// report `Prepared`.
    Prepare { version: String, refresh: bool, context: SdkContext },
    /// Setup is over: the setup report, or the error.
    Finish { result: Result<SdkSetupReport, String> },
}

/// The events each stage waits for: any at the start, the write's outcome
/// while storing, an SDK's while preparing (with one left to prepare).
pub open spec fn configure_fits(stage: ConfigureStage, event: ConfigureEvent) -> bool {
    match stage {
        ConfigureStage::Start => event is Begin,
        ConfigureStage::Storing { .. } => event is Stored,
        ConfigureStage::Preparing { versions, prepared, .. } => event is Prepared && prepared@.len()
            < versions@.len(),
    }
}

/// The context once `config` is stored.
pub open spec fn with_config(ctx: SdkContext, config: SdkSourceConfig) -> SdkContext {
    SdkContext { os: ctx.os, documents_dir: ctx.documents_dir, stored_config: Ok(config) }
}

/// The setup report after one-click setup: the stored root, the installed
/// copies, the SDK matrix under the stored configuration, the SDKs just
/// prepared, the checklist and its summary.
pub open spec fn configured_report(
    report: SdkSetupReport,
    fs: Seq<EntryView>,
    ctx: SdkContext,
    os: HostOs,
    tools: ToolSet,
    config: SdkSourceConfig,
    installed: Seq<InstalledC4dVersion>,
    prepared: Seq<SdkResolution>,
) -> bool {
    &&& ov(report.sdk_root) == ov(config.sdk_root)
    &&& report.installed_versions@ == installed
    &&& report.prepared_versions@ == prepared
    &&& report.versions@.len() == spec_available_versions(installed).len()
    &&& forall|i: int|
        0 <= i < report.versions@.len() ==> option_view(#[trigger] report.versions@[i])
            == spec_sdk_version_option(
            fs,
            with_config(ctx, config),
            spec_available_versions(installed)[i],
            ov(config.sdk_root),
        )
    &&& requirements_view(report.requirements@) == spec_setup_requirements(
        os,
        tools,
        installed,
        report.versions@,
        ov(config.sdk_root),
    )
    &&& report.summary@ == spec_setup_summary(requirements_view(report.requirements@))
}

/// The step after an SDK is done: prepare the next version, or report.
pub open spec fn configure_next(
    r: (ConfigureStage, ConfigureAction),
    fs: Seq<EntryView>,
    ctx: SdkContext,
    os: HostOs,
    tools: ToolSet,
    refresh: bool,
    config: SdkSourceConfig,
    installed: Seq<InstalledC4dVersion>,
    versions: Seq<Seq<char>>,
    prepared: Seq<SdkResolution>,
) -> bool {
    if prepared.len() < versions.len() {
        &&& match r.0 {
            ConfigureStage::Preparing { config: c, installed: inst, versions: v, prepared: p } => {
                &&& ov(c.sdk_root) == ov(config.sdk_root)
                &&& inst@ == installed
                &&& sviews(v@) == versions
                &&& p@ == prepared
            },
            _ => false,
        }
        &&& match r.1 {
            ConfigureAction::Prepare { version, refresh: f, context } => {
                &&& version@ == versions[prepared.len() as int]
                &&& f == refresh
                &&& stored_as(context, ctx, ov(config.sdk_root))
            },
            _ => false,
        }
    } else {
        match r.1 {
            ConfigureAction::Finish { result: Ok(report) } => configured_report(
                report,
                fs,
                ctx,
                os,
                tools,
                config,
                installed,
                prepared,
            ),
            _ => false,
        }
    }
}

/// The step ends setup with the error `e`.
pub open spec fn configure_failed(r: (ConfigureStage, ConfigureAction), e: Seq<char>) -> bool {
    r.1 matches ConfigureAction::Finish { result: Err(x) } && x@ == e
}

proof fn lemma_option_follows_views(
    fs: Seq<EntryView>,
    a: SdkContext,
    b: SdkContext,
    version: Seq<char>,
    root: Option<Seq<char>>,
)
    requires
        a.os == b.os,
        ov(a.documents_dir) == ov(b.documents_dir),
        loaded_view(a.stored_config) == loaded_view(b.stored_config),
    ensures
        spec_sdk_version_option(fs, a, version, root) == spec_sdk_version_option(fs, b, version, root),
{
}

fn configure_report(
    fs: &FsSnapshot,
    ctx: &SdkContext,
    os: HostOs,
    tools: &ToolSet,
    config: SdkSourceConfig,
    installed: Vec<InstalledC4dVersion>,
    prepared: Vec<SdkResolution>,
) -> (r: SdkSetupReport)
    ensures
        configured_report(r, fs@, *ctx, os, *tools, config, installed@, prepared@),
{
    let new_ctx = context_with(ctx, &config);
    let versions = available_sdk_versions(fs, &new_ctx, &installed);
    proof {
        assert forall|i: int| 0 <= i < versions@.len() implies option_view(#[trigger] versions@[i])
            == spec_sdk_version_option(
            fs@,
            with_config(*ctx, config),
            spec_available_versions(installed@)[i],
            ov(config.sdk_root),
        ) by {
            lemma_option_follows_views(
                fs@,
                new_ctx,
                with_config(*ctx, config),
                spec_available_versions(installed@)[i],
                ov(config.sdk_root),
            );
        }
    }
    sdk_setup_report(os, tools, copy_opt(&config.sdk_root), installed, versions, prepared)
}

fn configure_continue(
    fs: &FsSnapshot,
    ctx: &SdkContext,
    os: HostOs,
    tools: &ToolSet,
    refresh: bool,
    config: SdkSourceConfig,
    installed: Vec<InstalledC4dVersion>,
    versions: Vec<String>,
    prepared: Vec<SdkResolution>,
) -> (r: (ConfigureStage, ConfigureAction))
    ensures
        configure_next(r, fs@, *ctx, os, *tools, refresh, config, installed@, sviews(versions@), prepared@),
{
    if prepared.len() < versions.len() {
        let version = crate::text::owned(versions[prepared.len()].as_str());
        let context = context_with(ctx, &config);
        (
            ConfigureStage::Preparing { config, installed, versions, prepared },
            ConfigureAction::Prepare { version, refresh, context },
        )
    } else {
        let report = configure_report(fs, ctx, os, tools, config, installed, prepared);
        (ConfigureStage::Start, ConfigureAction::Finish { result: Ok(report) })
    }
}

/// One step of one-click setup: store the SDK root the user chose (see
/// `save_sdk_root_config`), prepare the SDK of each version the installed
/// copies need (see `required_sdk_versions`) in order, stopping at the
/// first failure, and report the setup with the SDKs prepared. The caller
/// starts at `ConfigureStage::Start` with `Begin`, performs each `Store` and
/// `Prepare` and hands back what it produced, until `Finish`.
pub fn configure_required_sdks(
    fs: &FsSnapshot,
    ctx: &SdkContext,
    os: HostOs,
    tools: &ToolSet,
    root_config: &SdkRootConfig,
    refresh: bool,
    stage: ConfigureStage,
    event: ConfigureEvent,
) -> (r: (ConfigureStage, ConfigureAction))
    requires
        configure_fits(stage, event),
    ensures
        match stage {
            ConfigureStage::Start => match spec_save_sdk_root_config(
                ov(root_config.sdk_root),
                ov(ctx.documents_dir),
            ) {
                Err(e) => configure_failed(r, e),
                Ok(root) => {
                    &&& match r.0 {
                        ConfigureStage::Storing { config, installed } => ov(config.sdk_root) == root
                            && installed@ == event->installed@,
                        _ => false,
                    }
                    &&& match r.1 {
                        ConfigureAction::Store { config } => ov(config.sdk_root) == root,
                        _ => false,
                    }
                },
            },
            ConfigureStage::Storing { config, installed } => match event {
                ConfigureEvent::Stored { result: Err(e) } => configure_failed(r, e@),
                _ => configure_next(
                    r,
                    fs@,
                    *ctx,
                    os,
                    *tools,
                    refresh,
                    config,
                    installed@,
                    spec_required_sdk_versions(installed@),
                    Seq::empty(),
                ),
            },
            ConfigureStage::Preparing { config, installed, versions, prepared } => match event {
                ConfigureEvent::Prepared { result: Err(e) } => configure_failed(r, e@),
                ConfigureEvent::Prepared { result: Ok(done) } => configure_next(
                    r,
                    fs@,
                    *ctx,
                    os,
                    *tools,
                    refresh,
                    config,
                    installed@,
                    sviews(versions@),
                    prepared@.push(done),
                ),
                _ => true,
            },
        },
{
    match stage {
        ConfigureStage::Start => {
            let installed = match event {
                ConfigureEvent::Begin { installed } => installed,
                _ => Vec::new(),
            };
            match save_sdk_root_config(root_config, opt_str(&ctx.documents_dir)) {
                Err(e) => (ConfigureStage::Start, ConfigureAction::Finish { result: Err(e) }),
                Ok(config) => {
                    let kept = SdkSourceConfig { sdk_root: copy_opt(&config.sdk_root) };
                    (ConfigureStage::Storing { config: kept, installed }, ConfigureAction::Store { config })
                },
            }
        },
        ConfigureStage::Storing { config, installed } => match event {
            ConfigureEvent::Stored { result: Err(e) } => (
                ConfigureStage::Start,
                ConfigureAction::Finish { result: Err(e) },
            ),
            _ => {
                let versions = required_sdk_versions(&installed);
                configure_continue(fs, ctx, os, tools, refresh, config, installed, versions, Vec::new())
            },
        },
        ConfigureStage::Preparing { config, installed, versions, prepared } => match event {
            ConfigureEvent::Prepared { result: Err(e) } => (
                ConfigureStage::Start,
                ConfigureAction::Finish { result: Err(e) },
            ),
            ConfigureEvent::Prepared { result: Ok(done) } => {
                let mut prepared = prepared;
                prepared.push(done);
                configure_continue(fs, ctx, os, tools, refresh, config, installed, versions, prepared)
            },
            _ => (ConfigureStage::Start, ConfigureAction::Finish { result: Err(String::new()) }),
        },
    }
}

// ---------------------------------------------------------------------------
// Preparing an SDK
// ---------------------------------------------------------------------------

/// Where preparing an SDK stands between two pieces of outside work.
pub enum PrepareStage {
    /// Nothing done yet.
    Start,
    /// Extracting the archive the resolution named.
    ExtractingArchive { resolution: SdkResolution },
    /// Downloading the official archive; `previous` is the error that sent
    /// preparation there, if any.
    Downloading { url: String, previous: Option<String> },
    /// Extracting the downloaded archive.
    ExtractingDownload { url: String, archive: String, previous: Option<String> },
}

/// What preparing an SDK asks for next.
pub enum PrepareAction {
    /// Extract `archive` for the version's cache folder (from scratch when
    /// `refresh`; see `cache::unpack_step`), then report the SDK root or the
    /// error.
    Extract { archive: String, refresh: bool },
    /// Download `url` to the version's archive path, then report the path or
    /// the error.
    Download { url: String },
    /// Preparation is over.
    Finish { result: Result<SdkResolution, String> },
}

pub enum StageView {
    Start,
    ExtractingArchive { resolution: ResolutionView },
    Downloading { url: Seq<char>, previous: Option<Seq<char>> },
    ExtractingDownload { url: Seq<char>, archive: Seq<char>, previous: Option<Seq<char>> },
}

pub enum ActionView {
    Extract { archive: Seq<char>, refresh: bool },
    Download { url: Seq<char> },
    Finish { result: Result<ResolutionView, Seq<char>> },
}

pub open spec fn stage_view(s: PrepareStage) -> StageView {
    match s {
        PrepareStage::Start => StageView::Start,
        PrepareStage::ExtractingArchive { resolution } => StageView::ExtractingArchive {
            resolution: resolution_view(resolution),
        },
        PrepareStage::Downloading { url, previous } => StageView::Downloading {
            url: url@,
            previous: ov(previous),
        },
        PrepareStage::ExtractingDownload { url, archive, previous } => StageView::ExtractingDownload {
            url: url@,
            archive: archive@,
            previous: ov(previous),
        },
    }
}

pub open spec fn action_view(a: PrepareAction) -> ActionView {
    match a {
        PrepareAction::Extract { archive, refresh } => ActionView::Extract {
            archive: archive@,
            refresh,
        },
        PrepareAction::Download { url } => ActionView::Download { url: url@ },
        PrepareAction::Finish { result } => ActionView::Finish {
            result: match result {
                Ok(r) => Ok(resolution_view(r)),
                Err(e) => Err(e@),
            },
        },
    }
}

/// Turning to the official download of `version`, after `previous` went
/// wrong (if anything did).
pub open spec fn spec_official_step(version: Seq<char>, previous: Option<Seq<char>>) -> (
    StageView,
    ActionView,
) {
    match spec_generated_download_url_if_known(version) {
        None => (
            StageView::Start,
            ActionView::Finish {
                result: Err(
                    match previous {
                        Some(p) => p,
                        None => "SDK "@ + version + " did not resolve to a download URL"@,
                    },
                ),
            },
        ),
        Some(url) => (
            StageView::Downloading { url, previous },
            ActionView::Download { url },
        ),
    }
}

/// One step of preparing `version`. At the start the version is resolved:
/// an SDK root that is already usable, or the cache, ends preparation; a
/// configured or installed archive is extracted, and if that fails the
/// official download is tried; an official source is downloaded and
/// extracted afresh. `outcome` is what the last outside work reported: the
/// extracted SDK root or the downloaded archive, or its error.
pub open spec fn spec_prepare_sdk_step(
    fs: Seq<EntryView>,
    ctx: SdkContext,
    version: Seq<char>,
    refresh: bool,
    stage: StageView,
    outcome: Result<Seq<char>, Seq<char>>,
) -> (StageView, ActionView) {
    match stage {
        StageView::Start => {
            let res = spec_resolve_sdk_version(fs, ctx, version, refresh);
            if res.2 matches Some(root) && spec_is_sdk_root(fs, root) {
                (StageView::Start, ActionView::Finish { result: Ok(res) })
            } else if res.1 == SdkResolutionSource::Config || res.1
                == SdkResolutionSource::InstalledZip {
                match res.3 {
                    None => (
                        StageView::Start,
                        ActionView::Finish {
                            result: Err("SDK "@ + version + " did not resolve to an archive path"@),
                        },
                    ),
                    Some(archive) => (
                        StageView::ExtractingArchive { resolution: res },
                        ActionView::Extract { archive, refresh },
                    ),
                }
            } else if res.1 == SdkResolutionSource::OfficialDownload {
                spec_official_step(version, None)
            } else {
                (StageView::Start, ActionView::Finish { result: Ok(res) })
            }
        },
        StageView::ExtractingArchive { resolution } => match outcome {
            Ok(root) => (
                StageView::Start,
                ActionView::Finish {
                    result: Ok(
                        (
                            resolution.0,
                            resolution.1,
                            Some(root),
                            resolution.3,
                            resolution.4,
                            "ready"@,
                        ),
                    ),
                },
            ),
            Err(e) => spec_official_step(version, Some(e)),
        },
        StageView::Downloading { url, previous } => match outcome {
            Ok(archive) => (
                StageView::ExtractingDownload { url, archive, previous },
                ActionView::Extract { archive, refresh: true },
            ),
            Err(e) => (StageView::Start, ActionView::Finish { result: Err(e) }),
        },
        StageView::ExtractingDownload { url, archive, previous } => match outcome {
            Ok(root) => (
                StageView::Start,
                ActionView::Finish {
                    result: Ok(
                        (
                            version,
                            SdkResolutionSource::OfficialDownload,
                            Some(root),
                            Some(archive),
                            Some(url),
                            "ready"@,
                        ),
                    ),
                },
            ),
            Err(e) => (
                StageView::Start,
                ActionView::Finish {
                    result: Err(
                        match previous {
                            Some(p) => p + "; official SDK fallback failed: "@ + e,
                            None => e,
                        },
                    ),
                },
            ),
        },
    }
}

fn official_step(version: &str, previous: Option<String>) -> (r: (PrepareStage, PrepareAction))
    ensures
        (stage_view(r.0), action_view(r.1)) == spec_official_step(version@, ov(previous)),
{
    match find_official_cpp_sdk_url(version) {
        None => {
            let message = match previous {
                Some(p) => p,
                None => {
                    let a = chars_of("SDK ");
                    let v = chars_of(version);
                    let b = chars_of(" did not resolve to a download URL");
                    string_of(&concat(&concat(&a, &v), &b))
                },
            };
            (PrepareStage::Start, PrepareAction::Finish { result: Err(message) })
        },
        Some(url) => {
            let u2 = url.clone();
            (PrepareStage::Downloading { url, previous }, PrepareAction::Download { url: u2 })
        },
    }
}

/// One step of preparing an SDK (see `spec_prepare_sdk_step`). The caller
/// starts at `PrepareStage::Start`, performs each `Extract` or `Download`
/// and hands back what it produced, until `Finish`.
pub fn prepare_sdk(
    fs: &FsSnapshot,
    ctx: &SdkContext,
    version: &str,
    refresh: bool,
    stage: PrepareStage,
    outcome: Result<String, String>,
) -> (r: (PrepareStage, PrepareAction))
    ensures
        (stage_view(r.0), action_view(r.1)) == spec_prepare_sdk_step(
            fs@,
            *ctx,
            version@,
            refresh,
            stage_view(stage),
            crate::compiler::srv(outcome),
        ),
{
    match stage {
        PrepareStage::Start => {
            let res = resolve_sdk_version(fs, ctx, version, refresh);
            let usable = match &res.sdk_root {
                Some(root) => sdk_root_at(fs, &chars_of(root.as_str())),
                None => false,
            };
            if usable {
                return (PrepareStage::Start, PrepareAction::Finish { result: Ok(res) });
            }
            if res.source == SdkResolutionSource::Config || res.source
                == SdkResolutionSource::InstalledZip {
                match copy_opt(&res.archive_path) {
                    None => {
                        let a = chars_of("SDK ");
                        let v = chars_of(version);
                        let b = chars_of(" did not resolve to an archive path");
                        (
                            PrepareStage::Start,
                            PrepareAction::Finish {
                                result: Err(string_of(&concat(&concat(&a, &v), &b))),
                            },
                        )
                    },
                    Some(archive) => (
                        PrepareStage::ExtractingArchive { resolution: res },
                        PrepareAction::Extract { archive, refresh },
                    ),
                }
            } else if res.source == SdkResolutionSource::OfficialDownload {
                official_step(version, None)
            } else {
                (PrepareStage::Start, PrepareAction::Finish { result: Ok(res) })
            }
        },
        PrepareStage::ExtractingArchive { resolution } => match outcome {
            Ok(root) => {
                let done = SdkResolution {
                    version: resolution.version,
                    source: resolution.source,
                    sdk_root: Some(root),
                    archive_path: resolution.archive_path,
                    download_url: resolution.download_url,
                    status: crate::text::owned("ready"),
                };
                (PrepareStage::Start, PrepareAction::Finish { result: Ok(done) })
            },
            Err(e) => official_step(version, Some(e)),
        },
        PrepareStage::Downloading { url, previous } => match outcome {
            Ok(archive) => {
                let a2 = archive.clone();
                (
                    PrepareStage::ExtractingDownload { url, archive, previous },
                    PrepareAction::Extract { archive: a2, refresh: true },
                )
            },
            Err(e) => (PrepareStage::Start, PrepareAction::Finish { result: Err(e) }),
        },
        PrepareStage::ExtractingDownload { url, archive, previous } => match outcome {
            Ok(root) => {
                let done = SdkResolution {
                    version: crate::text::owned(version),
                    source: SdkResolutionSource::OfficialDownload,
                    sdk_root: Some(root),
                    archive_path: Some(archive),
                    download_url: Some(url),
                    status: crate::text::owned("ready"),
                };
                (PrepareStage::Start, PrepareAction::Finish { result: Ok(done) })
            },
            Err(e) => {
                let message = match previous {
                    Some(p) => {
                        let pv = chars_of(p.as_str());
                        let m = chars_of("; official SDK fallback failed: ");
                        let ev = chars_of(e.as_str());
                        string_of(&concat(&concat(&pv, &m), &ev))
                    },
                    None => e,
                };
                (PrepareStage::Start, PrepareAction::Finish { result: Err(message) })
            },
        },
    }
}

// ---------------------------------------------------------------------------
// Laws of SDK discovery
// ---------------------------------------------------------------------------

/// A stored SDK root never holds whitespace.
pub proof fn law_stored_sdk_root_has_no_spaces(sdk_root: Option<Seq<char>>, documents: Option<Seq<char>>)
    ensures
        match spec_save_sdk_root_config(sdk_root, documents) {
            Ok(stored) => stored matches Some(root) && !crate::text::has_ws(root),
            Err(_) => true,
        },
{
}

/// The SDK matrix offers only supported versions, and always the three
/// known ones, whatever is installed.
pub proof fn law_matrix_keeps_known_versions(installed: Seq<InstalledC4dVersion>)
    ensures
        forall|i: int|
            0 <= i < spec_available_versions(installed).len() ==> supported_version(
                #[trigger] spec_available_versions(installed)[i],
            ),
        spec_available_versions(installed).contains("2024.4"@),
        spec_available_versions(installed).contains("2025"@),
        spec_available_versions(installed).contains("2026"@),
{
    let pred = |v: Seq<char>| supported_version(v);
    let names = known_sdk_versions() + installed_sdk_versions(installed);
    let sorted = sort_dedup(names);
    assert(spec_available_versions(installed) == sorted.filter(pred));
    versioning::lemma_known_sort_keys();
    reveal_strlit("2024.4");
    crate::text::lemma_sort_dedup_contains(names);
    assert(names[0] == "2024.4"@);
    assert(names[1] == "2025"@);
    assert(names[2] == "2026"@);
    assert(names.contains("2024.4"@));
    assert(names.contains("2025"@));
    assert(names.contains("2026"@));
    let a = choose|j: int| 0 <= j < sorted.len() && sorted[j] == "2024.4"@;
    let b = choose|j: int| 0 <= j < sorted.len() && sorted[j] == "2025"@;
    let c = choose|j: int| 0 <= j < sorted.len() && sorted[j] == "2026"@;
    sorted.lemma_filter_contains(pred, a);
    sorted.lemma_filter_contains(pred, b);
    sorted.lemma_filter_contains(pred, c);
    assert forall|i: int|
        0 <= i < spec_available_versions(installed).len() implies supported_version(
        #[trigger] spec_available_versions(installed)[i],
    ) by {
        sorted.lemma_filter_pred(pred, i);
    }
}

/// An unreadable configured archive (with no SDK folder for the version)
/// makes the version's row unbuildable: no root, no archive, and a status
/// that names the archive.
pub proof fn law_invalid_archive_is_not_buildable(
    fs: Seq<EntryView>,
    ctx: SdkContext,
    version: Seq<char>,
    root: Seq<char>,
)
    requires
        spec_find_configured_sdk_root(fs, root, version) is None,
        spec_find_configured_sdk_archive(fs, root, version) matches Some(archive) && !fs_readable_zip(
            fs,
            archive,
        ),
    ensures
        spec_sdk_version_option(fs, ctx, version, Some(root)).3 is None,
        spec_sdk_version_option(fs, ctx, version, Some(root)).4 is None,
        spec_sdk_version_option(fs, ctx, version, Some(root)).6 == "invalid configured archive: "@
            + spec_find_configured_sdk_archive(fs, root, version)->0,
{
}

/// SDK sources are tried in order: an SDK folder of the version under the
/// SDK root, then a readable archive of it there, then the cache (unless
/// refreshing), then the official download of a known release, and only
/// then the `sdk.zip` of an installed Cinema 4D; whichever is found first
/// serves the version.
pub proof fn law_resolution_order(fs: Seq<EntryView>, ctx: SdkContext, version: Seq<char>, refresh: bool)
    ensures
        ({
            let r = spec_resolve_sdk_version(fs, ctx, version, refresh);
            let none_configured = spec_find_configured_sdk_root(fs, ctx_root(ctx), version) is None
                && spec_find_configured_sdk_archive(fs, ctx_root(ctx), version) is None;
            let cache = spec_sdk_cache_root(fs, ctx, version);
            let cached = fs_is_dir(fs, cache) && !refresh && spec_is_cmake_sdk_root(fs, cache);
            let url = spec_generated_download_url_if_known(version);
            let zip = spec_installed_sdk_zip_path(ctx.os, version);
            &&& (spec_find_configured_sdk_root(fs, ctx_root(ctx), version) matches Some(root) ==> r.1
                == SdkResolutionSource::Config && r.2 == Some(root) && r.3 is None)
            &&& (spec_find_configured_sdk_archive(fs, ctx_root(ctx), version) matches Some(archive)
                ==> spec_find_configured_sdk_root(fs, ctx_root(ctx), version) is None
                && fs_readable_zip(fs, archive) ==> r.1 == SdkResolutionSource::Config && r.2 is None
                && r.3 == Some(archive))
            &&& (none_configured && cached ==> r.1 == SdkResolutionSource::Cache && r.2 == Some(cache))
            &&& (none_configured && !cached && url is Some ==> r.1
                == SdkResolutionSource::OfficialDownload && r.2 is None && r.3 is None && r.4 == url)
            &&& (none_configured && !cached && url is None && fs_is_file(fs, zip) && fs_readable_zip(
                fs,
                zip,
            ) ==> r.1 == SdkResolutionSource::InstalledZip && r.3 == Some(zip))
            &&& (r.1 == SdkResolutionSource::InstalledZip ==> none_configured && !cached && url is None)
        }),
{
}

// ---------------------------------------------------------------------------
// Configure presets
// ---------------------------------------------------------------------------

/// The `name` texts of the preset entries, in order; entries without one
/// are passed over.
pub open spec fn preset_names(items: Seq<JsonView>) -> Seq<Seq<char>>
    decreases items.len(),
{
    if items.len() == 0 {
        Seq::empty()
    } else {
        let rest = preset_names(items.drop_last());
        match get(items.last(), "name"@) {
            Some(JsonView::Text(s)) => rest.push(s),
            _ => rest,
        }
    }
}

/// The names of the configure presets of a `CMakePresets.json` document.
pub open spec fn spec_configure_preset_names(document: JsonView) -> Seq<Seq<char>> {
    match get(document, "configurePresets"@) {
        Some(JsonView::Array(items)) => preset_names(items),
        _ => Seq::empty(),
    }
}

/// The configure presets of an SDK: its `CMakePresets.json` must be a file;
/// `text` is how reading it went, and its text is parsed as JSON.
pub open spec fn spec_read_configure_presets(
    fs: Seq<EntryView>,
    sdk_root: Seq<char>,
    text: Result<Seq<char>, Seq<char>>,
) -> Result<Seq<Seq<char>>, Seq<char>> {
    let path = path_join(sdk_root, "CMakePresets.json"@);
    match spec_require_file(fs, path) {
        Err(e) => Err(e),
        Ok(_) => match text {
            Err(e) => Err("Failed to read "@ + path + ": "@ + e),
            Ok(t) => match json_document(t) {
                Err(e) => Err("Failed to parse CMakePresets.json: "@ + e),
                Ok(v) => Ok(spec_configure_preset_names(v)),
            },
        },
    }
}

/// The names of the configure presets of a parsed `CMakePresets.json`.
pub fn configure_preset_names(document: &JsonValue) -> (r: Vec<String>)
    ensures
        sviews(r@) == spec_configure_preset_names(json_view(*document)),
{
    let mut r: Vec<String> = Vec::new();
    let items = match get_member(document, "configurePresets") {
        Some(JsonValue::Array(items)) => items,
        _ => {
            assert(sviews(r@) =~= Seq::<Seq<char>>::empty());
            return r;
        },
    };
    let ghost iv = json_views(items@);
    proof {
        lemma_json_views(items@);
    }
    let mut i: usize = 0;
    assert(sviews(r@) =~= preset_names(iv.take(0)));
    while i < items.len()
        invariant
            i <= items.len(),
            iv == json_views(items@),
            iv.len() == items@.len(),
            sviews(r@) == preset_names(iv.take(i as int)),
        decreases items.len() - i,
    {
        assert(iv.take(i + 1).drop_last() =~= iv.take(i as int));
        assert(iv.take(i + 1).last() == iv[i as int]);
        proof {
            lemma_json_views(items@);
        }
        assert(iv[i as int] == json_view(items@[i as int]));
        match get_member(&items[i], "name") {
            Some(JsonValue::Text(name)) => {
                let ghost prev = r@;
                r.push(name.clone());
                proof {
                    crate::compiler::lemma_sviews_push(prev, r@[prev.len() as int]);
                    assert(r@ == prev.push(r@[prev.len() as int]));
                }
            },
            _ => {},
        }
        i += 1;
    }
    assert(iv.take(items.len() as int) =~= iv);
    r
}

/// The configure presets of the SDK at `sdk_root` (see
/// `spec_read_configure_presets`); `text` is how reading its
/// `CMakePresets.json` went.
pub fn read_configure_presets(fs: &FsSnapshot, sdk_root: &str, text: &Result<String, String>) -> (r:
    Result<Vec<String>, String>)
    ensures
        match r {
            Ok(names) => spec_read_configure_presets(fs@, sdk_root@, crate::compiler::srv(*text))
                == Ok::<Seq<Seq<char>>, Seq<char>>(sviews(names@)),
            Err(e) => spec_read_configure_presets(fs@, sdk_root@, crate::compiler::srv(*text))
                == Err::<Seq<Seq<char>>, Seq<char>>(e@),
        },
{
    let rv = chars_of(sdk_root);
    let path = string_of(&join_str(&rv, "CMakePresets.json"));
    match require_file(fs, path.as_str()) {
        Err(e) => return Err(e),
        Ok(_) => {},
    }
    match text {
        Err(e) => {
            let m = concat(&concat(&chars_of("Failed to read "), &chars_of(path.as_str())), &chars_of(": "));
            Err(string_of(&concat(&m, &chars_of(e.as_str()))))
        },
        Ok(t) => match parse_json(t.as_str()) {
            Err(e) => {
                let m = chars_of("Failed to parse CMakePresets.json: ");
                Err(string_of(&concat(&m, &chars_of(e.as_str()))))
            },
            Ok(v) => Ok(configure_preset_names(&v)),
        },
    }
}

} // verus!
