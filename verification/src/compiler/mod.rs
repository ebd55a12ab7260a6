//! Core services of the Cinema 4D plugin compiler: the build platform,
//! preset selection and the small parsers shared by the other parts.

pub mod driver;
pub mod env;
pub mod execution;
pub mod jobs;
pub mod package;
pub mod sdk;

use vstd::prelude::*;

use crate::fs::{fs_is_dir, fs_is_file, FsSnapshot};
use crate::paths::{join_str, path_join};
use crate::text::{
    chars_of, concat, decimal, dec, find_char, find_char_in, parse_u32, parse_u32_chars,
    slice_chars, split_chars, split_on, string_of, trim, trim_chars, vviews,
};
use crate::types::CompilerPlatform;
use crate::utils::platform::HostOs;

verus! {

/// The folder, below the user's data root, that holds build state.
pub const APP_CACHE_FOLDER: &'static str = "C4DPluginCompiler";

/// The CMake preset Windows builds use.
pub const DEFAULT_PRESET_WINDOWS: &'static str = "windows_vs2022_v143_x64";

/// The preset older Windows SDKs provide.
pub const LEGACY_PRESET_WINDOWS: &'static str = "windows_vs2022_v143";

/// The CMake preset macOS builds use.
pub const DEFAULT_PRESET_MACOS: &'static str = "macos_universal_xcode";

/// What a platform builds with.
pub struct BuildPlatform {
    pub platform: CompilerPlatform,
    pub preset: Option<&'static str>,
    pub binary_extension: Option<&'static str>,
}

/// The view of an optional string slice.
pub open spec fn osv(o: Option<&str>) -> Option<Seq<char>> {
    match o {
        Some(s) => Some(s@),
        None => None,
    }
}

/// The platform, preset and plugin binary extension for `os`.
pub open spec fn spec_build_platform(os: HostOs) -> (CompilerPlatform, Option<Seq<char>>, Option<
    Seq<char>,
>) {
    match os {
        HostOs::Windows => (
            CompilerPlatform::Windows,
            Some(DEFAULT_PRESET_WINDOWS@),
            Some("xdl64"@),
        ),
        HostOs::Macos => (CompilerPlatform::Macos, Some(DEFAULT_PRESET_MACOS@), Some("xlib"@)),
        HostOs::Linux => (CompilerPlatform::Linux, None, Some("xso64"@)),
        HostOs::Other => (CompilerPlatform::Unsupported, None, None),
    }
}

/// The view of a build platform.
pub open spec fn build_platform_view(b: BuildPlatform) -> (CompilerPlatform, Option<Seq<char>>, Option<
    Seq<char>,
>) {
    (b.platform, osv(b.preset), osv(b.binary_extension))
}

/// The build platform of the operating system the program was built for.
pub fn current_build_platform(os: HostOs) -> (r: BuildPlatform)
    ensures
        build_platform_view(r) == spec_build_platform(os),
{
    match os {
        HostOs::Windows => BuildPlatform {
            platform: CompilerPlatform::Windows,
            preset: Some(DEFAULT_PRESET_WINDOWS),
            binary_extension: Some("xdl64"),
        },
        HostOs::Macos => BuildPlatform {
            platform: CompilerPlatform::Macos,
            preset: Some(DEFAULT_PRESET_MACOS),
            binary_extension: Some("xlib"),
        },
        HostOs::Linux => BuildPlatform {
            platform: CompilerPlatform::Linux,
            preset: None,
            binary_extension: Some("xso64"),
        },
        HostOs::Other => BuildPlatform {
            platform: CompilerPlatform::Unsupported,
            preset: None,
            binary_extension: None,
        },
    }
}

/// The views of a sequence of strings.
pub open spec fn sviews(s: Seq<String>) -> Seq<Seq<char>> {
    s.map_values(|x: String| x@)
}

pub broadcast proof fn lemma_sviews_push(s: Seq<String>, e: String)
    ensures
        #[trigger] sviews(s.push(e)) == sviews(s).push(e@),
{
    assert(sviews(s.push(e)) =~= sviews(s).push(e@));
}

/// The preset a build uses among those an SDK offers: on Windows the first
/// of the default and legacy presets that is offered, elsewhere the
/// platform's preset when it is offered.
pub open spec fn spec_select_build_preset(
    platform: CompilerPlatform,
    preset: Option<Seq<char>>,
    presets: Seq<Seq<char>>,
) -> Option<Seq<char>> {
    if platform == CompilerPlatform::Windows {
        if presets.contains(DEFAULT_PRESET_WINDOWS@) {
            Some(DEFAULT_PRESET_WINDOWS@)
        } else if presets.contains(LEGACY_PRESET_WINDOWS@) {
            Some(LEGACY_PRESET_WINDOWS@)
        } else {
            None
        }
    } else {
        match preset {
            Some(expected) => if presets.contains(expected) {
                Some(expected)
            } else {
                None
            },
            None => None,
        }
    }
}

/// The first offered preset equal to `expected`.
fn find_preset<'a>(presets: &'a [String], expected: &str) -> (r: Option<&'a str>)
    ensures
        r matches Some(p) ==> p@ == expected@ && sviews(presets@).contains(expected@),
        r is None ==> !sviews(presets@).contains(expected@),
{
    let mut i: usize = 0;
    while i < presets.len()
        invariant
            i <= presets@.len(),
            forall|k: int| 0 <= k < i ==> presets@[k]@ != expected@,
        decreases presets@.len() - i,
    {
        if crate::text::str_eq(presets[i].as_str(), expected) {
            assert(sviews(presets@)[i as int] == expected@);
            return Some(presets[i].as_str());
        }
        i += 1;
    }
    assert forall|k: int| 0 <= k < sviews(presets@).len() implies sviews(presets@)[k]
        != expected@ by {}
    None
}

/// The preset to configure with, among those the SDK offers.
pub fn select_build_preset<'a>(build_platform: &BuildPlatform, presets: &'a [String]) -> (r:
    Option<&'a str>)
    ensures
        osv(r) == spec_select_build_preset(
            build_platform.platform,
            osv(build_platform.preset),
            sviews(presets@),
        ),
{
    if build_platform.platform == CompilerPlatform::Windows {
        match find_preset(presets, DEFAULT_PRESET_WINDOWS) {
            Some(p) => Some(p),
            None => find_preset(presets, LEGACY_PRESET_WINDOWS),
        }
    } else {
        match build_platform.preset {
            Some(expected) => find_preset(presets, expected),
            None => None,
        }
    }
}

/// `home/.boghma/C4DPluginCompiler`, or an error when there is no home.
pub open spec fn spec_local_data_root(home: Option<Seq<char>>) -> Result<Seq<char>, Seq<char>> {
    match home {
        Some(h) => Ok(path_join(path_join(h, ".boghma"@), APP_CACHE_FOLDER@)),
        None => Err("Failed to resolve home directory"@),
    }
}

/// The view of a result of text.
pub open spec fn srv(r: Result<String, String>) -> Result<Seq<char>, Seq<char>> {
    match r {
        Ok(v) => Ok(v@),
        Err(e) => Err(e@),
    }
}

/// The folder that holds build directories, module links and shims, below
/// the user's home directory `home`.
pub fn local_data_root(home: Option<&str>) -> (r: Result<String, String>)
    ensures
        srv(r) == spec_local_data_root(osv(home)),
{
    match home {
        Some(h) => {
            let hv = chars_of(h);
            let a = join_str(&hv, ".boghma");
            let b = join_str(&a, APP_CACHE_FOLDER);
            Ok(string_of(&b))
        },
        None => Err(crate::text::owned("Failed to resolve home directory")),
    }
}

/// Characters kept by `sanitize_path_name`.
pub open spec fn keeps_in_name(c: char) -> bool {
    ('a' <= c && c <= 'z') || ('A' <= c && c <= 'Z') || ('0' <= c && c <= '9') || c == '_' || c
        == '-' || c == '.'
}

/// Every character outside `[A-Za-z0-9_.-]` turned into `_`.
pub open spec fn name_chars(s: Seq<char>) -> Seq<char> {
    s.map_values(|c: char| if keeps_in_name(c) { c } else { '_' })
}

/// `s` without leading and trailing `c` (`str::trim_matches`).
pub open spec fn trim_char(s: Seq<char>, c: char) -> Seq<char>
    decreases s.len(),
{
    if s.len() > 0 && s[0] == c {
        trim_char(s.drop_first(), c)
    } else if s.len() > 0 && s.last() == c {
        trim_char(s.drop_last(), c)
    } else {
        s
    }
}

/// A file-system-safe name: `[A-Za-z0-9_.-]` kept, anything else `_`, and
/// no leading or trailing `_`.
pub open spec fn spec_sanitize_path_name(s: Seq<char>) -> Seq<char> {
    trim_char(name_chars(s), '_')
}

proof fn lemma_trim_char_range(s: Seq<char>, c: char, i: int, j: int)
    requires
        0 <= i <= j <= s.len(),
        forall|k: int| 0 <= k < i ==> s[k] == c,
        forall|k: int| j <= k < s.len() ==> s[k] == c,
        i < j ==> s[i] != c && s[j - 1] != c,
    ensures
        trim_char(s, c) == s.subrange(i, j),
    decreases s.len(),
{
    if s.len() > 0 && s[0] == c {
        let t = s.drop_first();
        if i == 0 {
            lemma_trim_char_range(t, c, 0, 0);
            assert(t.subrange(0, 0) =~= s.subrange(i, j));
        } else {
            lemma_trim_char_range(t, c, i - 1, j - 1);
            assert(t.subrange(i - 1, j - 1) =~= s.subrange(i, j));
        }
    } else if s.len() > 0 && s.last() == c {
        let t = s.drop_last();
        if j == s.len() {
            assert(i == j);
            assert(s[0] == c);
        }
        lemma_trim_char_range(t, c, i, j);
        assert(t.subrange(i, j) =~= s.subrange(i, j));
    } else {
        if s.len() > 0 {
            if j < s.len() {
                assert(s[s.len() - 1] == c);
            }
            if i > 0 {
                assert(s[0] == c);
            }
        }
        assert(s.subrange(i, j) =~= s);
    }
}

/// What trimming leaves: a stretch of `s` that neither starts nor ends
/// with `c`.
proof fn lemma_trim_char_shape(s: Seq<char>, c: char) -> (r: (int, int))
    ensures
        0 <= r.0 <= r.1 <= s.len(),
        trim_char(s, c) == s.subrange(r.0, r.1),
        trim_char(s, c).len() > 0 ==> trim_char(s, c)[0] != c && trim_char(s, c).last() != c,
    decreases s.len(),
{
    if s.len() > 0 && s[0] == c {
        let t = s.drop_first();
        let (i, j) = lemma_trim_char_shape(t, c);
        assert(t.subrange(i, j) =~= s.subrange(i + 1, j + 1));
        (i + 1, j + 1)
    } else if s.len() > 0 && s.last() == c {
        let t = s.drop_last();
        let (i, j) = lemma_trim_char_shape(t, c);
        assert(t.subrange(i, j) =~= s.subrange(i, j));
        (i, j)
    } else {
        assert(s.subrange(0, s.len() as int) =~= s);
        (0, s.len() as int)
    }
}

/// Sanitized names are safe and stable: only `[A-Za-z0-9_.-]`, no leading
/// or trailing `_`, never longer than the name they come from, and
/// sanitizing them again changes nothing.
pub proof fn law_sanitized_names_are_safe(value: Seq<char>)
    ensures
        spec_sanitize_path_name(value).len() <= value.len(),
        forall|k: int|
            0 <= k < spec_sanitize_path_name(value).len() ==> keeps_in_name(
                #[trigger] spec_sanitize_path_name(value)[k],
            ),
        spec_sanitize_path_name(value).len() > 0 ==> spec_sanitize_path_name(value)[0] != '_'
            && spec_sanitize_path_name(value).last() != '_',
        spec_sanitize_path_name(spec_sanitize_path_name(value)) == spec_sanitize_path_name(value),
{
    let n = name_chars(value);
    let r = spec_sanitize_path_name(value);
    let (i, j) = lemma_trim_char_shape(n, '_');
    assert forall|k: int| 0 <= k < r.len() implies keeps_in_name(#[trigger] r[k]) by {
        assert(r[k] == n[i + k]);
    }
    assert(name_chars(r) =~= r);
    if r.len() > 0 {
        assert(trim_char(r, '_') == r);
    } else {
        assert(trim_char(r, '_') == r);
    }
}

/// A safe folder name derived from `value`.
pub fn sanitize_path_name(value: &str) -> (r: String)
    ensures
        r@ == spec_sanitize_path_name(value@),
{
    let v = chars_of(value);
    let mut out: Vec<char> = Vec::new();
    let mut i: usize = 0;
    while i < v.len()
        invariant
            i <= v.len(),
            out@ == name_chars(v@.take(i as int)),
        decreases v.len() - i,
    {
        let c = v[i];
        let keep = ('a' <= c && c <= 'z') || ('A' <= c && c <= 'Z') || ('0' <= c && c <= '9')
            || c == '_' || c == '-' || c == '.';
        out.push(if keep { c } else { '_' });
        assert(name_chars(v@.take(i + 1)) =~= name_chars(v@.take(i as int)).push(
            if keeps_in_name(c) { c } else { '_' },
        ));
        i += 1;
    }
    assert(v@.take(v.len() as int) =~= v@);
    let mut a: usize = 0;
    while a < out.len() && out[a] == '_'
        invariant
            a <= out.len(),
            forall|k: int| 0 <= k < a ==> out@[k] == '_',
        decreases out.len() - a,
    {
        a += 1;
    }
    let mut b: usize = out.len();
    while b > a && out[b - 1] == '_'
        invariant
            a <= b <= out.len(),
            forall|k: int| b <= k < out.len() ==> out@[k] == '_',
        decreases b - a,
    {
        b -= 1;
    }
    proof {
        if a == out.len() {
            assert(b == a);
        }
        lemma_trim_char_range(out@, '_', a as int, b as int);
    }
    let t = slice_chars(&out, a, b);
    string_of(&t)
}

/// The decimal names of the versions `start` through `end`.
pub open spec fn version_range(start: nat, end: nat) -> Seq<Seq<char>>
    recommends
        start <= end,
{
    Seq::new((end - start + 1) as nat, |k: int| dec((start + k) as nat))
}

/// The pieces of a comma-separated list, trimmed, empty ones dropped.
pub open spec fn comma_items(s: Seq<char>) -> Seq<Seq<char>> {
    split_on(s, ',').map_values(|p: Seq<char>| trim(p)).filter(|p: Seq<char>| p.len() > 0)
}

/// The versions a version field names: `A-B` with `A <= B` names every
/// version from `A` to `B`; otherwise the field is a comma-separated list.
pub open spec fn spec_parse_version_list(s: Seq<char>) -> Seq<Seq<char>> {
    let range = match find_char(s, '-') {
        Some(i) => match (parse_u32(trim(s.take(i))), parse_u32(trim(s.skip(i + 1)))) {
            (Some(a), Some(b)) => if a <= b {
                Some(version_range(a as nat, b as nat))
            } else {
                None
            },
            _ => None,
        },
        None => None,
    };
    match range {
        Some(r) => r,
        None => comma_items(s),
    }
}

/// The trimmed, non-empty pieces of a comma-separated list.
fn comma_list(v: &Vec<char>) -> (r: Vec<String>)
    ensures
        sviews(r@) == comma_items(v@),
{
    let pieces = split_chars(v, ',');
    let ghost tp = vviews(pieces@).map_values(|p: Seq<char>| trim(p));
    let mut r: Vec<String> = Vec::new();
    let mut i: usize = 0;
    while i < pieces.len()
        invariant
            i <= pieces.len(),
            vviews(pieces@) == split_on(v@, ','),
            tp == vviews(pieces@).map_values(|p: Seq<char>| trim(p)),
            sviews(r@) == tp.take(i as int).filter(|p: Seq<char>| p.len() > 0),
        decreases pieces.len() - i,
    {
        let t = trim_chars(&pieces[i]);
        let ghost before = sviews(r@);
        proof {
            let f = |p: Seq<char>| p.len() > 0;
            assert(tp.take(i as int).push(tp[i as int]) =~= tp.take(i + 1));
            tp.take(i as int).lemma_filter_push(tp[i as int], f);
            assert(tp[i as int] == t@);
        }
        if t.len() > 0 {
            r.push(string_of(&t));
            assert(sviews(r@) =~= before.push(t@));
        } else {
            assert(sviews(r@) =~= before);
        }
        i += 1;
    }
    assert(tp.take(pieces.len() as int) =~= tp);
    r
}

/// The names of the versions `start..=end`.
fn range_list(start: u32, end: u32) -> (r: Vec<String>)
    requires
        start <= end,
    ensures
        sviews(r@) == version_range(start as nat, end as nat),
{
    let mut r: Vec<String> = Vec::new();
    let mut cur: u64 = start as u64;
    while cur <= end as u64
        invariant
            start <= cur <= end as u64 + 1,
            r@.len() == cur - start,
            forall|k: int| 0 <= k < r@.len() ==> #[trigger] r@[k]@ == dec((start + k) as nat),
        decreases end as u64 + 1 - cur,
    {
        r.push(crate::text::decimal_string(cur));
        cur += 1;
    }
    assert(sviews(r@) =~= version_range(start as nat, end as nat));
    r
}

/// The versions a version field names (`2024-2026` or `2025, 2026`).
pub fn parse_version_list(value: &str) -> (r: Vec<String>)
    ensures
        sviews(r@) == spec_parse_version_list(value@),
{
    let v = chars_of(value);
    if let Some(i) = find_char_in(&v, '-') {
        proof {
            crate::text::lemma_find_from_some(v@, seq!['-'], 0);
        }
        let left = slice_chars(&v, 0, i);
        let right = slice_chars(&v, i + 1, v.len());
        assert(left@ =~= v@.take(i as int));
        assert(right@ =~= v@.skip(i + 1));
        let lt = trim_chars(&left);
        let rt = trim_chars(&right);
        match (parse_u32_chars(&lt), parse_u32_chars(&rt)) {
            (Some(a), Some(b)) => {
                if a <= b {
                    return range_list(a, b);
                }
            },
            _ => {},
        }
    }
    comma_list(&v)
}

/// `Required directory not found: <path>` unless `path` is a directory.
pub open spec fn spec_require_dir(fs: Seq<crate::fs::EntryView>, path: Seq<char>) -> Result<
    (),
    Seq<char>,
> {
    if fs_is_dir(fs, path) {
        Ok(())
    } else {
        Err("Required directory not found: "@ + path)
    }
}

/// `Required file not found: <path>` unless `path` is a file.
pub open spec fn spec_require_file(fs: Seq<crate::fs::EntryView>, path: Seq<char>) -> Result<
    (),
    Seq<char>,
> {
    if fs_is_file(fs, path) {
        Ok(())
    } else {
        Err("Required file not found: "@ + path)
    }
}

/// Fails unless `path` is a directory.
pub fn require_dir(fs: &FsSnapshot, path: &str) -> (r: Result<(), String>)
    ensures
        crate::types::rv(r) == spec_require_dir(fs@, path@),
{
    let p = chars_of(path);
    if fs.is_dir(&p) {
        Ok(())
    } else {
        let m = chars_of("Required directory not found: ");
        Err(string_of(&concat(&m, &p)))
    }
}

/// Fails unless `path` is a file.
pub fn require_file(fs: &FsSnapshot, path: &str) -> (r: Result<(), String>)
    ensures
        crate::types::rv(r) == spec_require_file(fs@, path@),
{
    let p = chars_of(path);
    if fs.is_file(&p) {
        Ok(())
    } else {
        let m = chars_of("Required file not found: ");
        Err(string_of(&concat(&m, &p)))
    }
}

} // verus!
