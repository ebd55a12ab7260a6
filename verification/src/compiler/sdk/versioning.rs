//! SDK version numbers, archive names and download addresses.

use vstd::prelude::*;

use super::MAXON_BASE_URL;
use crate::compiler::{osv, sviews};
use crate::paths::file_name;
use crate::text::{
    chars_of, concat, contains, dec, find_char, find_char_in, has_seq, parse_u32, parse_u32_chars,
    replace_char, replace_char_in, slice_chars, sort_dedup, sort_dedup_vec, split_on, string_of,
    to_lowercase, trim, trim_chars, text_lowercase, vviews,
};

verus! {

/// The archive name of the known SDK releases.
pub open spec fn spec_known_sdk_archive_name(version: Seq<char>) -> Option<Seq<char>> {
    if version == "2024"@ || version == "2024.4"@ {
        Some("Cinema_4D_CPP_SDK_2024_4_0.zip"@)
    } else if version == "2025"@ {
        Some("Cinema_4D_CPP_SDK_2025_0_1.zip"@)
    } else if version == "2026"@ {
        Some("Cinema_4D_CPP_SDK_2026_0_0.zip"@)
    } else {
        None
    }
}

/// The archive name of a known SDK release.
pub fn known_sdk_archive_name(version: &str) -> (r: Option<&'static str>)
    ensures
        osv(r) == spec_known_sdk_archive_name(version@),
{
    if crate::text::str_eq(version, "2024") || crate::text::str_eq(version, "2024.4") {
        Some("Cinema_4D_CPP_SDK_2024_4_0.zip")
    } else if crate::text::str_eq(version, "2025") {
        Some("Cinema_4D_CPP_SDK_2025_0_1.zip")
    } else if crate::text::str_eq(version, "2026") {
        Some("Cinema_4D_CPP_SDK_2026_0_0.zip")
    } else {
        None
    }
}

/// `<base>/downloads/<archive>`.
pub open spec fn download_url_for(archive: Seq<char>) -> Seq<char> {
    MAXON_BASE_URL@ + "/downloads/"@ + archive
}

fn download_url_of(archive: &str) -> (r: Vec<char>)
    ensures
        r@ == download_url_for(archive@),
{
    let a = chars_of(MAXON_BASE_URL);
    let b = chars_of("/downloads/");
    let c = chars_of(archive);
    let ab = concat(&a, &b);
    concat(&ab, &c)
}

/// The official download address of a known SDK release.
pub open spec fn spec_generated_download_url_if_known(version: Seq<char>) -> Option<Seq<char>> {
    match spec_known_sdk_archive_name(version) {
        Some(a) => Some(download_url_for(a)),
        None => None,
    }
}

/// The official download address of a known SDK release.
pub fn generated_download_url_if_known(version: &str) -> (r: Option<String>)
    ensures
        crate::types::ov(r) == spec_generated_download_url_if_known(version@),
{
    match known_sdk_archive_name(version) {
        Some(a) => Some(string_of(&download_url_of(a))),
        None => None,
    }
}

/// The download candidates for a version: the official address of a known
/// release, nothing otherwise.
pub open spec fn spec_sdk_download_candidates(version: Seq<char>) -> Seq<Seq<char>> {
    match spec_generated_download_url_if_known(version) {
        Some(u) => seq![u],
        None => Seq::<Seq<char>>::empty(),
    }
}

pub fn sdk_download_candidates(version: &str) -> (r: Vec<String>)
    ensures
        sviews(r@) == spec_sdk_download_candidates(version@),
{
    let mut r: Vec<String> = Vec::new();
    match generated_download_url_if_known(version) {
        Some(u) => {
            r.push(u);
        },
        None => {},
    }
    assert(sviews(r@) =~= spec_sdk_download_candidates(version@));
    r
}

/// The archive name the official site would use for `version`:
/// `Cinema_4D_CPP_SDK_<version with _>_0_0.zip`.
pub open spec fn generic_archive_name(version: Seq<char>) -> Seq<char> {
    "Cinema_4D_CPP_SDK_"@ + replace_char(version, '.', '_') + "_0_0.zip"@
}

fn generic_archive_name_of(version: &str) -> (r: Vec<char>)
    ensures
        r@ == generic_archive_name(version@),
{
    let a = chars_of("Cinema_4D_CPP_SDK_");
    let v = chars_of(version);
    let b = replace_char_in(&v, '.', '_');
    let c = chars_of("_0_0.zip");
    let ab = concat(&a, &b);
    concat(&ab, &c)
}

/// The download address of `version`, known or derived.
pub open spec fn spec_generated_download_url(version: Seq<char>) -> Seq<char> {
    match spec_generated_download_url_if_known(version) {
        Some(u) => u,
        None => MAXON_BASE_URL@ + "/downloads/"@ + generic_archive_name(version),
    }
}

pub fn generated_download_url(version: &str) -> (r: String)
    ensures
        r@ == spec_generated_download_url(version@),
{
    match generated_download_url_if_known(version) {
        Some(u) => u,
        None => {
            let a = chars_of(MAXON_BASE_URL);
            let b = chars_of("/downloads/");
            let c = generic_archive_name_of(version);
            let ab = concat(&a, &b);
            string_of(&concat(&ab, &c))
        },
    }
}

/// The archive file name of `version`, known or derived.
pub open spec fn spec_sdk_archive_name(version: Seq<char>) -> Seq<char> {
    match spec_known_sdk_archive_name(version) {
        Some(a) => a,
        None => generic_archive_name(version),
    }
}

pub fn sdk_archive_name(version: &str) -> (r: String)
    ensures
        r@ == spec_sdk_archive_name(version@),
{
    match known_sdk_archive_name(version) {
        Some(a) => crate::text::owned(a),
        None => string_of(&generic_archive_name_of(version)),
    }
}

/// The text before the first `.` (the whole text when there is none).
pub open spec fn major_part(version: Seq<char>) -> Seq<char> {
    split_on(version, '.')[0]
}

pub fn major_part_of(version: &Vec<char>) -> (r: Vec<char>)
    ensures
        r@ == major_part(version@),
{
    let pieces = crate::text::split_chars(version, '.');
    proof {
        crate::text::lemma_split_on_nonempty(version@, '.');
    }
    crate::text::copy_chars(&pieces[0])
}

/// The SDK version that an installed Cinema 4D version builds against.
pub open spec fn spec_installed_c4d_sdk_version(version: Seq<char>) -> Option<Seq<char>> {
    let major = major_part(version);
    if major == "2024"@ {
        Some("2024.4"@)
    } else if major == "2025"@ {
        Some("2025"@)
    } else if major == "2026"@ {
        Some("2026"@)
    } else {
        None
    }
}

pub fn installed_c4d_sdk_version(version: &str) -> (r: Option<String>)
    ensures
        crate::types::ov(r) == spec_installed_c4d_sdk_version(version@),
{
    let v = chars_of(version);
    let major = major_part_of(&v);
    let m = string_of(&major);
    if crate::text::str_eq(m.as_str(), "2024") {
        Some(crate::text::owned("2024.4"))
    } else if crate::text::str_eq(m.as_str(), "2025") {
        Some(crate::text::owned("2025"))
    } else if crate::text::str_eq(m.as_str(), "2026") {
        Some(crate::text::owned("2026"))
    } else {
        None
    }
}

/// A path compared case-insensitively and with `/` separators.
pub open spec fn spec_normalize_path_key(path: Seq<char>) -> Seq<char> {
    text_lowercase(replace_char(path, '\\', '/'))
}

pub fn normalize_path_key(path: &str) -> (r: String)
    ensures
        r@ == spec_normalize_path_key(path@),
{
    let v = chars_of(path);
    let w = replace_char_in(&v, '\\', '/');
    let s = string_of(&w);
    to_lowercase(s.as_str())
}

/// The texts that, lower-cased, identify `version` inside a path.
pub open spec fn version_token_candidates(version: Seq<char>) -> Seq<Seq<char>> {
    let major = major_part(version);
    let base = seq![
        text_lowercase(version),
        text_lowercase(replace_char(version, '.', '_')),
        text_lowercase(replace_char(version, '.', '-')),
    ];
    if version == major {
        base + seq![
            text_lowercase(major + "_0_0"@),
            text_lowercase(major + "-0-0"@),
            text_lowercase("cinema_4d_cpp_sdk_"@ + major),
            text_lowercase("cinema 4d "@ + major),
        ]
    } else {
        base + seq![
            text_lowercase("cinema_4d_cpp_sdk_"@ + replace_char(version, '.', '_')),
            text_lowercase("cinema 4d "@ + major),
        ]
    }
}

/// The distinct identifying texts of `version`, ascending.
pub open spec fn spec_sdk_version_match_tokens(version: Seq<char>) -> Seq<Seq<char>> {
    sort_dedup(version_token_candidates(version))
}

fn lower_of(v: &Vec<char>) -> (r: Vec<char>)
    ensures
        r@ == text_lowercase(v@),
{
    let s = string_of(v);
    let l = to_lowercase(s.as_str());
    chars_of(l.as_str())
}

fn prefixed(p: &str, v: &Vec<char>) -> (r: Vec<char>)
    ensures
        r@ == p@ + v@,
{
    let a = chars_of(p);
    concat(&a, v)
}

fn suffixed(v: &Vec<char>, p: &str) -> (r: Vec<char>)
    ensures
        r@ == v@ + p@,
{
    let a = chars_of(p);
    concat(v, &a)
}

/// The texts that identify `version` inside a lower-cased path.
pub fn sdk_version_match_tokens(version: &str) -> (r: Vec<String>)
    ensures
        sviews(r@) == spec_sdk_version_match_tokens(version@),
{
    broadcast use crate::text::lemma_vviews_push;

    let v = chars_of(version);
    let major = major_part_of(&v);
    let under = replace_char_in(&v, '.', '_');
    let dash = replace_char_in(&v, '.', '-');
    let mut c: Vec<Vec<char>> = Vec::new();
    c.push(lower_of(&v));
    c.push(lower_of(&under));
    c.push(lower_of(&dash));
    if crate::text::chars_eq(&v, &major) {
        c.push(lower_of(&suffixed(&major, "_0_0")));
        c.push(lower_of(&suffixed(&major, "-0-0")));
        c.push(lower_of(&prefixed("cinema_4d_cpp_sdk_", &major)));
        c.push(lower_of(&prefixed("cinema 4d ", &major)));
    } else {
        c.push(lower_of(&prefixed("cinema_4d_cpp_sdk_", &under)));
        c.push(lower_of(&prefixed("cinema 4d ", &major)));
    }
    assert(vviews(c@) =~= version_token_candidates(version@));
    let sorted = sort_dedup_vec(&c);
    let mut r: Vec<String> = Vec::new();
    let mut i: usize = 0;
    while i < sorted.len()
        invariant
            i <= sorted.len(),
            sviews(r@) == vviews(sorted@).take(i as int),
        decreases sorted.len() - i,
    {
        let ghost prev = r@;
        r.push(string_of(&sorted[i]));
        assert(sviews(r@) == sviews(prev).push(sorted@[i as int]@)) by {
            crate::compiler::lemma_sviews_push(prev, r@.last());
        }
        assert(sviews(r@) =~= vviews(sorted@).take(i + 1));
        i += 1;
    }
    assert(vviews(sorted@).take(sorted.len() as int) =~= vviews(sorted@));
    r
}

/// Some identifying text of `version` occurs in the normalized `path`.
pub open spec fn spec_path_matches_sdk_version(path: Seq<char>, version: Seq<char>) -> bool {
    exists|i: int|
        0 <= i < spec_sdk_version_match_tokens(version).len() && has_seq(
            spec_normalize_path_key(path),
            #[trigger] spec_sdk_version_match_tokens(version)[i],
        )
}

/// Whether `path` names an SDK of `version`.
pub fn path_matches_sdk_version(path: &str, version: &str) -> (r: bool)
    ensures
        r == spec_path_matches_sdk_version(path@, version@),
{
    let key = normalize_path_key(path);
    let kv = chars_of(key.as_str());
    let tokens = sdk_version_match_tokens(version);
    let ghost ts = spec_sdk_version_match_tokens(version@);
    let mut i: usize = 0;
    while i < tokens.len()
        invariant
            i <= tokens.len(),
            sviews(tokens@) == ts,
            ts == spec_sdk_version_match_tokens(version@),
            kv@ == spec_normalize_path_key(path@),
            forall|k: int| 0 <= k < i ==> !has_seq(kv@, #[trigger] ts[k]),
        decreases tokens.len() - i,
    {
        let tv = chars_of(tokens[i].as_str());
        assert(ts[i as int] == tv@);
        if contains(&kv, &tv) {
            assert(0 <= i < ts.len());
            assert(has_seq(spec_normalize_path_key(path@), ts[i as int]));
            return true;
        }
        i += 1;
    }
    false
}

/// The cache folder name of `version`: `.` turned into `_`.
pub open spec fn spec_version_folder(version: Seq<char>) -> Seq<char> {
    replace_char(version, '.', '_')
}

pub fn version_folder(version: &str) -> (r: String)
    ensures
        r@ == spec_version_folder(version@),
{
    let v = chars_of(version);
    string_of(&replace_char_in(&v, '.', '_'))
}

/// `unwrap_or_default` of a parsed number.
pub open spec fn or_zero(o: Option<u32>) -> nat {
    match o {
        Some(v) => v as nat,
        None => 0,
    }
}

/// The ordering key of a version: `R<n>` sorts as `(2000 + n) * 100`,
/// `S<n>` one above that, `major.minor` as `major * 100 + minor`; parts that
/// do not parse count as zero. The value is exact, before any overflow.
pub open spec fn sort_key(version: Seq<char>) -> int {
    let v = trim(version);
    if v.len() >= 2 && (v[0] == 'R' || v[0] == 'r') {
        match parse_u32(trim(v.skip(1))) {
            Some(n) => (2000 + n) * 100,
            None => 0,
        }
    } else if v.len() >= 2 && (v[0] == 'S' || v[0] == 's') {
        match parse_u32(trim(v.skip(1))) {
            Some(n) => (2000 + n) * 100 + 1,
            None => 0,
        }
    } else {
        let parts = split_on(v, '.');
        (or_zero(parse_u32(parts[0])) * 100 + (if parts.len() > 1 {
            or_zero(parse_u32(parts[1]))
        } else {
            0
        })) as int
    }
}

/// The key of `version` is computed without overflow (the arithmetic of
/// `version_sort_key` panics on the others in debug builds).
pub open spec fn sortable(version: Seq<char>) -> bool {
    sort_key(version) <= u32::MAX
}

/// The ordering key of a version (see `sort_key`).
pub fn version_sort_key(version: &str) -> (r: u32)
    requires
        sortable(version@),
    ensures
        r == sort_key(version@),
{
    let raw = chars_of(version);
    let v = trim_chars(&raw);
    if v.len() >= 2 && (v[0] == 'R' || v[0] == 'r') {
        let rest = slice_chars(&v, 1, v.len());
        assert(rest@ =~= v@.skip(1));
        let t = trim_chars(&rest);
        return match parse_u32_chars(&t) {
            Some(n) => (2000 + n) * 100,
            None => 0,
        };
    }
    if v.len() >= 2 && (v[0] == 'S' || v[0] == 's') {
        let rest = slice_chars(&v, 1, v.len());
        assert(rest@ =~= v@.skip(1));
        let t = trim_chars(&rest);
        return match parse_u32_chars(&t) {
            Some(n) => (2000 + n) * 100 + 1,
            None => 0,
        };
    }
    let parts = crate::text::split_chars(&v, '.');
    proof {
        crate::text::lemma_split_on_nonempty(v@, '.');
    }
    let major: u32 = match parse_u32_chars(&parts[0]) {
        Some(n) => n,
        None => 0,
    };
    let minor: u32 = if parts.len() > 1 {
        match parse_u32_chars(&parts[1]) {
            Some(n) => n,
            None => 0,
        }
    } else {
        0
    };
    major * 100 + minor
}

/// Whether `version_sort_key` accepts `version` (its key fits in `u32`).
pub fn version_sort_key_fits(version: &str) -> (r: bool)
    ensures
        r == sortable(version@),
{
    let raw = chars_of(version);
    let v = trim_chars(&raw);
    if v.len() >= 2 && (v[0] == 'R' || v[0] == 'r' || v[0] == 'S' || v[0] == 's') {
        let rest = slice_chars(&v, 1, v.len());
        assert(rest@ =~= v@.skip(1));
        let t = trim_chars(&rest);
        return match parse_u32_chars(&t) {
            Some(n) => n <= 42947672,
            None => true,
        };
    }
    let parts = crate::text::split_chars(&v, '.');
    proof {
        crate::text::lemma_split_on_nonempty(v@, '.');
    }
    let major: u64 = match parse_u32_chars(&parts[0]) {
        Some(n) => n as u64,
        None => 0,
    };
    let minor: u64 = if parts.len() > 1 {
        match parse_u32_chars(&parts[1]) {
            Some(n) => n as u64,
            None => 0,
        }
    } else {
        0
    };
    major * 100 + minor <= 4294967295
}

} // verus!

verus! {

proof fn lemma_trim_plain(s: Seq<char>)
    requires
        s.len() > 0,
        !crate::text::is_ws(s[0]),
        !crate::text::is_ws(s.last()),
    ensures
        trim(s) == s,
{
    assert(crate::text::trim_start(s) == s);
}

proof fn lemma_parse_4(s: Seq<char>)
    requires
        s.len() == 4,
        crate::text::all_digits(s),
    ensures
        parse_u32(s) == Some(
            (((s[0] as int - 48) * 1000 + (s[1] as int - 48) * 100 + (s[2] as int - 48) * 10 + (
            s[3] as int - 48)) as u32),
        ),
{
    assert(crate::text::without_plus(s) == s);
    assert(s.drop_last().drop_last().drop_last().drop_last().len() == 0);
    reveal_with_fuel(crate::text::digits_value, 5);
}

proof fn lemma_split_no_sep(s: Seq<char>, c: char)
    requires
        forall|i: int| 0 <= i < s.len() ==> s[i] != c,
    ensures
        split_on(s, c) == seq![s],
    decreases s.len(),
{
    if s.len() > 0 {
        let d = s.drop_last();
        assert forall|i: int| 0 <= i < d.len() implies d[i] != c by {
            assert(d[i] == s[i]);
        }
        lemma_split_no_sep(d, c);
        assert(s[s.len() - 1] != c);
        let r = seq![d];
        assert(split_on(s, c) == r.update(0, r.last().push(s.last())));
        assert(d.push(s.last()) =~= s);
        assert(r.update(0, r.last().push(s.last())) =~= seq![s]);
    } else {
        assert(s =~= Seq::<char>::empty());
    }
}

proof fn lemma_parse_1(s: Seq<char>)
    requires
        s.len() == 1,
        crate::text::all_digits(s),
    ensures
        parse_u32(s) == Some((s[0] as int - 48) as u32),
{
    assert(crate::text::is_digit(s[0]));
    assert(crate::text::without_plus(s) == s);
    assert(s.drop_last() =~= Seq::<char>::empty());
    assert(crate::text::digits_value(Seq::<char>::empty()) == 0);
    assert(crate::text::digits_value(s) == (s[0] as int - 48));
}

/// The SDK versions the compiler knows have keys that fit.
pub proof fn lemma_known_sort_keys()
    ensures
        sort_key("2024.4"@) == 202404,
        sort_key("2025"@) == 202500,
        sort_key("2026"@) == 202600,
{
    reveal_strlit("2025");
    reveal_strlit("2026");
    reveal_strlit("2024.4");
    let a = "2025"@;
    lemma_trim_plain(a);
    lemma_split_no_sep(a, '.');
    lemma_parse_4(a);
    let b = "2026"@;
    lemma_trim_plain(b);
    lemma_split_no_sep(b, '.');
    lemma_parse_4(b);
    let c = "2024.4"@;
    lemma_trim_plain(c);
    let major = c.take(4);
    lemma_split_no_sep(major, '.');
    assert(c.drop_last().drop_last() =~= major);
    reveal_with_fuel(split_on, 3);
    let four = c.skip(5);
    assert(split_on(c.drop_last(), '.') =~= seq![major, Seq::<char>::empty()]);
    assert(c.last() != '.');
    assert(Seq::<char>::empty().push(c.last()) =~= four);
    let r = seq![major, Seq::<char>::empty()];
    assert(split_on(c, '.') == r.update(1, r.last().push(c.last())));
    assert(r.update(1, r.last().push(c.last())) =~= seq![major, four]);
    lemma_parse_4(major);
    lemma_parse_1(four);
}

} // verus!

verus! {

/// The first piece of `s` split at `c` is the text before the first `c`
/// (found at `i`).
pub proof fn lemma_split_first_piece(s: Seq<char>, c: char, i: int)
    requires
        0 <= i < s.len(),
        s[i] == c,
        forall|k: int| 0 <= k < i ==> s[k] != c,
    ensures
        split_on(s, c).len() >= 2,
        split_on(s, c)[0] == s.take(i),
    decreases s.len(),
{
    let d = s.drop_last();
    crate::text::lemma_split_on_nonempty(d, c);
    let r = split_on(d, c);
    if i < s.len() - 1 {
        assert(d[i] == c);
        assert forall|k: int| 0 <= k < i implies d[k] != c by {
            assert(d[k] == s[k]);
        }
        lemma_split_first_piece(d, c, i);
        assert(d.take(i) =~= s.take(i));
        if s.last() == c {
            assert(split_on(s, c) == r.push(Seq::<char>::empty()));
        } else {
            assert(split_on(s, c) == r.update(r.len() - 1, r.last().push(s.last())));
        }
    } else {
        assert forall|k: int| 0 <= k < d.len() implies d[k] != c by {
            assert(d[k] == s[k]);
        }
        lemma_split_no_sep(d, c);
        assert(s.take(i) =~= d);
        assert(split_on(s, c) == seq![d].push(Seq::<char>::empty()));
    }
}

/// The major part of a version is the text before its first `.` (at `i`),
/// or the whole version when it has none (`i` is its length).
pub proof fn lemma_major_part(version: Seq<char>, i: int)
    requires
        0 <= i <= version.len(),
        i < version.len() ==> version[i] == '.',
        forall|k: int| 0 <= k < i ==> version[k] != '.',
    ensures
        major_part(version) == version.take(i),
{
    if i < version.len() {
        lemma_split_first_piece(version, '.', i);
    } else {
        lemma_split_no_sep(version, '.');
        assert(version.take(i) =~= version);
    }
}

/// A folder named after Cinema 4D's major release identifies every version
/// of that release: the match texts of each version hold the lower-cased
/// `cinema 4d <major>`, with or without a minor part, so a path naming
/// `Cinema 4D <major>` matches the version. They also hold the version
/// itself and the version with `_` for `.`, lower-cased, each once, in
/// ascending order.
pub proof fn law_match_tokens_name_the_major_release(version: Seq<char>, path: Seq<char>)
    ensures
        spec_sdk_version_match_tokens(version).contains(
            text_lowercase("cinema 4d "@ + major_part(version)),
        ),
        spec_sdk_version_match_tokens(version).contains(text_lowercase(version)),
        spec_sdk_version_match_tokens(version).contains(
            text_lowercase(replace_char(version, '.', '_')),
        ),
        crate::text::strictly_ascending(spec_sdk_version_match_tokens(version)),
        has_seq(spec_normalize_path_key(path), text_lowercase("cinema 4d "@ + major_part(version)))
            ==> spec_path_matches_sdk_version(path, version),
{
    let t = text_lowercase("cinema 4d "@ + major_part(version));
    let c = version_token_candidates(version);
    if version == major_part(version) {
        assert(c[6] == t);
    } else {
        assert(c[4] == t);
    }
    assert(c.contains(t));
    assert(c[0] == text_lowercase(version));
    assert(c[1] == text_lowercase(replace_char(version, '.', '_')));
    assert(c.contains(text_lowercase(version)));
    assert(c.contains(text_lowercase(replace_char(version, '.', '_'))));
    crate::text::lemma_sort_dedup(c);
    let tokens = spec_sdk_version_match_tokens(version);
    assert(tokens.contains(t));
    if has_seq(spec_normalize_path_key(path), t) {
        let i = choose|i: int| 0 <= i < tokens.len() && tokens[i] == t;
        assert(has_seq(spec_normalize_path_key(path), tokens[i]));
    }
}

/// An installed Cinema 4D builds against an SDK of its own major release:
/// the SDK version has the installed version's major part; every release
/// the compiler knows (2024, 2025, 2026) has one, and 2024 builds against
/// 2024.4.
pub proof fn law_installed_sdk_version_keeps_the_major(version: Seq<char>)
    ensures
        spec_installed_c4d_sdk_version(version) matches Some(sdk) ==> major_part(sdk) == major_part(
            version,
        ),
        major_part(version) == "2024"@ ==> spec_installed_c4d_sdk_version(version) == Some(
            "2024.4"@,
        ),
        major_part(version) == "2025"@ || major_part(version) == "2026"@
            ==> spec_installed_c4d_sdk_version(version) == Some(major_part(version)),
{
    reveal_strlit("2024");
    reveal_strlit("2025");
    reveal_strlit("2026");
    reveal_strlit("2024.4");
    let a = "2024.4"@;
    assert(a[4] == '.');
    assert forall|k: int| 0 <= k < 4 implies a[k] != '.' by {}
    lemma_major_part(a, 4);
    assert(a.take(4) =~= "2024"@);
    lemma_major_part("2025"@, 4);
    assert("2025"@.take(4) =~= "2025"@);
    lemma_major_part("2026"@, 4);
    assert("2026"@.take(4) =~= "2026"@);
}

} // verus!
