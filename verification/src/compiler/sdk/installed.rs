//! Cinema 4D installations on this machine and the `sdk.zip` they ship.

use vstd::prelude::*;

use super::versioning::{
    generated_download_url, installed_c4d_sdk_version, normalize_path_key, sort_key, sortable,
    spec_generated_download_url, spec_installed_c4d_sdk_version, spec_normalize_path_key,
    version_sort_key,
};
use crate::paths::{extension, extension_of, file_name, file_name_of, parent, parent_of};
use crate::text::{
    all_digits, chars_eq_ignore_ascii_case, chars_of, concat, contains, ends_with,
    eq_ignore_ascii_case, find, find_seq, has_seq, is_digit, lines, lines_of, slice_chars,
    starts_with, string_of, to_lowercase, trim, trim_chars, text_lowercase, vviews,
};
use crate::types::InstalledC4dVersion;
use crate::utils::platform::HostOs;

verus! {

/// How many bytes UTF-8 uses for `c`.
pub open spec fn utf8_len(c: char) -> nat {
    if (c as int) < 0x80 {
        1
    } else if (c as int) < 0x800 {
        2
    } else if (c as int) < 0x10000 {
        3
    } else {
        4
    }
}

/// The UTF-8 length of `s` in bytes.
pub open spec fn byte_len(s: Seq<char>) -> nat
    decreases s.len(),
{
    if s.len() == 0 {
        0
    } else {
        utf8_len(s[0]) + byte_len(s.drop_first())
    }
}

/// `s` without every trailing `.app` (`trim_end_matches(".app")`).
pub open spec fn strip_app(s: Seq<char>) -> Seq<char>
    decreases s.len(),
{
    if s.len() >= 4 && ".app"@.is_suffix_of(s) {
        strip_app(s.take(s.len() - 4))
    } else {
        s
    }
}

/// The name part that carries the version: trimmed, `.app` removed,
/// trimmed again.
pub open spec fn version_name(name: Seq<char>) -> Seq<char> {
    trim(strip_app(trim(name)))
}

/// The outcome of looking for a version id at one place in a name.
pub enum VersionScan {
    /// A version id was found.
    Found(Seq<char>),
    /// The byte slice taken there would end inside a character, so the
    /// name has no version id that can be read.
    Fails,
    /// Nothing here: go on.
    Continue,
}

/// `R`, `r`, `S` or `s`: the letters that start `R20`-style release ids.
pub open spec fn release_letter(c: char) -> bool {
    c == 'R' || c == 'r' || c == 'S' || c == 's'
}

/// `char::to_ascii_uppercase` on a release letter.
pub open spec fn upper_letter(c: char) -> char {
    if c == 'r' {
        'R'
    } else if c == 's' {
        'S'
    } else {
        c
    }
}

/// What the release-id scan finds at character `k` of `n`: a release
/// letter with at least three bytes from it on, followed by two ASCII
/// digits, gives the id `R<digits>`; the two-byte slice after the letter
/// must end on a character boundary.
pub open spec fn scan_at(n: Seq<char>, k: int) -> VersionScan {
    let ch = n[k];
    if release_letter(ch) && byte_len(n.skip(k)) >= 3 && k + 1 < n.len() {
        let c1 = n[k + 1];
        if utf8_len(c1) == 1 {
            if k + 2 < n.len() {
                let c2 = n[k + 2];
                if utf8_len(c2) == 1 {
                    if is_digit(c1) && is_digit(c2) {
                        VersionScan::Found(seq![upper_letter(ch), c1, c2])
                    } else {
                        VersionScan::Continue
                    }
                } else {
                    VersionScan::Fails
                }
            } else {
                VersionScan::Continue
            }
        } else if utf8_len(c1) == 2 {
            VersionScan::Continue
        } else {
            VersionScan::Fails
        }
    } else {
        VersionScan::Continue
    }
}

/// The release-id scan from character `k` on.
pub open spec fn scan_from(n: Seq<char>, k: int) -> VersionScan
    decreases n.len() - k,
{
    if k < 0 || k >= n.len() {
        VersionScan::Continue
    } else {
        match scan_at(n, k) {
            VersionScan::Continue => scan_from(n, k + 1),
            other => other,
        }
    }
}

/// The year-id step: the four bytes from the first `20` when they are
/// ASCII digits; `Fails` when that slice ends inside a character.
pub open spec fn year_scan(n: Seq<char>) -> VersionScan {
    match find_seq(n, "20"@) {
        Some(q) => if byte_len(n.skip(q)) >= 4 && q + 2 < n.len() {
            let c = n[q + 2];
            if utf8_len(c) == 1 {
                if q + 3 < n.len() {
                    let d = n[q + 3];
                    if utf8_len(d) == 1 {
                        let rest = n.subrange(q, q + 4);
                        if all_digits(rest) {
                            VersionScan::Found(rest)
                        } else {
                            VersionScan::Continue
                        }
                    } else {
                        VersionScan::Fails
                    }
                } else {
                    VersionScan::Continue
                }
            } else if utf8_len(c) == 2 {
                VersionScan::Continue
            } else {
                VersionScan::Fails
            }
        } else {
            VersionScan::Continue
        },
        None => VersionScan::Continue,
    }
}

/// The version id in an installation folder name: a release id such as
/// `R25`, else a year such as `2025`, else the trimmed name. `None` marks
/// the names whose scan would slice inside a character.
pub open spec fn spec_parse_c4d_version_id(name: Seq<char>) -> Option<Seq<char>> {
    let n = version_name(name);
    match scan_from(n, 0) {
        VersionScan::Found(v) => Some(v),
        VersionScan::Fails => None,
        VersionScan::Continue => match year_scan(n) {
            VersionScan::Found(v) => Some(v),
            VersionScan::Fails => None,
            VersionScan::Continue => Some(n),
        },
    }
}

fn utf8_len_of(c: char) -> (r: u128)
    ensures
        r == utf8_len(c),
{
    let x = c as u32;
    if x < 0x80 {
        1
    } else if x < 0x800 {
        2
    } else if x < 0x10000 {
        3
    } else {
        4
    }
}

proof fn lemma_byte_len_bound(s: Seq<char>)
    ensures
        byte_len(s) <= 4 * s.len(),
    decreases s.len(),
{
    if s.len() > 0 {
        lemma_byte_len_bound(s.drop_first());
    }
}

proof fn lemma_byte_len_skip(s: Seq<char>, k: int)
    requires
        0 <= k < s.len(),
    ensures
        byte_len(s.skip(k)) == utf8_len(s[k]) + byte_len(s.skip(k + 1)),
{
    assert(s.skip(k).drop_first() =~= s.skip(k + 1));
}

/// The byte lengths of every suffix of `n`: entry `k` is `byte_len(n[k..])`.
fn suffix_byte_lens(n: &Vec<char>) -> (r: Vec<u128>)
    ensures
        r.len() == n.len() + 1,
        forall|k: int| 0 <= k <= n.len() ==> #[trigger] r@[k] == byte_len(n@.skip(k)),
{
    let mut rev: Vec<u128> = Vec::new();
    let mut acc: u128 = 0;
    let mut j: usize = n.len();
    assert(n@.skip(j as int).len() == 0);
    rev.push(0);
    while j > 0
        invariant
            j <= n.len(),
            rev.len() == n.len() - j + 1,
            acc == byte_len(n@.skip(j as int)),
            forall|t: int| 0 <= t < rev.len() ==> #[trigger] rev@[t] == byte_len(
                n@.skip(n.len() - t),
            ),
        decreases j,
    {
        proof {
            lemma_byte_len_skip(n@, j - 1);
            lemma_byte_len_bound(n@.skip(j as int));
        }
        acc = acc + utf8_len_of(n[j - 1]);
        j -= 1;
        rev.push(acc);
    }
    let mut r: Vec<u128> = Vec::new();
    let mut k: usize = 0;
    while k <= n.len()
        invariant
            k <= n.len() + 1,
            rev.len() == n.len() + 1,
            r.len() == k,
            forall|t: int| 0 <= t < rev.len() ==> #[trigger] rev@[t] == byte_len(
                n@.skip(n.len() - t),
            ),
            forall|t: int| 0 <= t < k ==> #[trigger] r@[t] == byte_len(n@.skip(t)),
        decreases n.len() + 1 - k,
    {
        r.push(rev[n.len() - k]);
        k += 1;
    }
    r
}

fn upper_letter_of(c: char) -> (r: char)
    ensures
        r == upper_letter(c),
{
    if c == 'r' {
        'R'
    } else if c == 's' {
        'S'
    } else {
        c
    }
}

/// `s` without every trailing `.app`.
fn strip_app_chars(s: &Vec<char>) -> (r: Vec<char>)
    ensures
        r@ == strip_app(s@),
{
    let suffix = chars_of(".app");
    let mut end: usize = s.len();
    assert(s@.take(end as int) =~= s@);
    loop
        invariant
            end <= s.len(),
            suffix@ == ".app"@,
            strip_app(s@) == strip_app(s@.take(end as int)),
        decreases end,
    {
        let cur = slice_chars(s, 0, end);
        assert(cur@ =~= s@.take(end as int));
        if end >= 4 && crate::text::ends_with(&cur, &suffix) {
            assert(s@.take(end as int).take(end - 4) =~= s@.take(end - 4));
            end = end - 4;
        } else {
            return cur;
        }
    }
}

/// The version id in an installation folder name, or `None` for the names
/// on which the scan would slice inside a character.
fn version_id_of(name: &str) -> (r: Option<String>)
    ensures
        r matches Some(v) ==> spec_parse_c4d_version_id(name@) == Some(v@),
        r is None ==> spec_parse_c4d_version_id(name@) is None,
{
    let raw = chars_of(name);
    let t1 = trim_chars(&raw);
    let t2 = strip_app_chars(&t1);
    let n = trim_chars(&t2);
    let lens = suffix_byte_lens(&n);
    let mut k: usize = 0;
    assert(n@ == version_name(name@));
    while k < n.len()
        invariant
            k <= n.len(),
            n@ == version_name(name@),
            lens.len() == n.len() + 1,
            forall|t: int| 0 <= t <= n.len() ==> #[trigger] lens@[t] == byte_len(n@.skip(t)),
            scan_from(n@, 0) == scan_from(n@, k as int),
        decreases n.len() - k,
    {
        assert(scan_from(n@, k as int) == match scan_at(n@, k as int) {
            VersionScan::Continue => scan_from(n@, k + 1),
            other => other,
        });
        let ch = n[k];
        let is_letter = ch == 'R' || ch == 'r' || ch == 'S' || ch == 's';
        if is_letter && lens[k] >= 3 && k + 1 < n.len() {
            let c1 = n[k + 1];
            let l1 = utf8_len_of(c1);
            if l1 == 1 {
                if k + 2 < n.len() {
                    let c2 = n[k + 2];
                    if utf8_len_of(c2) == 1 {
                        if '0' <= c1 && c1 <= '9' && '0' <= c2 && c2 <= '9' {
                            let mut out: Vec<char> = Vec::new();
                            out.push(upper_letter_of(ch));
                            out.push(c1);
                            out.push(c2);
                            assert(out@ =~= seq![upper_letter(ch), c1, c2]);
                            return Some(string_of(&out));
                        }
                    } else {
                        return None;
                    }
                }
            } else if l1 != 2 {
                return None;
            }
        }
        k += 1;
    }
    // The release-id scan found nothing: try a year.
    let twenty = chars_of("20");
    match find(&n, &twenty) {
        Some(q) => {
            proof {
                crate::text::lemma_find_from_some(n@, twenty@, 0);
            }
            if lens[q] >= 4 && q + 2 < n.len() {
                let c = n[q + 2];
                let lc = utf8_len_of(c);
                if lc != 1 && lc != 2 {
                    return None;
                }
                if lc == 1 && q + 3 < n.len() && utf8_len_of(n[q + 3]) != 1 {
                    return None;
                }
            }
            if lens[q] >= 4 && n.len() > 3 && q < n.len() - 3 {
                let c = n[q + 2];
                let d = n[q + 3];
                if utf8_len_of(c) == 1 && utf8_len_of(d) == 1 {
                    let rest = slice_chars(&n, q, q + 4);
                    let mut all = true;
                    let mut i: usize = 0;
                    while i < rest.len()
                        invariant
                            i <= rest.len(),
                            all == all_digits(rest@.take(i as int)),
                        decreases rest.len() - i,
                    {
                        let ok = '0' <= rest[i] && rest[i] <= '9';
                        assert(rest@.take(i + 1).last() == rest@[i as int]);
                        assert(forall|m: int|
                            0 <= m < i ==> rest@.take(i + 1)[m] == rest@.take(i as int)[m]);
                        all = all && ok;
                        i += 1;
                    }
                    assert(rest@.take(rest.len() as int) =~= rest@);
                    if all {
                        return Some(string_of(&rest));
                    }
                }
            }
        },
        None => {},
    }
    Some(string_of(&n))
}

/// The version id in an installation folder name.
pub fn parse_c4d_version_id(name: &str) -> (r: String)
    requires
        spec_parse_c4d_version_id(name@) is Some,
    ensures
        Some(r@) == spec_parse_c4d_version_id(name@),
{
    match version_id_of(name) {
        Some(v) => v,
        None => {
            proof {
                assert(false);
            }
            String::new()
        },
    }
}

/// Whether `installed_c4d_version_from_path` accepts the path: a folder
/// whose name names Cinema 4D must have a version id that the scan can
/// read.
pub fn installed_path_supported(path: &str, is_dir: bool) -> (r: bool)
    ensures
        r == installed_path_ok(path@, is_dir),
{
    if !is_dir {
        return true;
    }
    let p = chars_of(path);
    let name_v = match file_name_of(&p) {
        Some(n) => n,
        None => {
            return true;
        },
    };
    let name = string_of(&name_v);
    let lower = to_lowercase(name.as_str());
    let lv = chars_of(lower.as_str());
    let cinema = chars_of("cinema 4d");
    let installer = chars_of("installer");
    if !contains(&lv, &cinema) || contains(&lv, &installer) {
        return true;
    }
    version_id_of(name.as_str()).is_some()
}

/// Whether `parse_c4d_version_id` accepts `name`: its scan never slices
/// inside a character.
pub open spec fn version_id_defined(name: Seq<char>) -> bool {
    spec_parse_c4d_version_id(name) is Some
}

/// The view of an installed Cinema 4D: version, path, SDK version and
/// download address.
pub open spec fn installed_view(v: InstalledC4dVersion) -> (Seq<char>, Seq<char>, Seq<char>, Seq<
    char,
>) {
    (v.version@, v.path@, v.sdk_version@, v.download_url@)
}

/// A folder name that names a Cinema 4D installation (not an installer).
pub open spec fn names_cinema4d(name: Seq<char>) -> bool {
    has_seq(text_lowercase(name), "cinema 4d"@) && !has_seq(text_lowercase(name), "installer"@)
}

/// What `installed_c4d_version_from_path` returns for a folder.
pub open spec fn spec_installed_from_path(path: Seq<char>, is_dir: bool) -> Option<
    (Seq<char>, Seq<char>, Seq<char>, Seq<char>),
> {
    if !is_dir {
        None
    } else {
        match file_name(path) {
            None => None,
            Some(name) => if !names_cinema4d(name) {
                None
            } else {
                let version = spec_parse_c4d_version_id(name)->0;
                match spec_installed_c4d_sdk_version(version) {
                    None => None,
                    Some(sdk) => Some((version, path, sdk, spec_generated_download_url(sdk))),
                }
            },
        }
    }
}

/// The inputs on which `installed_c4d_version_from_path` does not panic.
pub open spec fn installed_path_ok(path: Seq<char>, is_dir: bool) -> bool {
    is_dir ==> match file_name(path) {
        None => true,
        Some(name) => names_cinema4d(name) ==> version_id_defined(name),
    }
}

/// One of the SDK versions an installation maps to.
pub open spec fn known_sdk_version(v: Seq<char>) -> bool {
    v == "2024.4"@ || v == "2025"@ || v == "2026"@
}

/// The installation at `path` (a directory when `is_dir`), if its folder
/// name names a supported Cinema 4D.
pub fn installed_c4d_version_from_path(path: &str, is_dir: bool) -> (r: Option<
    InstalledC4dVersion,
>)
    requires
        installed_path_ok(path@, is_dir),
    ensures
        match r {
            Some(v) => Some(installed_view(v)) == spec_installed_from_path(path@, is_dir)
                && known_sdk_version(v.sdk_version@),
            None => spec_installed_from_path(path@, is_dir) is None,
        },
{
    if !is_dir {
        return None;
    }
    let p = chars_of(path);
    let name_v = match file_name_of(&p) {
        Some(n) => n,
        None => {
            return None;
        },
    };
    let name = string_of(&name_v);
    let lower = to_lowercase(name.as_str());
    let lv = chars_of(lower.as_str());
    let cinema = chars_of("cinema 4d");
    let installer = chars_of("installer");
    if !contains(&lv, &cinema) || contains(&lv, &installer) {
        return None;
    }
    let version = parse_c4d_version_id(name.as_str());
    let sdk_version = match installed_c4d_sdk_version(version.as_str()) {
        Some(s) => s,
        None => {
            return None;
        },
    };
    let download_url = generated_download_url(sdk_version.as_str());
    Some(
        InstalledC4dVersion {
            version,
            path: crate::text::owned(path),
            sdk_version,
            download_url,
        },
    )
}

/// The views of a list of installations.
pub open spec fn installed_views(s: Seq<InstalledC4dVersion>) -> Seq<
    (Seq<char>, Seq<char>, Seq<char>, Seq<char>),
> {
    s.map_values(|v: InstalledC4dVersion| installed_view(v))
}

/// The view type of an installation.
pub type InstalledView = (Seq<char>, Seq<char>, Seq<char>, Seq<char>);

/// `t` (by descending key) with `x` placed after every element whose key is
/// at least its own.
pub open spec fn insert_desc(x: InstalledView, t: Seq<InstalledView>) -> Seq<InstalledView>
    decreases t.len(),
{
    if t.len() == 0 {
        seq![x]
    } else if sort_key(t[0].2) >= sort_key(x.2) {
        seq![t[0]] + insert_desc(x, t.drop_first())
    } else {
        seq![x] + t
    }
}

/// A stable sort by descending SDK version key
/// (`sort_by_key(|v| Reverse(version_sort_key(&v.sdk_version)))`).
pub open spec fn sort_desc(s: Seq<InstalledView>) -> Seq<InstalledView>
    decreases s.len(),
{
    if s.len() == 0 {
        Seq::<InstalledView>::empty()
    } else {
        insert_desc(s.last(), sort_desc(s.drop_last()))
    }
}

/// `dedup_by`: an element is dropped when its normalized path equals that
/// of the last element kept.
pub open spec fn dedup_paths(s: Seq<InstalledView>) -> Seq<InstalledView>
    decreases s.len(),
{
    if s.len() == 0 {
        Seq::<InstalledView>::empty()
    } else {
        let r = dedup_paths(s.drop_last());
        if r.len() > 0 && spec_normalize_path_key(s.last().1) == spec_normalize_path_key(
            r.last().1,
        ) {
            r
        } else {
            r.push(s.last())
        }
    }
}

/// What `detect_installed_c4d_versions` returns for the installations the
/// platform search found.
pub open spec fn spec_detect_installed(found: Seq<InstalledView>) -> Seq<InstalledView> {
    dedup_paths(sort_desc(found))
}

proof fn lemma_insert_desc_skip(x: InstalledView, t: Seq<InstalledView>, i: int)
    requires
        0 <= i <= t.len(),
        forall|k: int| 0 <= k < i ==> sort_key(#[trigger] t[k].2) >= sort_key(x.2),
    ensures
        insert_desc(x, t) == t.take(i) + insert_desc(x, t.skip(i)),
    decreases i,
{
    if i == 0 {
        assert(t.skip(0) =~= t);
        assert(t.take(0) + insert_desc(x, t.skip(0)) =~= insert_desc(x, t));
    } else {
        let t1 = t.drop_first();
        assert forall|k: int| 0 <= k < i - 1 implies sort_key(#[trigger] t1[k].2) >= sort_key(
            x.2,
        ) by {
            assert(t1[k] == t[k + 1]);
        }
        lemma_insert_desc_skip(x, t1, i - 1);
        assert(t1.skip(i - 1) =~= t.skip(i));
        assert(seq![t[0]] + (t1.take(i - 1) + insert_desc(x, t.skip(i))) =~= t.take(i)
            + insert_desc(x, t.skip(i)));
    }
}

/// The installations the platform search found, newest SDK first, with
/// repeated installation folders removed.
pub fn detect_installed_c4d_versions(found: Vec<InstalledC4dVersion>) -> (r: Vec<
    InstalledC4dVersion,
>)
    requires
        forall|i: int| 0 <= i < found@.len() ==> sortable(#[trigger] found@[i].sdk_version@),
    ensures
        installed_views(r@) == spec_detect_installed(installed_views(found@)),
{
    let ghost orig = installed_views(found@);
    let ghost orig_raw = found@;
    let n0 = found.len();
    let mut rest = found;
    let mut sorted: Vec<InstalledC4dVersion> = Vec::new();
    let mut taken: usize = 0;
    while rest.len() > 0
        invariant
            taken <= orig.len(),
            orig == installed_views(orig_raw),
            rest@ == orig_raw.skip(taken as int),
            taken + rest@.len() == orig.len(),
            orig.len() == n0,
            forall|i: int| 0 <= i < orig_raw.len() ==> sortable(#[trigger] orig_raw[i].sdk_version@),
            forall|i: int| 0 <= i < sorted@.len() ==> sortable(#[trigger] sorted@[i].sdk_version@),
            installed_views(sorted@) == sort_desc(orig.take(taken as int)),
        decreases rest.len(),
    {
        let ghost before_rest = rest@;
        let x = rest.remove(0);
        assert(x == orig_raw[taken as int]);
        assert(rest@ =~= orig_raw.skip(taken + 1));
        let kx = version_sort_key(x.sdk_version.as_str());
        let ghost sv = installed_views(sorted@);
        let mut i: usize = 0;
        while i < sorted.len() && version_sort_key(sorted[i].sdk_version.as_str()) >= kx
            invariant
                i <= sorted.len(),
                kx == sort_key(x.sdk_version@),
                sv == installed_views(sorted@),
                forall|t: int| 0 <= t < sorted@.len() ==> sortable(#[trigger] sorted@[t].sdk_version@),
                forall|k: int| 0 <= k < i ==> sort_key(#[trigger] sv[k].2) >= sort_key(
                    installed_view(x).2,
                ),
            decreases sorted.len() - i,
        {
            i += 1;
        }
        proof {
            lemma_insert_desc_skip(installed_view(x), sv, i as int);
            let s2 = sv.skip(i as int);
            if i < sorted.len() {
                assert(s2[0] == sv[i as int]);
                assert(insert_desc(installed_view(x), s2) == seq![installed_view(x)] + s2);
            } else {
                assert(s2.len() == 0);
            }
            assert(orig.take(taken + 1).drop_last() =~= orig.take(taken as int));
            assert(orig.take(taken + 1).last() == installed_view(x));
        }
        let ghost before_sorted = sorted@;
        sorted.insert(i, x);
        proof {
            assert(forall|t: int| 0 <= t < sorted@.len() ==> sortable(#[trigger] sorted@[t].sdk_version@)) by {
                assert forall|t: int| 0 <= t < sorted@.len() implies sortable(#[trigger] sorted@[t].sdk_version@) by {
                    if t < i {
                        assert(sorted@[t] == before_sorted[t]);
                    } else if t == i {
                    } else {
                        assert(sorted@[t] == before_sorted[t - 1]);
                    }
                }
            }
            assert(installed_views(sorted@) =~= sv.take(i as int) + insert_desc(
                installed_view(orig_raw[taken as int]),
                sv.skip(i as int),
            ));
        }
        taken += 1;
    }
    assert(orig.take(taken as int) =~= orig);
    let ghost sorted_v = installed_views(sorted@);
    let mut out: Vec<InstalledC4dVersion> = Vec::new();
    let m0 = sorted.len();
    let mut src = sorted;
    let mut j: usize = 0;
    let ghost src_raw = src@;
    while src.len() > 0
        invariant
            j <= sorted_v.len(),
            sorted_v == installed_views(src_raw),
            src@ == src_raw.skip(j as int),
            j + src@.len() == sorted_v.len(),
            sorted_v.len() == m0,
            installed_views(out@) == dedup_paths(sorted_v.take(j as int)),
        decreases src.len(),
    {
        let x = src.remove(0);
        assert(x == src_raw[j as int]);
        assert(src@ =~= src_raw.skip(j + 1));
        proof {
            assert(sorted_v.take(j + 1).drop_last() =~= sorted_v.take(j as int));
            assert(sorted_v.take(j + 1).last() == installed_view(x));
        }
        let keep = if out.len() > 0 {
            let a = normalize_path_key(x.path.as_str());
            let b = normalize_path_key(out[out.len() - 1].path.as_str());
            !crate::text::str_eq(a.as_str(), b.as_str())
        } else {
            true
        };
        if keep {
            let ghost prev = out@;
            out.push(x);
            assert(installed_views(out@) =~= installed_views(prev).push(installed_view(x)));
        }
        j += 1;
    }
    assert(sorted_v.take(j as int) =~= sorted_v);
    out
}

/// Where an installed Cinema 4D keeps its `sdk.zip` (`2024.4` lives in the
/// `2024` installation); empty where the platform has none.
pub open spec fn spec_installed_sdk_zip_path(os: HostOs, version: Seq<char>) -> Seq<char> {
    let install = if version == "2024.4"@ {
        "2024"@
    } else {
        version
    };
    match os {
        HostOs::Macos => "/Applications/Maxon Cinema 4D "@ + install + "/sdk.zip"@,
        HostOs::Windows => "C:\\Program Files\\Maxon Cinema 4D "@ + install + "\\sdk.zip"@,
        _ => Seq::<char>::empty(),
    }
}

pub fn installed_sdk_zip_path(os: HostOs, version: &str) -> (r: String)
    ensures
        r@ == spec_installed_sdk_zip_path(os, version@),
{
    let install = if crate::text::str_eq(version, "2024.4") {
        chars_of("2024")
    } else {
        chars_of(version)
    };
    match os {
        HostOs::Macos => {
            let a = chars_of("/Applications/Maxon Cinema 4D ");
            let b = chars_of("/sdk.zip");
            string_of(&concat(&concat(&a, &install), &b))
        },
        HostOs::Windows => {
            let a = chars_of("C:\\Program Files\\Maxon Cinema 4D ");
            let b = chars_of("\\sdk.zip");
            string_of(&concat(&concat(&a, &install), &b))
        },
        _ => String::new(),
    }
}

// ---------------------------------------------------------------------------
// Windows registry listings
// ---------------------------------------------------------------------------

/// The value of an `InstallLocation` line of a `reg query` listing: the line,
/// trimmed, starts with `InstallLocation`; the trimmed text after its first
/// `REG_SZ` is the value, where it is not empty.
pub open spec fn install_location_value(line: Seq<char>) -> Option<Seq<char>> {
    let t = trim(line);
    if "InstallLocation"@.is_prefix_of(t) {
        match find_seq(t, "REG_SZ"@) {
            Some(i) => {
                let v = trim(t.skip(i + 6));
                if v.len() > 0 {
                    Some(v)
                } else {
                    None
                }
            },
            None => None,
        }
    } else {
        None
    }
}

/// The first line of `ls` that carries an install location, and its value.
pub open spec fn first_install_location(ls: Seq<Seq<char>>) -> Option<Seq<char>>
    decreases ls.len(),
{
    if ls.len() == 0 {
        None
    } else {
        match install_location_value(ls[0]) {
            Some(v) => Some(v),
            None => first_install_location(ls.drop_first()),
        }
    }
}

/// The install location that a `reg query <key> /v InstallLocation` listing
/// names.
pub open spec fn spec_registry_install_location(listing: Seq<char>) -> Option<Seq<char>> {
    first_install_location(lines(listing))
}

fn install_location_of_line(line: &Vec<char>) -> (r: Option<Vec<char>>)
    ensures
        r matches Some(v) ==> install_location_value(line@) == Some(v@),
        r is None ==> install_location_value(line@) is None,
{
    let t = trim_chars(line);
    let key = chars_of("InstallLocation");
    if !starts_with(&t, &key) {
        return None;
    }
    let marker = chars_of("REG_SZ");
    proof {
        reveal_strlit("REG_SZ");
    }
    match find(&t, &marker) {
        Some(i) => {
            proof {
                crate::text::lemma_find_from_some(t@, marker@, 0);
            }
            let rest = slice_chars(&t, i + 6, t.len());
            assert(rest@ =~= t@.skip(i + 6));
            let v = trim_chars(&rest);
            if v.len() > 0 {
                Some(v)
            } else {
                None
            }
        },
        None => None,
    }
}

/// The install location that the output of
/// `reg query <key> /v InstallLocation` names.
pub fn registry_install_location(listing: &str) -> (r: Option<String>)
    ensures
        r matches Some(v) ==> spec_registry_install_location(listing@) == Some(v@),
        r is None ==> spec_registry_install_location(listing@) is None,
{
    let text = chars_of(listing);
    let ls = lines_of(&text);
    let ghost all = vviews(ls@);
    let mut i: usize = 0;
    assert(all.skip(0) =~= all);
    while i < ls.len()
        invariant
            i <= ls.len(),
            all == vviews(ls@),
            all == lines(listing@),
            first_install_location(all) == first_install_location(all.skip(i as int)),
        decreases ls.len() - i,
    {
        assert(all.skip(i as int)[0] == ls@[i as int]@);
        assert(all.skip(i as int).drop_first() =~= all.skip(i + 1));
        match install_location_of_line(&ls[i]) {
            Some(v) => {
                return Some(string_of(&v));
            },
            None => {},
        }
        i += 1;
    }
    assert(all.skip(i as int).len() == 0);
    None
}

/// The keys of a `reg query ... /f "Maxon Cinema 4D" /k` listing that name a
/// Cinema 4D installation: the trimmed lines that end with
/// `Maxon Cinema 4D` or hold `Maxon Cinema 4D ` (a version follows).
pub open spec fn names_c4d_key(line: Seq<char>) -> bool {
    "Maxon Cinema 4D"@.is_suffix_of(trim(line)) || has_seq(trim(line), "Maxon Cinema 4D "@)
}

pub open spec fn spec_c4d_uninstall_keys(listing: Seq<char>) -> Seq<Seq<char>> {
    lines(listing).map_values(|l: Seq<char>| trim(l)).filter(|t: Seq<char>|
        "Maxon Cinema 4D"@.is_suffix_of(t) || has_seq(t, "Maxon Cinema 4D "@)
    )
}

/// The uninstall keys of a registry listing that name a Cinema 4D
/// installation, trimmed, in listing order.
pub fn c4d_uninstall_keys(listing: &str) -> (r: Vec<String>)
    ensures
        r@.map_values(|s: String| s@) == spec_c4d_uninstall_keys(listing@),
{
    let text = chars_of(listing);
    let ls = lines_of(&text);
    let ghost all = vviews(ls@);
    let ghost trimmed = all.map_values(|l: Seq<char>| trim(l));
    let ghost keep = |t: Seq<char>| "Maxon Cinema 4D"@.is_suffix_of(t) || has_seq(t, "Maxon Cinema 4D "@);
    let suffix = chars_of("Maxon Cinema 4D");
    let inner = chars_of("Maxon Cinema 4D ");
    let mut out: Vec<String> = Vec::new();
    let mut i: usize = 0;
    while i < ls.len()
        invariant
            i <= ls.len(),
            all == vviews(ls@),
            all == lines(listing@),
            trimmed == all.map_values(|l: Seq<char>| trim(l)),
            suffix@ == "Maxon Cinema 4D"@,
            inner@ == "Maxon Cinema 4D "@,
            keep == (|t: Seq<char>| "Maxon Cinema 4D"@.is_suffix_of(t) || has_seq(t, "Maxon Cinema 4D "@)),
            out@.map_values(|s: String| s@) == trimmed.take(i as int).filter(keep),
        decreases ls.len() - i,
    {
        let t = trim_chars(&ls[i]);
        assert(trimmed.take(i + 1).drop_last() =~= trimmed.take(i as int));
        assert(trimmed.take(i + 1).last() == t@);
        let hit = ends_with(&t, &suffix) || contains(&t, &inner);
        assert(keep(t@) == hit);
        assert(trimmed.take(i + 1).filter(keep) == if keep(t@) {
            trimmed.take(i as int).filter(keep).push(t@)
        } else {
            trimmed.take(i as int).filter(keep)
        }) by {
            reveal(Seq::filter);
        }
        if hit {
            out.push(string_of(&t));
            assert(out@.map_values(|s: String| s@) =~= trimmed.take(i as int).filter(keep).push(t@));
        } else {
            assert(out@.map_values(|s: String| s@) =~= trimmed.take(i as int).filter(keep));
        }
        i += 1;
    }
    assert(trimmed.take(ls.len() as int) =~= trimmed);
    out
}

/// The application bundles a Spotlight listing (`mdfind`) names: the lines
/// that end with `.app`, trimmed, in listing order.
pub open spec fn spec_app_bundle_candidates(listing: Seq<char>) -> Seq<Seq<char>> {
    lines(listing).filter(|l: Seq<char>| ".app"@.is_suffix_of(l)).map_values(|l: Seq<char>| trim(l))
}

pub fn app_bundle_candidates(listing: &str) -> (r: Vec<String>)
    ensures
        r@.map_values(|s: String| s@) == spec_app_bundle_candidates(listing@),
{
    let text = chars_of(listing);
    let ls = lines_of(&text);
    let ghost all = vviews(ls@);
    let ghost keep = |l: Seq<char>| ".app"@.is_suffix_of(l);
    let ghost tr = |l: Seq<char>| trim(l);
    let app = chars_of(".app");
    let mut out: Vec<String> = Vec::new();
    let mut i: usize = 0;
    while i < ls.len()
        invariant
            i <= ls.len(),
            all == vviews(ls@),
            all == lines(listing@),
            app@ == ".app"@,
            keep == (|l: Seq<char>| ".app"@.is_suffix_of(l)),
            tr == (|l: Seq<char>| trim(l)),
            out@.map_values(|s: String| s@) == all.take(i as int).filter(keep).map_values(tr),
        decreases ls.len() - i,
    {
        assert(all.take(i + 1).drop_last() =~= all.take(i as int));
        assert(all.take(i + 1).last() == ls@[i as int]@);
        let hit = ends_with(&ls[i], &app);
        assert(keep(ls@[i as int]@) == hit);
        assert(all.take(i + 1).filter(keep) == if keep(ls@[i as int]@) {
            all.take(i as int).filter(keep).push(ls@[i as int]@)
        } else {
            all.take(i as int).filter(keep)
        }) by {
            reveal(Seq::filter);
        }
        if hit {
            let t = trim_chars(&ls[i]);
            out.push(string_of(&t));
            assert(all.take(i as int).filter(keep).push(ls@[i as int]@).map_values(tr)
                =~= all.take(i as int).filter(keep).map_values(tr).push(t@));
            assert(out@.map_values(|s: String| s@) =~= all.take(i as int).filter(keep).map_values(
                tr,
            ).push(t@));
        }
        i += 1;
    }
    assert(all.take(ls.len() as int) =~= all);
    out
}

/// On macOS a bundle path `<root>/Cinema 4D.app` stands for its folder
/// `<root>`; any other path stands for itself.
pub open spec fn spec_normalize_macos_install_root(path: Seq<char>) -> Seq<char> {
    match extension(path) {
        Some(ext) => if eq_ignore_ascii_case(ext, "app"@) {
            match parent(path) {
                Some(p) => p,
                None => path,
            }
        } else {
            path
        },
        None => path,
    }
}

pub fn normalize_macos_install_root(path: &str) -> (r: String)
    ensures
        r@ == spec_normalize_macos_install_root(path@),
{
    let p = chars_of(path);
    match extension_of(&p) {
        Some(ext) => {
            let app = chars_of("app");
            if chars_eq_ignore_ascii_case(&ext, &app) {
                match parent_of(&p) {
                    Some(q) => string_of(&q),
                    None => string_of(&p),
                }
            } else {
                string_of(&p)
            }
        },
        None => string_of(&p),
    }
}

} // verus!

verus! {

/// Placing `x` into a list keeps what the list held and adds `x`, nothing
/// else.
proof fn lemma_insert_desc_contents(x: InstalledView, t: Seq<InstalledView>)
    ensures
        forall|y: InstalledView| #[trigger] insert_desc(x, t).contains(y) <==> (y == x || t.contains(y)),
    decreases t.len(),
{
    let r = insert_desc(x, t);
    if t.len() == 0 {
        assert forall|y: InstalledView| #[trigger] r.contains(y) <==> (y == x || t.contains(y)) by {
            if y == x {
                assert(r[0] == x);
            }
        }
    } else if sort_key(t[0].2) >= sort_key(x.2) {
        let t1 = t.drop_first();
        let rest = insert_desc(x, t1);
        lemma_insert_desc_contents(x, t1);
        assert(r == seq![t[0]] + rest);
        assert forall|y: InstalledView| #[trigger] r.contains(y) <==> (y == x || t.contains(y)) by {
            if r.contains(y) {
                let k = choose|k: int| 0 <= k < r.len() && r[k] == y;
                if k > 0 {
                    assert(rest[k - 1] == y);
                    assert(rest.contains(y));
                    if y != x {
                        assert(t1.contains(y));
                        let m = choose|m: int| 0 <= m < t1.len() && t1[m] == y;
                        assert(t[m + 1] == y);
                    }
                } else {
                    assert(t[0] == y);
                }
            }
            if y == x {
                assert(rest.contains(y));
                let m = choose|m: int| 0 <= m < rest.len() && rest[m] == y;
                assert(r[m + 1] == y);
            } else if t.contains(y) {
                let m = choose|m: int| 0 <= m < t.len() && t[m] == y;
                if m == 0 {
                    assert(r[0] == y);
                } else {
                    assert(t1[m - 1] == y);
                    assert(t1.contains(y));
                    assert(rest.contains(y));
                    let n = choose|n: int| 0 <= n < rest.len() && rest[n] == y;
                    assert(r[n + 1] == y);
                }
            }
        }
    } else {
        assert(r == seq![x] + t);
        assert forall|y: InstalledView| #[trigger] r.contains(y) <==> (y == x || t.contains(y)) by {
            if r.contains(y) {
                let k = choose|k: int| 0 <= k < r.len() && r[k] == y;
                if k > 0 {
                    assert(t[k - 1] == y);
                }
            }
            if y == x {
                assert(r[0] == y);
            } else if t.contains(y) {
                let m = choose|m: int| 0 <= m < t.len() && t[m] == y;
                assert(r[m + 1] == y);
            }
        }
    }
}

/// Sorting keeps exactly the installations it was given.
proof fn lemma_sort_desc_contents(s: Seq<InstalledView>)
    ensures
        forall|y: InstalledView| #[trigger] sort_desc(s).contains(y) <==> s.contains(y),
    decreases s.len(),
{
    if s.len() > 0 {
        let d = s.drop_last();
        lemma_sort_desc_contents(d);
        lemma_insert_desc_contents(s.last(), sort_desc(d));
        assert forall|y: InstalledView| #[trigger] sort_desc(s).contains(y) <==> s.contains(y) by {
            if d.contains(y) {
                let j = choose|j: int| 0 <= j < d.len() && d[j] == y;
                assert(s[j] == y);
            }
            if s.contains(y) {
                let j = choose|j: int| 0 <= j < s.len() && s[j] == y;
                if j < s.len() - 1 {
                    assert(d[j] == y);
                    assert(d.contains(y));
                }
            }
        }
    }
}

/// Two installations in the same folder: their paths are equal once
/// normalized.
pub open spec fn same_folder(a: InstalledView, b: InstalledView) -> bool {
    spec_normalize_path_key(a.1) == spec_normalize_path_key(b.1)
}

/// Some installation of `r` lies in the folder of `x`.
pub open spec fn lists_folder(r: Seq<InstalledView>, x: InstalledView) -> bool {
    exists|k: int| 0 <= k < r.len() && #[trigger] same_folder(r[k], x)
}

/// Removing repeated folders keeps each folder, never keeps the same folder
/// twice in a row, and keeps only what it was given.
proof fn lemma_dedup_paths(s: Seq<InstalledView>)
    ensures
        forall|i: int| 0 <= i < dedup_paths(s).len() - 1 ==> !same_folder(
            #[trigger] dedup_paths(s)[i],
            dedup_paths(s)[i + 1],
        ),
        forall|j: int| 0 <= j < s.len() ==> lists_folder(dedup_paths(s), #[trigger] s[j]),
        forall|y: InstalledView| #[trigger] dedup_paths(s).contains(y) ==> s.contains(y),
    decreases s.len(),
{
    if s.len() > 0 {
        let d = s.drop_last();
        let x = s.last();
        lemma_dedup_paths(d);
        let r = dedup_paths(d);
        let out = dedup_paths(s);
        assert forall|j: int| 0 <= j < s.len() implies lists_folder(out, #[trigger] s[j]) by {
            if j < s.len() - 1 {
                assert(s[j] == d[j]);
                assert(lists_folder(r, d[j]));
                let k = choose|k: int| 0 <= k < r.len() && #[trigger] same_folder(r[k], d[j]);
                assert(out[k] == r[k]);
                assert(same_folder(out[k], s[j]));
            } else if r.len() > 0 && same_folder(x, r.last()) {
                assert(out[r.len() - 1] == r.last());
                assert(same_folder(out[r.len() - 1], s[j]));
            } else {
                assert(out[r.len() as int] == x);
                assert(same_folder(out[r.len() as int], s[j]));
            }
        }
        assert forall|y: InstalledView| #[trigger] out.contains(y) implies s.contains(y) by {
            let k = choose|k: int| 0 <= k < out.len() && out[k] == y;
            if k < r.len() {
                assert(r[k] == y);
                assert(r.contains(y));
                let m = choose|m: int| 0 <= m < d.len() && d[m] == y;
                assert(s[m] == y);
            } else {
                assert(s[s.len() - 1] == y);
            }
        }
        assert forall|i: int| 0 <= i < out.len() - 1 implies !same_folder(
            #[trigger] out[i],
            out[i + 1],
        ) by {
            if i + 1 < r.len() {
                assert(out[i] == r[i] && out[i + 1] == r[i + 1]);
            }
        }
    }
}

/// Detecting installed copies lists each installation folder the search
/// found (compared by normalized path), never the same folder twice in a
/// row, and nothing the search did not find.
pub proof fn law_detected_installations_are_distinct_and_complete(found: Seq<InstalledView>)
    ensures
        forall|i: int|
            0 <= i < spec_detect_installed(found).len() - 1 ==> !same_folder(
                #[trigger] spec_detect_installed(found)[i],
                spec_detect_installed(found)[i + 1],
            ),
        forall|j: int| 0 <= j < found.len() ==> lists_folder(spec_detect_installed(found), #[trigger] found[j]),
        forall|y: InstalledView| #[trigger] spec_detect_installed(found).contains(y) ==> found.contains(
            y,
        ),
{
    let sorted = sort_desc(found);
    lemma_sort_desc_contents(found);
    lemma_dedup_paths(sorted);
    let r = spec_detect_installed(found);
    assert forall|j: int| 0 <= j < found.len() implies lists_folder(r, #[trigger] found[j]) by {
        assert(found.contains(found[j]));
        assert(sorted.contains(found[j]));
        let m = choose|m: int| 0 <= m < sorted.len() && sorted[m] == found[j];
        assert(lists_folder(r, sorted[m]));
    }
    assert forall|y: InstalledView| #[trigger] r.contains(y) implies found.contains(y) by {
        assert(sorted.contains(y));
    }
}

} // verus!
