//! Character-level text helpers shared by the compiler services: searching,
//! trimming, case folding, line splitting and decimal conversion.

use vstd::prelude::*;

verus! {

// ---------------------------------------------------------------------------
// Conversions between `str`, `String` and character vectors
// ---------------------------------------------------------------------------

/// `String::push` from std: appends one character.
#[verifier::external_body]
pub(crate) fn push_char(s: &mut String, c: char)
    ensures
        final(s)@ == old(s)@.push(c),
{
    s.push(c);
}

/// The characters of a string slice, in order.
pub fn chars_of(s: &str) -> (v: Vec<char>)
    ensures
        v@ == s@,
{
    let mut v: Vec<char> = Vec::new();
    for c in it: s.chars()
        invariant
            v@ == it.seq().take(it.index() as int),
            it.seq() == s@,
    {
        v.push(c);
    }
    v
}

/// Builds a `String` from a character vector.
pub fn string_of(v: &Vec<char>) -> (s: String)
    ensures
        s@ == v@,
{
    let mut s = String::new();
    let mut i: usize = 0;
    while i < v.len()
        invariant
            i <= v.len(),
            s@ == v@.take(i as int),
        decreases v.len() - i,
    {
        push_char(&mut s, v[i]);
        assert(v@.take(i as int).push(v@[i as int]) =~= v@.take(i + 1));
        i += 1;
    }
    assert(v@.take(v.len() as int) =~= v@);
    s
}

/// A `String` holding the given literal.
pub fn owned(s: &str) -> (r: String)
    ensures
        r@ == s@,
{
    s.to_owned()
}

/// Equality of two string slices.
pub fn str_eq(a: &str, b: &str) -> (r: bool)
    ensures
        r == (a@ == b@),
{
    a.to_owned() == b.to_owned()
}

/// Equality of two character vectors.
pub fn chars_eq(a: &Vec<char>, b: &Vec<char>) -> (r: bool)
    ensures
        r == (a@ == b@),
{
    if a.len() != b.len() {
        return false;
    }
    let mut i: usize = 0;
    while i < a.len()
        invariant
            a.len() == b.len(),
            i <= a.len(),
            forall|k: int| 0 <= k < i ==> a@[k] == b@[k],
        decreases a.len() - i,
    {
        if a[i] != b[i] {
            return false;
        }
        i += 1;
    }
    assert(a@ =~= b@);
    true
}

/// A copy of a character vector.
pub fn copy_chars(v: &Vec<char>) -> (r: Vec<char>)
    ensures
        r@ == v@,
{
    let r = slice_chars(v, 0, v.len());
    assert(r@ =~= v@);
    r
}

/// Concatenation of two character vectors.
pub fn concat(a: &Vec<char>, b: &Vec<char>) -> (r: Vec<char>)
    ensures
        r@ == a@ + b@,
{
    let mut r = a.clone();
    let mut i: usize = 0;
    while i < b.len()
        invariant
            i <= b.len(),
            r@ == a@ + b@.take(i as int),
        decreases b.len() - i,
    {
        r.push(b[i]);
        assert(a@ + b@.take(i as int).push(b@[i as int]) =~= a@ + b@.take(i + 1));
        i += 1;
    }
    assert(b@.take(b.len() as int) =~= b@);
    r
}

/// Concatenation of a character vector and a string slice.
pub fn concat_str(a: &Vec<char>, b: &str) -> (r: Vec<char>)
    ensures
        r@ == a@ + b@,
{
    let bv = chars_of(b);
    concat(a, &bv)
}

/// The characters `v[from..to]`.
pub fn slice_chars(v: &Vec<char>, from: usize, to: usize) -> (r: Vec<char>)
    requires
        from <= to <= v.len(),
    ensures
        r@ == v@.subrange(from as int, to as int),
{
    let mut r: Vec<char> = Vec::new();
    let mut i = from;
    while i < to
        invariant
            from <= i <= to <= v.len(),
            r@ == v@.subrange(from as int, i as int),
        decreases to - i,
    {
        r.push(v[i]);
        assert(v@.subrange(from as int, i as int).push(v@[i as int]) =~= v@.subrange(
            from as int,
            i + 1,
        ));
        i += 1;
    }
    r
}

// ---------------------------------------------------------------------------
// Searching
// ---------------------------------------------------------------------------

/// `n` occurs in `h` starting at position `i`.
pub open spec fn occurs_at(h: Seq<char>, n: Seq<char>, i: int) -> bool {
    0 <= i && i + n.len() <= h.len() && h.subrange(i, i + n.len()) == n
}

/// The first position at or after `i` where `n` occurs in `h`.
pub open spec fn find_from(h: Seq<char>, n: Seq<char>, i: int) -> Option<int>
    decreases h.len() - i,
{
    if i < 0 || i + n.len() > h.len() {
        None
    } else if n.len() == 0 || occurs_at(h, n, i) {
        Some(i)
    } else {
        find_from(h, n, i + 1)
    }
}

/// The first position where `n` occurs in `h`.
pub open spec fn find_seq(h: Seq<char>, n: Seq<char>) -> Option<int> {
    find_from(h, n, 0)
}

/// `h` contains `n` as a contiguous run.
pub open spec fn has_seq(h: Seq<char>, n: Seq<char>) -> bool {
    find_seq(h, n) is Some
}

/// The first position of the character `c` in `h`.
pub open spec fn find_char(h: Seq<char>, c: char) -> Option<int> {
    find_seq(h, seq![c])
}

pub proof fn lemma_find_from_some(h: Seq<char>, n: Seq<char>, i: int)
    requires
        find_from(h, n, i) is Some,
    ensures
        i <= find_from(h, n, i)->0,
        occurs_at(h, n, find_from(h, n, i)->0),
        forall|k: int| i <= k < find_from(h, n, i)->0 ==> !occurs_at(h, n, k),
    decreases h.len() - i,
{
    if i < 0 || i + n.len() > h.len() {
    } else if n.len() == 0 || occurs_at(h, n, i) {
        if n.len() == 0 {
            assert(h.subrange(i, i + n.len()) =~= n);
        }
    } else {
        lemma_find_from_some(h, n, i + 1);
    }
}

pub proof fn lemma_find_from_none(h: Seq<char>, n: Seq<char>, i: int)
    requires
        find_from(h, n, i) is None,
        0 <= i,
    ensures
        forall|k: int| i <= k ==> !occurs_at(h, n, k),
    decreases h.len() - i,
{
    if i + n.len() > h.len() {
    } else if n.len() == 0 || occurs_at(h, n, i) {
    } else {
        lemma_find_from_none(h, n, i + 1);
    }
}

/// Whether `n` occurs in `h` at position `i`.
pub fn matches_at(h: &Vec<char>, n: &Vec<char>, i: usize) -> (r: bool)
    requires
        i + n.len() <= h.len(),
    ensures
        r == occurs_at(h@, n@, i as int),
{
    let mut j: usize = 0;
    while j < n.len()
        invariant
            i + n.len() <= h.len(),
            j <= n.len(),
            forall|k: int| 0 <= k < j ==> h@[i + k] == n@[k],
        decreases n.len() - j,
    {
        if h[i + j] != n[j] {
            assert(h@.subrange(i as int, i + n.len())[j as int] != n@[j as int]);
            return false;
        }
        j += 1;
    }
    assert(h@.subrange(i as int, i + n.len()) =~= n@);
    true
}

/// The first position where `n` occurs in `h`.
pub fn find(h: &Vec<char>, n: &Vec<char>) -> (r: Option<usize>)
    ensures
        r matches Some(i) ==> find_seq(h@, n@) == Some(i as int),
        r is None ==> find_seq(h@, n@) is None,
{
    if n.len() > h.len() {
        return None;
    }
    let mut i: usize = 0;
    while i <= h.len() - n.len()
        invariant
            n.len() <= h.len(),
            i <= h.len(),
            find_seq(h@, n@) == find_from(h@, n@, i as int),
        decreases h.len() - i,
    {
        if n.len() == 0 || matches_at(h, n, i) {
            return Some(i);
        }
        i += 1;
    }
    None
}

/// `h` contains `n`.
pub fn contains(h: &Vec<char>, n: &Vec<char>) -> (r: bool)
    ensures
        r == has_seq(h@, n@),
{
    find(h, n).is_some()
}

/// `h` contains `n`, for string slices.
pub fn str_contains(h: &str, n: &str) -> (r: bool)
    ensures
        r == has_seq(h@, n@),
{
    let hv = chars_of(h);
    let nv = chars_of(n);
    contains(&hv, &nv)
}

/// The first position of `c` in `h`.
pub fn find_char_in(h: &Vec<char>, c: char) -> (r: Option<usize>)
    ensures
        r matches Some(i) ==> find_char(h@, c) == Some(i as int),
        r is None ==> find_char(h@, c) is None,
{
    let mut n: Vec<char> = Vec::new();
    n.push(c);
    assert(n@ =~= seq![c]);
    find(h, &n)
}

/// `s` starts with `p`.
pub fn starts_with(s: &Vec<char>, p: &Vec<char>) -> (r: bool)
    ensures
        r == p@.is_prefix_of(s@),
{
    if p.len() > s.len() {
        return false;
    }
    let r = matches_at(s, p, 0);
    assert(s@.subrange(0, p@.len() as int) =~= s@.take(p@.len() as int));
    r
}

/// `s` ends with `p`.
pub fn ends_with(s: &Vec<char>, p: &Vec<char>) -> (r: bool)
    ensures
        r == p@.is_suffix_of(s@),
{
    if p.len() > s.len() {
        return false;
    }
    let r = matches_at(s, p, s.len() - p.len());
    assert(s@.subrange(s.len() - p.len(), s@.len() as int) =~= s@.skip(s.len() - p.len()));
    r
}

// ---------------------------------------------------------------------------
// Whitespace and trimming
// ---------------------------------------------------------------------------

/// Unicode `White_Space`, as `char::is_whitespace` defines it.
pub open spec fn is_ws(c: char) -> bool {
    ||| ('\u{9}' <= c && c <= '\u{d}')
    ||| c == ' '
    ||| c == '\u{85}'
    ||| c == '\u{a0}'
    ||| c == '\u{1680}'
    ||| ('\u{2000}' <= c && c <= '\u{200a}')
    ||| c == '\u{2028}'
    ||| c == '\u{2029}'
    ||| c == '\u{202f}'
    ||| c == '\u{205f}'
    ||| c == '\u{3000}'
}

pub fn is_whitespace(c: char) -> (r: bool)
    ensures
        r == is_ws(c),
{
    ('\u{9}' <= c && c <= '\u{d}') || c == ' ' || c == '\u{85}' || c == '\u{a0}' || c
        == '\u{1680}' || ('\u{2000}' <= c && c <= '\u{200a}') || c == '\u{2028}' || c
        == '\u{2029}' || c == '\u{202f}' || c == '\u{205f}' || c == '\u{3000}'
}

/// Some character of `s` is whitespace.
pub open spec fn has_ws(s: Seq<char>) -> bool {
    exists|i: int| 0 <= i < s.len() && is_ws(#[trigger] s[i])
}

pub fn any_whitespace(s: &Vec<char>) -> (r: bool)
    ensures
        r == has_ws(s@),
{
    let mut i: usize = 0;
    while i < s.len()
        invariant
            i <= s.len(),
            forall|k: int| 0 <= k < i ==> !is_ws(#[trigger] s@[k]),
        decreases s.len() - i,
    {
        if is_whitespace(s[i]) {
            return true;
        }
        i += 1;
    }
    false
}

/// `s` without leading whitespace.
pub open spec fn trim_start(s: Seq<char>) -> Seq<char>
    decreases s.len(),
{
    if s.len() > 0 && is_ws(s[0]) {
        trim_start(s.drop_first())
    } else {
        s
    }
}

/// `s` without trailing whitespace.
pub open spec fn trim_end(s: Seq<char>) -> Seq<char>
    decreases s.len(),
{
    if s.len() > 0 && is_ws(s.last()) {
        trim_end(s.drop_last())
    } else {
        s
    }
}

/// `s` without leading and trailing whitespace (`str::trim`).
pub open spec fn trim(s: Seq<char>) -> Seq<char> {
    trim_end(trim_start(s))
}

proof fn lemma_trim_start_skip(s: Seq<char>, i: int)
    requires
        0 <= i <= s.len(),
        forall|k: int| 0 <= k < i ==> is_ws(s[k]),
    ensures
        trim_start(s) == trim_start(s.skip(i)),
    decreases i,
{
    if i > 0 {
        assert(s.drop_first().skip(i - 1) =~= s.skip(i));
        lemma_trim_start_skip(s.drop_first(), i - 1);
    } else {
        assert(s.skip(0) =~= s);
    }
}

proof fn lemma_trim_end_take(s: Seq<char>, j: int)
    requires
        0 <= j <= s.len(),
        forall|k: int| j <= k < s.len() ==> is_ws(s[k]),
    ensures
        trim_end(s) == trim_end(s.take(j)),
    decreases s.len() - j,
{
    if j < s.len() {
        assert(s.drop_last().take(j) =~= s.take(j));
        lemma_trim_end_take(s.drop_last(), j);
    } else {
        assert(s.take(j) =~= s);
    }
}

/// `str::trim` on a character vector.
pub fn trim_chars(s: &Vec<char>) -> (r: Vec<char>)
    ensures
        r@ == trim(s@),
{
    let mut i: usize = 0;
    while i < s.len() && is_whitespace(s[i])
        invariant
            i <= s.len(),
            forall|k: int| 0 <= k < i ==> is_ws(s@[k]),
        decreases s.len() - i,
    {
        i += 1;
    }
    proof {
        lemma_trim_start_skip(s@, i as int);
    }
    let t = slice_chars(s, i, s.len());
    assert(t@ =~= s@.skip(i as int));
    let mut j: usize = t.len();
    while j > 0 && is_whitespace(t[j - 1])
        invariant
            j <= t.len(),
            forall|k: int| j <= k < t.len() ==> is_ws(t@[k]),
        decreases j,
    {
        j -= 1;
    }
    proof {
        lemma_trim_end_take(t@, j as int);
        if i < s.len() {
            assert(!is_ws(t@[0]));
        }
    }
    let r = slice_chars(&t, 0, j);
    assert(r@ =~= t@.take(j as int));
    proof {
        if t@.len() > 0 {
            assert(trim_start(t@) == t@);
        } else {
            assert(trim_start(t@) == t@);
        }
        if j > 0 {
            assert(!is_ws(t@.take(j as int).last()));
        }
    }
    r
}

/// `str::trim_start` on a character vector.
pub fn trim_start_chars(s: &Vec<char>) -> (r: Vec<char>)
    ensures
        r@ == trim_start(s@),
{
    let mut i: usize = 0;
    while i < s.len() && is_whitespace(s[i])
        invariant
            i <= s.len(),
            forall|k: int| 0 <= k < i ==> is_ws(s@[k]),
        decreases s.len() - i,
    {
        i += 1;
    }
    proof {
        lemma_trim_start_skip(s@, i as int);
    }
    let t = slice_chars(s, i, s.len());
    assert(t@ =~= s@.skip(i as int));
    proof {
        if i < s.len() {
            assert(!is_ws(t@[0]));
        }
    }
    t
}

/// `str::trim_end` on a character vector.
pub fn trim_end_chars(s: &Vec<char>) -> (r: Vec<char>)
    ensures
        r@ == trim_end(s@),
{
    let mut j: usize = s.len();
    while j > 0 && is_whitespace(s[j - 1])
        invariant
            j <= s.len(),
            forall|k: int| j <= k < s.len() ==> is_ws(s@[k]),
        decreases j,
    {
        j -= 1;
    }
    proof {
        lemma_trim_end_take(s@, j as int);
    }
    let r = slice_chars(s, 0, j);
    assert(r@ =~= s@.take(j as int));
    proof {
        if j > 0 {
            assert(!is_ws(s@.take(j as int).last()));
        }
    }
    r
}

/// `s` without any trailing `c` (`str::trim_end_matches` with one
/// character).
pub open spec fn trim_end_char(s: Seq<char>, c: char) -> Seq<char>
    decreases s.len(),
{
    if s.len() > 0 && s.last() == c {
        trim_end_char(s.drop_last(), c)
    } else {
        s
    }
}

proof fn lemma_trim_end_char_take(s: Seq<char>, c: char, j: int)
    requires
        0 <= j <= s.len(),
        forall|k: int| j <= k < s.len() ==> s[k] == c,
    ensures
        trim_end_char(s, c) == trim_end_char(s.take(j), c),
    decreases s.len() - j,
{
    if j < s.len() {
        assert(s.drop_last().take(j) =~= s.take(j));
        lemma_trim_end_char_take(s.drop_last(), c, j);
    } else {
        assert(s.take(j) =~= s);
    }
}

pub fn trim_end_char_chars(s: &Vec<char>, c: char) -> (r: Vec<char>)
    ensures
        r@ == trim_end_char(s@, c),
{
    let mut j: usize = s.len();
    while j > 0 && s[j - 1] == c
        invariant
            j <= s.len(),
            forall|k: int| j <= k < s.len() ==> s@[k] == c,
        decreases j,
    {
        j -= 1;
    }
    proof {
        lemma_trim_end_char_take(s@, c, j as int);
    }
    let r = slice_chars(s, 0, j);
    assert(r@ =~= s@.take(j as int));
    r
}

/// `str::trim` on a string slice.
pub fn trim_str(s: &str) -> (r: Vec<char>)
    ensures
        r@ == trim(s@),
{
    let v = chars_of(s);
    trim_chars(&v)
}

// ---------------------------------------------------------------------------
// Case folding and character replacement
// ---------------------------------------------------------------------------

/// `char::to_ascii_lowercase`.
pub open spec fn ascii_lower(c: char) -> char {
    if 'A' <= c && c <= 'Z' {
        ((c as int) + 32) as char
    } else {
        c
    }
}

/// `str::to_ascii_lowercase`.
pub open spec fn ascii_lower_seq(s: Seq<char>) -> Seq<char> {
    s.map_values(|c: char| ascii_lower(c))
}

pub fn to_ascii_lower_char(c: char) -> (r: char)
    ensures
        r == ascii_lower(c),
{
    if 'A' <= c && c <= 'Z' {
        let b = (c as u32) + 32;
        char_from_ascii_letter(b)
    } else {
        c
    }
}

fn char_from_ascii_letter(b: u32) -> (c: char)
    requires
        97 <= b <= 122,
    ensures
        c as int == b,
{
    let x = b as u8;
    x as char
}

pub fn to_ascii_lowercase(s: &Vec<char>) -> (r: Vec<char>)
    ensures
        r@ == ascii_lower_seq(s@),
{
    let mut r: Vec<char> = Vec::new();
    let mut i: usize = 0;
    while i < s.len()
        invariant
            i <= s.len(),
            r@ == ascii_lower_seq(s@.take(i as int)),
        decreases s.len() - i,
    {
        r.push(to_ascii_lower_char(s[i]));
        assert(ascii_lower_seq(s@.take(i + 1)) =~= ascii_lower_seq(s@.take(i as int)).push(
            ascii_lower(s@[i as int]),
        ));
        i += 1;
    }
    assert(s@.take(s.len() as int) =~= s@);
    r
}

/// `str::eq_ignore_ascii_case`.
pub open spec fn eq_ignore_ascii_case(a: Seq<char>, b: Seq<char>) -> bool {
    ascii_lower_seq(a) == ascii_lower_seq(b)
}

pub fn chars_eq_ignore_ascii_case(a: &Vec<char>, b: &Vec<char>) -> (r: bool)
    ensures
        r == eq_ignore_ascii_case(a@, b@),
{
    let la = to_ascii_lowercase(a);
    let lb = to_ascii_lowercase(b);
    chars_eq(&la, &lb)
}

/// What `str::to_lowercase` returns (full Unicode case mapping).
pub uninterp spec fn unicode_lowercase(s: Seq<char>) -> Seq<char>;

/// Every character is ASCII.
pub open spec fn all_ascii(s: Seq<char>) -> bool {
    forall|i: int| 0 <= i < s.len() ==> (s[i] as u32) < 128
}

/// What `str::to_lowercase` returns, with its ASCII case spelled out.
pub open spec fn text_lowercase(s: Seq<char>) -> Seq<char> {
    if all_ascii(s) {
        ascii_lower_seq(s)
    } else {
        unicode_lowercase(s)
    }
}

/// `str::to_lowercase` from std. The contract names the result: it is a
/// function of the characters of `s` alone. On ASCII text it is the ASCII
/// lowercase (`A` to `Z` become `a` to `z`, all else stays), which the
/// Unicode lowercase mapping it follows gives there; the Unicode case
/// tables for the other characters are not restated here.
#[verifier::external_body]
pub(crate) fn to_lowercase(s: &str) -> (r: String)
    ensures
        r@ == unicode_lowercase(s@),
        all_ascii(s@) ==> r@ == ascii_lower_seq(s@),
{
    s.to_lowercase()
}

/// Every occurrence of `from` replaced by `to`.
pub open spec fn replace_char(s: Seq<char>, from: char, to: char) -> Seq<char> {
    s.map_values(|c: char| if c == from { to } else { c })
}

pub fn replace_char_in(s: &Vec<char>, from: char, to: char) -> (r: Vec<char>)
    ensures
        r@ == replace_char(s@, from, to),
{
    let mut r: Vec<char> = Vec::new();
    let mut i: usize = 0;
    while i < s.len()
        invariant
            i <= s.len(),
            r@ == replace_char(s@.take(i as int), from, to),
        decreases s.len() - i,
    {
        let c = s[i];
        r.push(if c == from { to } else { c });
        assert(replace_char(s@.take(i + 1), from, to) =~= replace_char(
            s@.take(i as int),
            from,
            to,
        ).push(if s@[i as int] == from { to } else { s@[i as int] }));
        i += 1;
    }
    assert(s@.take(s.len() as int) =~= s@);
    r
}

// ---------------------------------------------------------------------------
// Splitting into pieces and lines
// ---------------------------------------------------------------------------

/// The character sequences held by a vector of character vectors.
pub open spec fn vviews(r: Seq<Vec<char>>) -> Seq<Seq<char>> {
    r.map_values(|v: Vec<char>| v@)
}

pub broadcast proof fn lemma_vviews_push(s: Seq<Vec<char>>, e: Vec<char>)
    ensures
        #[trigger] vviews(s.push(e)) == vviews(s).push(e@),
{
    assert(vviews(s.push(e)) =~= vviews(s).push(e@));
}

// ---------------------------------------------------------------------------
// ---------------------------------------------------------------------------

/// The pieces of `s` between occurrences of `c` (`str::split`).
pub open spec fn split_on(s: Seq<char>, c: char) -> Seq<Seq<char>>
    decreases s.len(),
{
    if s.len() == 0 {
        seq![Seq::<char>::empty()]
    } else {
        let r = split_on(s.drop_last(), c);
        if s.last() == c {
            r.push(Seq::<char>::empty())
        } else {
            r.update(r.len() - 1, r.last().push(s.last()))
        }
    }
}

pub proof fn lemma_split_on_nonempty(s: Seq<char>, c: char)
    ensures
        split_on(s, c).len() >= 1,
    decreases s.len(),
{
    if s.len() > 0 {
        lemma_split_on_nonempty(s.drop_last(), c);
    }
}

/// `s` without one trailing carriage return.
pub open spec fn strip_cr(s: Seq<char>) -> Seq<char> {
    if s.len() > 0 && s.last() == '\r' {
        s.drop_last()
    } else {
        s
    }
}

/// `str::lines`: pieces between `'\n'`, a `'\r'` before a `'\n'` dropped,
/// and no final empty line.
pub open spec fn lines(s: Seq<char>) -> Seq<Seq<char>> {
    let p = split_on(s, '\n');
    let head = p.drop_last().map_values(|l: Seq<char>| strip_cr(l));
    if p.last().len() == 0 {
        head
    } else {
        head.push(p.last())
    }
}

/// `str::split` on one character.
pub fn split_chars(s: &Vec<char>, c: char) -> (r: Vec<Vec<char>>)
    ensures
        vviews(r@) == split_on(s@, c),
{
    let mut r: Vec<Vec<char>> = Vec::new();
    r.push(Vec::new());
    assert(vviews(r@) =~= split_on(s@.take(0), c));
    let mut i: usize = 0;
    while i < s.len()
        invariant
            i <= s.len(),
            r.len() >= 1,
            vviews(r@) == split_on(s@.take(i as int), c),
        decreases s.len() - i,
    {
        let ch = s[i];
        proof {
            assert(s@.take(i + 1).drop_last() =~= s@.take(i as int));
            assert(s@.take(i + 1).last() == ch);
        }
        if ch == c {
            r.push(Vec::new());
            assert(vviews(r@) =~= split_on(s@.take(i + 1), c));
        } else {
            let mut piece = r.pop().unwrap();
            piece.push(ch);
            r.push(piece);
            assert(vviews(r@) =~= split_on(s@.take(i + 1), c));
        }
        i += 1;
    }
    assert(s@.take(s.len() as int) =~= s@);
    r
}

/// One line without a trailing carriage return.
pub fn strip_cr_chars(s: Vec<char>) -> (r: Vec<char>)
    ensures
        r@ == strip_cr(s@),
{
    let mut s = s;
    if s.len() > 0 && s[s.len() - 1] == '\r' {
        s.pop();
    }
    s
}

/// `str::lines`.
pub fn lines_of(s: &Vec<char>) -> (r: Vec<Vec<char>>)
    ensures
        vviews(r@) == lines(s@),
{
    let pieces = split_chars(s, '\n');
    proof {
        lemma_split_on_nonempty(s@, '\n');
    }
    let n = pieces.len();
    let mut r: Vec<Vec<char>> = Vec::new();
    let mut i: usize = 0;
    while i + 1 < n
        invariant
            forall|k: int| 0 <= k < n ==> #[trigger] vviews(pieces@)[k] == pieces@[k]@,
            n == pieces.len(),
            n >= 1,
            i < n,
            vviews(pieces@) == split_on(s@, '\n'),
            vviews(r@) == vviews(pieces@).take(i as int).map_values(
                |l: Seq<char>| strip_cr(l),
            ),
        decreases n - i,
    {
        let line = strip_cr_chars(pieces[i].clone());
        let ghost before = vviews(r@);
        r.push(line);
        assert(vviews(r@) =~= before.push(strip_cr(vviews(pieces@)[i as int])));
        assert(vviews(pieces@).take(i + 1).map_values(|l: Seq<char>| strip_cr(l)) =~= vviews(
            pieces@,
        ).take(i as int).map_values(|l: Seq<char>| strip_cr(l)).push(
            strip_cr(vviews(pieces@)[i as int]),
        ));
        assert(vviews(r@) =~= vviews(pieces@).take(i + 1).map_values(
            |l: Seq<char>| strip_cr(l),
        ));
        i += 1;
    }
    assert(vviews(pieces@).take(i as int) =~= vviews(pieces@).drop_last());
    if pieces[n - 1].len() > 0 {
        r.push(pieces[n - 1].clone());
        assert(vviews(r@) =~= lines(s@));
    } else {
        assert(vviews(r@) =~= lines(s@));
    }
    r
}

/// Joins pieces with a separator between consecutive pieces.
pub open spec fn join_with(pieces: Seq<Seq<char>>, sep: Seq<char>) -> Seq<char>
    decreases pieces.len(),
{
    if pieces.len() == 0 {
        Seq::<char>::empty()
    } else if pieces.len() == 1 {
        pieces[0]
    } else {
        join_with(pieces.drop_last(), sep) + sep + pieces.last()
    }
}

/// `[T]::join` with a separator.
pub fn join_chars(pieces: &Vec<Vec<char>>, sep: &Vec<char>) -> (r: Vec<char>)
    ensures
        r@ == join_with(vviews(pieces@), sep@),
{
    let mut r: Vec<char> = Vec::new();
    let mut i: usize = 0;
    while i < pieces.len()
        invariant
            i <= pieces.len(),
            r@ == join_with(vviews(pieces@).take(i as int), sep@),
        decreases pieces.len() - i,
    {
        proof {
            assert(vviews(pieces@).take(i + 1).drop_last() =~= vviews(pieces@).take(
                i as int,
            ));
        }
        if i == 0 {
            r = pieces[0].clone();
            assert(join_with(vviews(pieces@).take(1), sep@) == vviews(pieces@)[0]);
        } else {
            let with_sep = concat(&r, sep);
            r = concat(&with_sep, &pieces[i]);
        }
        i += 1;
    }
    assert(vviews(pieces@).take(pieces.len() as int) =~= vviews(pieces@));
    r
}

// ---------------------------------------------------------------------------
// Decimal numbers
// ---------------------------------------------------------------------------

/// The ASCII digit for `d` (below ten).
pub open spec fn digit_char(d: nat) -> char {
    (48 + d) as char
}

/// The decimal digits of `n`, without leading zeros.
pub open spec fn dec(n: nat) -> Seq<char>
    decreases n,
{
    if n < 10 {
        seq![digit_char(n)]
    } else {
        dec(n / 10).push(digit_char(n % 10))
    }
}

fn digit_of(d: u64) -> (c: char)
    requires
        d < 10,
    ensures
        c == digit_char(d as nat),
{
    let b = (48 + d) as u8;
    b as char
}

/// The decimal digits of `n`.
pub fn decimal(n: u64) -> (r: Vec<char>)
    ensures
        r@ == dec(n as nat),
    decreases n,
{
    if n < 10 {
        let mut r = Vec::new();
        r.push(digit_of(n));
        assert(r@ =~= seq![digit_char(n as nat)]);
        r
    } else {
        let mut r = decimal(n / 10);
        r.push(digit_of(n % 10));
        r
    }
}

/// The decimal digits of `n` as a `String`.
pub fn decimal_string(n: u64) -> (r: String)
    ensures
        r@ == dec(n as nat),
{
    let v = decimal(n);
    string_of(&v)
}

/// An ASCII decimal digit.
pub open spec fn is_digit(c: char) -> bool {
    '0' <= c && c <= '9'
}

pub open spec fn all_digits(s: Seq<char>) -> bool {
    forall|i: int| 0 <= i < s.len() ==> is_digit(#[trigger] s[i])
}

/// The value of a run of decimal digits.
pub open spec fn digits_value(s: Seq<char>) -> nat
    decreases s.len(),
{
    if s.len() == 0 {
        0
    } else {
        digits_value(s.drop_last()) * 10 + ((s.last() as int - 48) as nat)
    }
}

/// The digits part of a number: the text without one leading `+`.
pub open spec fn without_plus(s: Seq<char>) -> Seq<char> {
    if s.len() > 0 && s[0] == '+' {
        s.skip(1)
    } else {
        s
    }
}

/// What `u32::from_str` accepts: an optional `+`, then one or more ASCII
/// digits whose value fits in `u32`.
pub open spec fn parse_u32(s: Seq<char>) -> Option<u32> {
    parse_u32_digits(without_plus(s))
}

/// A run of one or more ASCII digits whose value fits in `u32`.
pub open spec fn parse_u32_digits(d: Seq<char>) -> Option<u32> {
    if d.len() == 0 || !all_digits(d) || digits_value(d) > u32::MAX {
        None
    } else {
        Some(digits_value(d) as u32)
    }
}

proof fn lemma_digits_value_prefix(s: Seq<char>, i: int)
    requires
        0 <= i <= s.len(),
        all_digits(s),
    ensures
        digits_value(s.take(i)) <= digits_value(s),
    decreases s.len() - i,
{
    if i < s.len() {
        assert(s.take(i + 1).drop_last() =~= s.take(i));
        assert(all_digits(s.take(i + 1)));
        lemma_digits_value_prefix(s, i + 1);
    } else {
        assert(s.take(i) =~= s);
    }
}

/// `str::parse::<u32>` on characters.
pub fn parse_u32_chars(s: &Vec<char>) -> (r: Option<u32>)
    ensures
        r == parse_u32(s@),
{
    let start: usize = if s.len() > 0 && s[0] == '+' {
        1
    } else {
        0
    };
    let ghost d = without_plus(s@);
    assert(d =~= s@.skip(start as int));
    if start >= s.len() {
        return None;
    }
    let mut i = start;
    let mut acc: u64 = 0;
    while i < s.len()
        invariant
            start <= i <= s.len(),
            d == s@.skip(start as int),
            d == without_plus(s@),
            all_digits(d.take(i - start)),
            acc == digits_value(d.take(i - start)),
            acc <= u32::MAX,
        decreases s.len() - i,
    {
        let c = s[i];
        if !('0' <= c && c <= '9') {
            assert(d[i - start] == c);
            assert(!is_digit(d[i - start]));
            assert(!all_digits(d));
            return None;
        }
        let digit = (c as u64) - 48;
        proof {
            assert(d.take(i - start + 1).drop_last() =~= d.take(i - start));
            assert(d.take(i - start + 1).last() == c);
            assert(all_digits(d.take(i - start + 1)));
        }
        assert(acc * 10 <= 42949672950) by (nonlinear_arith)
            requires
                acc <= u32::MAX,
        ;
        acc = acc * 10 + digit;
        i += 1;
        assert(acc == digits_value(d.take(i - start)));
        if acc > 4294967295 {
            proof {
                if all_digits(d) {
                    lemma_digits_value_prefix(d, i - start);
                }
            }
            return None;
        }
    }
    assert(d.take(i - start) =~= d);
    Some(acc as u32)
}

/// `str::parse::<u32>`.
pub fn parse_u32_str(s: &str) -> (r: Option<u32>)
    ensures
        r == parse_u32(s@),
{
    let v = chars_of(s);
    parse_u32_chars(&v)
}

} // verus!

verus! {

// ---------------------------------------------------------------------------
// Ordered sets of strings
// ---------------------------------------------------------------------------

/// The order of `str` (and `String`): lexicographic by character.
pub open spec fn seq_lt(a: Seq<char>, b: Seq<char>) -> bool
    decreases a.len(),
{
    if a.len() == 0 {
        b.len() > 0
    } else if b.len() == 0 {
        false
    } else if a[0] != b[0] {
        a[0] < b[0]
    } else {
        seq_lt(a.drop_first(), b.drop_first())
    }
}

/// `a < b` on character vectors.
pub fn chars_lt(a: &Vec<char>, b: &Vec<char>) -> (r: bool)
    ensures
        r == seq_lt(a@, b@),
{
    let mut i: usize = 0;
    assert(a@.skip(0) =~= a@);
    assert(b@.skip(0) =~= b@);
    while i < a.len() && i < b.len() && a[i] == b[i]
        invariant
            i <= a.len(),
            i <= b.len(),
            seq_lt(a@, b@) == seq_lt(a@.skip(i as int), b@.skip(i as int)),
        decreases a.len() - i,
    {
        assert(a@.skip(i as int).drop_first() =~= a@.skip(i + 1));
        assert(b@.skip(i as int).drop_first() =~= b@.skip(i + 1));
        i += 1;
    }
    if i == a.len() {
        assert(a@.skip(i as int).len() == 0);
        assert(seq_lt(a@.skip(i as int), b@.skip(i as int)) == (b@.skip(i as int).len() > 0));
        i < b.len()
    } else if i == b.len() {
        assert(b@.skip(i as int).len() == 0);
        assert(a@.skip(i as int).len() > 0);
        assert(!seq_lt(a@.skip(i as int), b@.skip(i as int)));
        false
    } else {
        assert(a@.skip(i as int)[0] == a@[i as int]);
        assert(b@.skip(i as int)[0] == b@[i as int]);
        assert(seq_lt(a@, b@) == seq_lt(a@.skip(i as int), b@.skip(i as int)));
        let x = a[i];
        let y = b[i];
        assert(x != y);
        assert(seq_lt(a@.skip(i as int), b@.skip(i as int)) == (x < y));
        x < y
    }
}

/// `t` (ascending, no repeats) with `x` added in order.
pub open spec fn insert_sorted(x: Seq<char>, t: Seq<Seq<char>>) -> Seq<Seq<char>>
    decreases t.len(),
{
    if t.len() == 0 {
        seq![x]
    } else if x == t[0] {
        t
    } else if seq_lt(x, t[0]) {
        seq![x] + t
    } else {
        seq![t[0]] + insert_sorted(x, t.drop_first())
    }
}

/// The distinct elements of `s` in ascending order, as a `BTreeSet` holds
/// them.
pub open spec fn sort_dedup(s: Seq<Seq<char>>) -> Seq<Seq<char>>
    decreases s.len(),
{
    if s.len() == 0 {
        Seq::<Seq<char>>::empty()
    } else {
        insert_sorted(s.last(), sort_dedup(s.drop_last()))
    }
}

proof fn lemma_insert_sorted_skip(x: Seq<char>, t: Seq<Seq<char>>, i: int)
    requires
        0 <= i <= t.len(),
        forall|k: int| 0 <= k < i ==> t[k] != x && !seq_lt(x, t[k]),
    ensures
        insert_sorted(x, t) == t.take(i) + insert_sorted(x, t.skip(i)),
    decreases i,
{
    if i == 0 {
        assert(t.skip(0) =~= t);
        assert(t.take(0) + insert_sorted(x, t.skip(0)) =~= insert_sorted(x, t));
    } else {
        let t1 = t.drop_first();
        assert forall|k: int| 0 <= k < i - 1 implies t1[k] != x && !seq_lt(x, t1[k]) by {
            assert(t1[k] == t[k + 1]);
        }
        lemma_insert_sorted_skip(x, t1, i - 1);
        assert(t1.skip(i - 1) =~= t.skip(i));
        assert(seq![t[0]] + (t1.take(i - 1) + insert_sorted(x, t.skip(i))) =~= t.take(i)
            + insert_sorted(x, t.skip(i)));
    }
}

/// Adding `x` keeps what was there and holds `x`.
pub proof fn lemma_insert_sorted_contains(x: Seq<char>, t: Seq<Seq<char>>)
    ensures
        insert_sorted(x, t).contains(x),
        forall|y: Seq<char>| t.contains(y) ==> insert_sorted(x, t).contains(y),
    decreases t.len(),
{
    let r = insert_sorted(x, t);
    if t.len() == 0 {
        assert(r[0] == x);
    } else if x == t[0] {
        assert(r[0] == x);
    } else if seq_lt(x, t[0]) {
        assert(r[0] == x);
        assert forall|y: Seq<char>| t.contains(y) implies r.contains(y) by {
            let j = choose|j: int| 0 <= j < t.len() && t[j] == y;
            assert(r[j + 1] == y);
        }
    } else {
        let rest = insert_sorted(x, t.drop_first());
        lemma_insert_sorted_contains(x, t.drop_first());
        assert(r == seq![t[0]] + rest);
        let k = choose|k: int| 0 <= k < rest.len() && rest[k] == x;
        assert(r[k + 1] == x);
        assert forall|y: Seq<char>| t.contains(y) implies r.contains(y) by {
            let j = choose|j: int| 0 <= j < t.len() && t[j] == y;
            if j == 0 {
                assert(r[0] == y);
            } else {
                assert(t.drop_first()[j - 1] == y);
                assert(t.drop_first().contains(y));
                let m = choose|m: int| 0 <= m < rest.len() && rest[m] == y;
                assert(r[m + 1] == y);
            }
        }
    }
}

/// No string is below itself.
pub proof fn lemma_seq_lt_irreflexive(a: Seq<char>)
    ensures
        !seq_lt(a, a),
    decreases a.len(),
{
    if a.len() > 0 {
        lemma_seq_lt_irreflexive(a.drop_first());
    }
}

/// Of two different strings, one is below the other.
pub proof fn lemma_seq_lt_total(a: Seq<char>, b: Seq<char>)
    requires
        a != b,
    ensures
        seq_lt(a, b) || seq_lt(b, a),
    decreases a.len(),
{
    if a.len() > 0 && b.len() > 0 && a[0] == b[0] {
        if a.drop_first() == b.drop_first() {
            assert(a =~= seq![a[0]] + a.drop_first());
            assert(b =~= seq![b[0]] + b.drop_first());
        }
        lemma_seq_lt_total(a.drop_first(), b.drop_first());
    } else if a.len() == 0 && b.len() == 0 {
        assert(a =~= b);
    }
}

/// The order of strings is transitive.
pub proof fn lemma_seq_lt_transitive(a: Seq<char>, b: Seq<char>, c: Seq<char>)
    requires
        seq_lt(a, b),
        seq_lt(b, c),
    ensures
        seq_lt(a, c),
    decreases a.len(),
{
    if a.len() > 0 && a[0] == b[0] && b[0] == c[0] {
        lemma_seq_lt_transitive(a.drop_first(), b.drop_first(), c.drop_first());
    }
}

/// The elements a list holds in strictly ascending order.
pub open spec fn strictly_ascending(t: Seq<Seq<char>>) -> bool {
    forall|i: int, j: int| 0 <= i < j < t.len() ==> seq_lt(t[i], t[j])
}

/// Adding `x` to a strictly ascending list keeps it strictly ascending, and
/// the result holds `x` and what the list held, nothing else.
pub proof fn lemma_insert_sorted(x: Seq<char>, t: Seq<Seq<char>>)
    requires
        strictly_ascending(t),
    ensures
        strictly_ascending(insert_sorted(x, t)),
        forall|y: Seq<char>| insert_sorted(x, t).contains(y) <==> (y == x || t.contains(y)),
    decreases t.len(),
{
    let r = insert_sorted(x, t);
    lemma_insert_sorted_contains(x, t);
    if t.len() == 0 {
        assert forall|y: Seq<char>| r.contains(y) implies (y == x || t.contains(y)) by {
            assert(r =~= seq![x]);
        }
    } else if x == t[0] {
    } else if seq_lt(x, t[0]) {
        assert(r =~= seq![x] + t);
        assert forall|i: int, j: int| 0 <= i < j < r.len() implies seq_lt(r[i], r[j]) by {
            if i == 0 && j > 1 {
                lemma_seq_lt_transitive(x, t[0], t[j - 1]);
            }
        }
        assert forall|y: Seq<char>| r.contains(y) implies (y == x || t.contains(y)) by {
            let k = choose|k: int| 0 <= k < r.len() && r[k] == y;
            if k > 0 {
                assert(t[k - 1] == y);
            }
        }
    } else {
        let t1 = t.drop_first();
        let rest = insert_sorted(x, t1);
        assert(strictly_ascending(t1)) by {
            assert forall|i: int, j: int| 0 <= i < j < t1.len() implies seq_lt(t1[i], t1[j]) by {
                assert(t1[i] == t[i + 1] && t1[j] == t[j + 1]);
            }
        }
        lemma_insert_sorted(x, t1);
        assert(r == seq![t[0]] + rest);
        lemma_seq_lt_total(x, t[0]);
        assert(seq_lt(t[0], x));
        assert forall|y: Seq<char>| rest.contains(y) implies seq_lt(t[0], y) by {
            if y != x {
                assert(t1.contains(y));
                let k = choose|k: int| 0 <= k < t1.len() && t1[k] == y;
                assert(t[k + 1] == y);
                assert(seq_lt(t[0], t[k + 1]));
            }
        }
        assert forall|i: int, j: int| 0 <= i < j < r.len() implies seq_lt(r[i], r[j]) by {
            if i == 0 {
                assert(r[j] == rest[j - 1]);
                assert(rest.contains(rest[j - 1]));
            } else {
                assert(r[i] == rest[i - 1] && r[j] == rest[j - 1]);
            }
        }
        assert forall|y: Seq<char>| r.contains(y) implies (y == x || t.contains(y)) by {
            let k = choose|k: int| 0 <= k < r.len() && r[k] == y;
            if k == 0 {
                assert(t[0] == y);
            } else {
                assert(rest[k - 1] == y);
                assert(rest.contains(y));
                if y != x {
                    assert(t1.contains(y));
                    let m = choose|m: int| 0 <= m < t1.len() && t1[m] == y;
                    assert(t[m + 1] == y);
                }
            }
        }
    }
}

/// Sorting without repeats keeps every element.
pub proof fn lemma_sort_dedup_contains(s: Seq<Seq<char>>)
    ensures
        forall|y: Seq<char>| s.contains(y) ==> sort_dedup(s).contains(y),
{
    lemma_sort_dedup(s);
}

/// Sorting without repeats gives a strictly ascending list (so one without
/// repeats) that holds exactly the elements of its input.
pub proof fn lemma_sort_dedup(s: Seq<Seq<char>>)
    ensures
        strictly_ascending(sort_dedup(s)),
        forall|y: Seq<char>| sort_dedup(s).contains(y) <==> s.contains(y),
    decreases s.len(),
{
    if s.len() > 0 {
        let d = s.drop_last();
        lemma_sort_dedup(d);
        lemma_insert_sorted(s.last(), sort_dedup(d));
        assert forall|y: Seq<char>| sort_dedup(s).contains(y) <==> s.contains(y) by {
            if s.contains(y) {
                let j = choose|j: int| 0 <= j < s.len() && s[j] == y;
                if j < s.len() - 1 {
                    assert(d[j] == y);
                }
            }
            if d.contains(y) {
                let j = choose|j: int| 0 <= j < d.len() && d[j] == y;
                assert(s[j] == y);
            }
        }
    }
}

/// Adds `x` to an ascending, repeat-free vector, keeping it so.
pub fn insert_sorted_vec(x: Vec<char>, t: Vec<Vec<char>>) -> (r: Vec<Vec<char>>)
    ensures
        vviews(r@) == insert_sorted(x@, vviews(t@)),
{
    broadcast use lemma_vviews_push;

    let ghost tv = vviews(t@);
    let mut i: usize = 0;
    while i < t.len() && !chars_eq(&t[i], &x) && !chars_lt(&x, &t[i])
        invariant
            i <= t.len(),
            tv == vviews(t@),
            forall|k: int| 0 <= k < i ==> tv[k] != x@ && !seq_lt(x@, tv[k]),
        decreases t.len() - i,
    {
        i += 1;
    }
    proof {
        lemma_insert_sorted_skip(x@, tv, i as int);
    }
    let mut r: Vec<Vec<char>> = Vec::new();
    let mut j: usize = 0;
    while j < i
        invariant
            j <= i <= t.len(),
            tv == vviews(t@),
            vviews(r@) == tv.take(j as int),
        decreases i - j,
    {
        let ghost prev = r@;
        r.push(copy_chars(&t[j]));
        assert(vviews(r@) == vviews(prev).push(t@[j as int]@));
        assert(vviews(r@) =~= tv.take(j + 1));
        j += 1;
    }
    if i == t.len() {
        r.push(x);
        assert(tv.skip(i as int) =~= Seq::<Seq<char>>::empty());
        assert(vviews(r@) =~= tv.take(i as int) + insert_sorted(x@, tv.skip(i as int)));
        return r;
    }
    let is_dup = chars_eq(&t[i], &x);
    if !is_dup {
        r.push(x);
    }
    let mut k = i;
    while k < t.len()
        invariant
            i <= k <= t.len(),
            i < t.len(),
            tv == vviews(t@),
            is_dup == (tv[i as int] == x@),
            is_dup ==> vviews(r@) == tv.take(k as int),
            !is_dup ==> vviews(r@) == tv.take(i as int).push(x@) + tv.subrange(i as int, k as int),
        decreases t.len() - k,
    {
        let ghost prev = r@;
        r.push(copy_chars(&t[k]));
        assert(vviews(r@) == vviews(prev).push(t@[k as int]@));
        proof {
            if is_dup {
                assert(vviews(r@) =~= tv.take(k + 1));
            } else {
                assert(vviews(r@) =~= tv.take(i as int).push(x@) + tv.subrange(i as int, k + 1));
            }
        }
        k += 1;
    }
    proof {
        let s = tv.skip(i as int);
        assert(s[0] == tv[i as int]);
        if is_dup {
            assert(vviews(r@) =~= tv.take(i as int) + s);
            assert(tv =~= tv.take(i as int) + s);
        } else {
            assert(seq_lt(x@, s[0]));
            assert(vviews(r@) =~= tv.take(i as int) + (seq![x@] + s));
        }
    }
    r
}

/// The distinct elements of `s`, ascending (what collecting into a
/// `BTreeSet` and back yields).
pub fn sort_dedup_vec(s: &Vec<Vec<char>>) -> (r: Vec<Vec<char>>)
    ensures
        vviews(r@) == sort_dedup(vviews(s@)),
        strictly_ascending(vviews(r@)),
        forall|y: Seq<char>| vviews(r@).contains(y) <==> vviews(s@).contains(y),
{
    proof {
        lemma_sort_dedup(vviews(s@));
    }
    let mut r: Vec<Vec<char>> = Vec::new();
    let mut i: usize = 0;
    while i < s.len()
        invariant
            i <= s.len(),
            vviews(r@) == sort_dedup(vviews(s@).take(i as int)),
        decreases s.len() - i,
    {
        assert(vviews(s@).take(i + 1).drop_last() =~= vviews(s@).take(i as int));
        r = insert_sorted_vec(copy_chars(&s[i]), r);
        i += 1;
    }
    assert(vviews(s@).take(s.len() as int) =~= vviews(s@));
    r
}

// ---------------------------------------------------------------------------
// Searching lists of strings
// ---------------------------------------------------------------------------

/// The first piece of `s` that passes `f`.
pub open spec fn first_in(s: Seq<Seq<char>>, f: spec_fn(Seq<char>) -> bool) -> Option<Seq<char>>
    decreases s.len(),
{
    if s.len() == 0 {
        None
    } else if f(s[0]) {
        Some(s[0])
    } else {
        first_in(s.drop_first(), f)
    }
}

/// Searching from position `i` on: what is found there is found from `i + 1`
/// on when the piece at `i` fails, and is that piece when it passes.
pub proof fn lemma_first_in_step(s: Seq<Seq<char>>, f: spec_fn(Seq<char>) -> bool, i: int)
    requires
        0 <= i < s.len(),
    ensures
        first_in(s.skip(i), f) == if f(s[i]) {
            Some(s[i])
        } else {
            first_in(s.skip(i + 1), f)
        },
{
    assert(s.skip(i)[0] == s[i]);
    assert(s.skip(i).drop_first() =~= s.skip(i + 1));
}

/// Searching from the start is searching all of `s`; from the end finds
/// nothing.
pub proof fn lemma_first_in_ends(s: Seq<Seq<char>>, f: spec_fn(Seq<char>) -> bool)
    ensures
        first_in(s.skip(0), f) == first_in(s, f),
        first_in(s.skip(s.len() as int), f) is None,
{
    assert(s.skip(0) =~= s);
    assert(s.skip(s.len() as int).len() == 0);
}

// ---------------------------------------------------------------------------
// Occurrences
// ---------------------------------------------------------------------------

/// A run that occurs somewhere is contained.
pub proof fn lemma_occurs_has_seq(h: Seq<char>, n: Seq<char>, i: int)
    requires
        occurs_at(h, n, i),
    ensures
        has_seq(h, n),
{
    if find_from(h, n, 0) is None {
        lemma_find_from_none(h, n, 0);
        assert(!occurs_at(h, n, i));
    }
}

/// `n` occurs in `a + n + b` right after `a`.
pub proof fn lemma_has_seq_middle(a: Seq<char>, n: Seq<char>, b: Seq<char>)
    ensures
        has_seq(a + n + b, n),
{
    let h = a + n + b;
    assert(h.subrange(a.len() as int, (a.len() + n.len()) as int) =~= n);
    lemma_occurs_has_seq(h, n, a.len() as int);
}

/// Each piece of a joined text stands in it whole: the text is something,
/// the piece, and something.
pub proof fn lemma_join_with_piece(pieces: Seq<Seq<char>>, sep: Seq<char>, j: int) -> (r: (
    Seq<char>,
    Seq<char>,
))
    requires
        0 <= j < pieces.len(),
    ensures
        join_with(pieces, sep) == r.0 + pieces[j] + r.1,
    decreases pieces.len(),
{
    if pieces.len() == 1 {
        assert(join_with(pieces, sep) =~= Seq::<char>::empty() + pieces[j] + Seq::<char>::empty());
        (Seq::<char>::empty(), Seq::<char>::empty())
    } else if j == pieces.len() - 1 {
        let p = join_with(pieces.drop_last(), sep) + sep;
        assert(join_with(pieces, sep) =~= p + pieces[j] + Seq::<char>::empty());
        (p, Seq::<char>::empty())
    } else {
        let d = pieces.drop_last();
        let (p, q) = lemma_join_with_piece(d, sep, j);
        assert(d[j] == pieces[j]);
        assert(join_with(pieces, sep) =~= p + pieces[j] + (q + sep + pieces.last()));
        (p, q + sep + pieces.last())
    }
}

} // verus!
