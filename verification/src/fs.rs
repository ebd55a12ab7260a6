//! A listing of the parts of the file system that the compiler services
//! inspect. Each entry is a path, its kind and, for files, whether a zip
//! reader accepts it. Entries appear in directory-walk order (a pre-order
//! walk), so that the first entry below a root that passes a test is the
//! first one a walk from that root meets.

use vstd::prelude::*;

use crate::paths::{components, components_of, relative, relative_of};
use crate::text::chars_of;

verus! {

/// The kind of a file-system entry.
#[derive(Clone, Copy, Debug, PartialEq, Eq, Structural)]
pub enum EntryKind {
    File,
    Dir,
    Other,
}

/// One listed entry.
pub struct FsEntry {
    pub path: String,
    pub kind: EntryKind,
    /// For a file: a zip reader opens it as an archive.
    pub readable_zip: bool,
}

/// The view of an entry: its path, kind and archive flag.
pub type EntryView = (Seq<char>, EntryKind, bool);

impl View for FsEntry {
    type V = EntryView;

    open spec fn view(&self) -> EntryView {
        (self.path@, self.kind, self.readable_zip)
    }
}

/// A listing of file-system entries in walk order.
pub struct FsSnapshot {
    pub entries: Vec<FsEntry>,
}

impl View for FsSnapshot {
    type V = Seq<EntryView>;

    open spec fn view(&self) -> Seq<EntryView> {
        self.entries@.map_values(|e: FsEntry| e@)
    }
}

/// The kind and archive flag of the first entry listed for path `p`.
pub open spec fn lookup(es: Seq<EntryView>, p: Seq<char>) -> Option<(EntryKind, bool)>
    decreases es.len(),
{
    if es.len() == 0 {
        None
    } else if es[0].0 == p {
        Some((es[0].1, es[0].2))
    } else {
        lookup(es.drop_first(), p)
    }
}

/// `Path::exists`.
pub open spec fn fs_exists(es: Seq<EntryView>, p: Seq<char>) -> bool {
    lookup(es, p) is Some
}

/// `Path::is_dir`.
pub open spec fn fs_is_dir(es: Seq<EntryView>, p: Seq<char>) -> bool {
    lookup(es, p) matches Some((k, _)) && k == EntryKind::Dir
}

/// `Path::is_file`.
pub open spec fn fs_is_file(es: Seq<EntryView>, p: Seq<char>) -> bool {
    lookup(es, p) matches Some((k, _)) && k == EntryKind::File
}

/// A file at `p` that a zip reader opens as an archive.
pub open spec fn fs_readable_zip(es: Seq<EntryView>, p: Seq<char>) -> bool {
    lookup(es, p) matches Some((k, z)) && k == EntryKind::File && z
}

/// How many components `p` lies below `root`.
pub open spec fn depth_of(root: Seq<char>, p: Seq<char>) -> Option<nat> {
    match relative(root, p) {
        Some(rel) => Some(components(rel).len()),
        None => None,
    }
}

/// A walk from `root` with the given depth bounds visits `p`.
pub open spec fn in_walk(root: Seq<char>, p: Seq<char>, min_depth: nat, max_depth: nat) -> bool {
    depth_of(root, p) matches Some(d) && min_depth <= d <= max_depth
}

/// The first entry in `es` that passes `f`.
pub open spec fn first_where(es: Seq<EntryView>, f: spec_fn(EntryView) -> bool) -> Option<
    EntryView,
>
    decreases es.len(),
{
    if es.len() == 0 {
        None
    } else if f(es[0]) {
        Some(es[0])
    } else {
        first_where(es.drop_first(), f)
    }
}

pub proof fn lemma_first_where_step(es: Seq<EntryView>, f: spec_fn(EntryView) -> bool, i: int)
    requires
        0 <= i < es.len(),
        !f(es[i]),
    ensures
        first_where(es.skip(i), f) == first_where(es.skip(i + 1), f),
{
    assert(es.skip(i).drop_first() =~= es.skip(i + 1));
}

pub proof fn lemma_first_where_hit(es: Seq<EntryView>, f: spec_fn(EntryView) -> bool, i: int)
    requires
        0 <= i < es.len(),
        f(es[i]),
    ensures
        first_where(es.skip(i), f) == Some(es[i]),
{
}

pub proof fn lemma_first_where_end(es: Seq<EntryView>, f: spec_fn(EntryView) -> bool)
    ensures
        first_where(es.skip(es.len() as int), f) is None,
{
    assert(es.skip(es.len() as int).len() == 0);
}

/// What `first_where` finds passes the test.
pub proof fn lemma_first_where_passes(es: Seq<EntryView>, f: spec_fn(EntryView) -> bool)
    ensures
        first_where(es, f) matches Some(e) ==> f(e),
    decreases es.len(),
{
    if es.len() > 0 && !f(es[0]) {
        lemma_first_where_passes(es.drop_first(), f);
    }
}

pub proof fn lemma_first_where_start(es: Seq<EntryView>, f: spec_fn(EntryView) -> bool)
    ensures
        first_where(es.skip(0), f) == first_where(es, f),
{
    assert(es.skip(0) =~= es);
}

impl FsSnapshot {
    /// The kind and archive flag of the entry listed for `p`.
    pub fn lookup(&self, p: &Vec<char>) -> (r: Option<(EntryKind, bool)>)
        ensures
            r == lookup(self@, p@),
    {
        let mut i: usize = 0;
        assert(self@.skip(0) =~= self@);
        while i < self.entries.len()
            invariant
                i <= self.entries.len(),
                lookup(self@, p@) == lookup(self@.skip(i as int), p@),
            decreases self.entries.len() - i,
        {
            let e = &self.entries[i];
            let ep = chars_of(e.path.as_str());
            assert(self@.skip(i as int)[0] == e@);
            if crate::text::chars_eq(&ep, p) {
                return Some((e.kind, e.readable_zip));
            }
            assert(self@.skip(i as int).drop_first() =~= self@.skip(i + 1));
            i += 1;
        }
        None
    }

    pub fn path_exists(&self, p: &Vec<char>) -> (r: bool)
        ensures
            r == fs_exists(self@, p@),
    {
        self.lookup(p).is_some()
    }

    pub fn is_dir(&self, p: &Vec<char>) -> (r: bool)
        ensures
            r == fs_is_dir(self@, p@),
    {
        match self.lookup(p) {
            Some((k, _)) => k == EntryKind::Dir,
            None => false,
        }
    }

    pub fn is_file(&self, p: &Vec<char>) -> (r: bool)
        ensures
            r == fs_is_file(self@, p@),
    {
        match self.lookup(p) {
            Some((k, _)) => k == EntryKind::File,
            None => false,
        }
    }

    pub fn readable_zip(&self, p: &Vec<char>) -> (r: bool)
        ensures
            r == fs_readable_zip(self@, p@),
    {
        match self.lookup(p) {
            Some((k, z)) => k == EntryKind::File && z,
            None => false,
        }
    }

    /// The path of the `i`-th entry.
    pub fn path_at(&self, i: usize) -> (r: Vec<char>)
        requires
            i < self@.len(),
        ensures
            r@ == self@[i as int].0,
    {
        chars_of(self.entries[i].path.as_str())
    }
}

/// How many components `p` lies below `root`.
pub fn depth_below(root: &Vec<char>, p: &Vec<char>) -> (r: Option<usize>)
    ensures
        r matches Some(d) ==> depth_of(root@, p@) == Some(d as nat),
        r is None ==> depth_of(root@, p@) is None,
{
    match relative_of(root, p) {
        Some(rel) => {
            let c = components_of(&rel);
            assert(c@.len() == crate::text::vviews(c@).len());
            Some(c.len())
        },
        None => None,
    }
}

/// A walk from `root` with the given depth bounds visits `p`.
pub fn walk_visits(root: &Vec<char>, p: &Vec<char>, min_depth: usize, max_depth: usize) -> (r:
    bool)
    ensures
        r == in_walk(root@, p@, min_depth as nat, max_depth as nat),
{
    match depth_below(root, p) {
        Some(d) => min_depth <= d && d <= max_depth,
        None => false,
    }
}

} // verus!
