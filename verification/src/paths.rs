//! Paths as text. The library builds every path it hands out by joining
//! components with `/`, and reads them back with the operations here.

use vstd::prelude::*;

use crate::text::{chars_eq, chars_of, concat, slice_chars, split_chars, split_on, starts_with, vviews};

verus! {

/// `a` joined with the relative component(s) `b`.
pub open spec fn path_join(a: Seq<char>, b: Seq<char>) -> Seq<char> {
    if a.len() == 0 {
        b
    } else if a.last() == '/' {
        a + b
    } else {
        a + seq!['/'] + b
    }
}

pub fn join(a: &Vec<char>, b: &Vec<char>) -> (r: Vec<char>)
    ensures
        r@ == path_join(a@, b@),
{
    if a.len() == 0 {
        b.clone()
    } else if a[a.len() - 1] == '/' {
        concat(a, b)
    } else {
        let mut s = a.clone();
        s.push('/');
        concat(&s, b)
    }
}

pub fn join_str(a: &Vec<char>, b: &str) -> (r: Vec<char>)
    ensures
        r@ == path_join(a@, b@),
{
    let bv = chars_of(b);
    join(a, &bv)
}

/// The position of the last `/` in `p`, if any.
pub open spec fn last_slash(p: Seq<char>) -> Option<int>
    decreases p.len(),
{
    if p.len() == 0 {
        None
    } else if p.last() == '/' {
        Some(p.len() - 1)
    } else {
        last_slash(p.drop_last())
    }
}

pub proof fn lemma_last_slash(p: Seq<char>)
    ensures
        last_slash(p) matches Some(i) ==> 0 <= i < p.len() && p[i] == '/' && forall|k: int|
            i < k < p.len() ==> p[k] != '/',
        last_slash(p) is None ==> forall|k: int| 0 <= k < p.len() ==> p[k] != '/',
    decreases p.len(),
{
    if p.len() > 0 && p.last() != '/' {
        lemma_last_slash(p.drop_last());
        assert forall|k: int| 0 <= k < p.len() - 1 implies p.drop_last()[k] == p[k] by {}
    }
}

pub fn find_last_slash(p: &Vec<char>) -> (r: Option<usize>)
    ensures
        r matches Some(i) ==> last_slash(p@) == Some(i as int) && i < p@.len(),
        r is None ==> last_slash(p@) is None,
{
    proof {
        lemma_last_slash(p@);
    }
    let mut j: usize = p.len();
    assert(p@.take(j as int) =~= p@);
    while j > 0
        invariant
            j <= p.len(),
            last_slash(p@) == last_slash(p@.take(j as int)),
        decreases j,
    {
        assert(p@.take(j as int).drop_last() =~= p@.take(j - 1));
        if p[j - 1] == '/' {
            return Some(j - 1);
        }
        j -= 1;
    }
    None
}

/// The last component of `p` (`Path::file_name` on normalized paths):
/// `None` when it is empty, `.` or `..`.
pub open spec fn file_name(p: Seq<char>) -> Option<Seq<char>> {
    let name = match last_slash(p) {
        Some(i) => p.skip(i + 1),
        None => p,
    };
    if name.len() == 0 || name == seq!['.'] || name == seq!['.', '.'] {
        None
    } else {
        Some(name)
    }
}

pub fn file_name_of(p: &Vec<char>) -> (r: Option<Vec<char>>)
    ensures
        r matches Some(v) ==> file_name(p@) == Some(v@),
        r is None ==> file_name(p@) is None,
{
    let ls = find_last_slash(p);
    let name = match ls {
        Some(i) => {
            assert(i < p.len());
            slice_chars(p, i + 1, p.len())
        },
        None => p.clone(),
    };
    assert(match last_slash(p@) {
        Some(i) => name@ =~= p@.skip(i + 1),
        None => name@ =~= p@,
    });
    if name.len() == 0 || (name.len() == 1 && name[0] == '.') || (name.len() == 2 && name[0]
        == '.' && name[1] == '.') {
        proof {
            if name.len() == 1 {
                assert(name@ =~= seq!['.']);
            }
            if name.len() == 2 {
                assert(name@ =~= seq!['.', '.']);
            }
        }
        None
    } else {
        proof {
            if name@ == seq!['.'] {
                assert(name@.len() == 1);
            }
            if name@ == seq!['.', '.'] {
                assert(name@.len() == 2);
            }
        }
        Some(name)
    }
}

/// The path without its last component (`Path::parent` on normalized
/// paths): `None` for the empty path and for `/`.
pub open spec fn parent(p: Seq<char>) -> Option<Seq<char>> {
    match last_slash(p) {
        None => if p.len() == 0 {
            None
        } else {
            Some(Seq::<char>::empty())
        },
        Some(i) => if i == 0 {
            if p.len() == 1 {
                None
            } else {
                Some(seq!['/'])
            }
        } else {
            Some(p.take(i))
        },
    }
}

pub fn parent_of(p: &Vec<char>) -> (r: Option<Vec<char>>)
    ensures
        r matches Some(v) ==> parent(p@) == Some(v@),
        r is None ==> parent(p@) is None,
{
    match find_last_slash(p) {
        None => if p.len() == 0 {
            None
        } else {
            let v: Vec<char> = Vec::new();
            assert(v@ =~= Seq::<char>::empty());
            Some(v)
        },
        Some(i) => if i == 0 {
            if p.len() == 1 {
                None
            } else {
                let mut v: Vec<char> = Vec::new();
                v.push('/');
                assert(v@ =~= seq!['/']);
                Some(v)
            }
        } else {
            let v = slice_chars(p, 0, i);
            assert(v@ =~= p@.take(i as int));
            Some(v)
        },
    }
}

/// The extension of the last component (`Path::extension`): the text after
/// its last `.`, unless that `.` is the component's first character.
pub open spec fn extension(p: Seq<char>) -> Option<Seq<char>> {
    match file_name(p) {
        None => None,
        Some(name) => match last_dot(name) {
            Some(i) => if i == 0 {
                None
            } else {
                Some(name.skip(i + 1))
            },
            None => None,
        },
    }
}

/// The position of the last `.` in `s`, if any.
pub open spec fn last_dot(s: Seq<char>) -> Option<int>
    decreases s.len(),
{
    if s.len() == 0 {
        None
    } else if s.last() == '.' {
        Some(s.len() - 1)
    } else {
        last_dot(s.drop_last())
    }
}

pub fn extension_of(p: &Vec<char>) -> (r: Option<Vec<char>>)
    ensures
        r matches Some(v) ==> extension(p@) == Some(v@),
        r is None ==> extension(p@) is None,
{
    match file_name_of(p) {
        None => None,
        Some(name) => {
            let mut j: usize = name.len();
            assert(name@.take(j as int) =~= name@);
            while j > 0
                invariant
                    j <= name.len(),
                    file_name(p@) == Some(name@),
                    last_dot(name@) == last_dot(name@.take(j as int)),
                decreases j,
            {
                assert(name@.take(j as int).drop_last() =~= name@.take(j - 1));
                if name[j - 1] == '.' {
                    if j - 1 == 0 {
                        return None;
                    }
                    let e = slice_chars(&name, j, name.len());
                    assert(e@ =~= name@.skip(j as int));
                    return Some(e);
                }
                j -= 1;
            }
            assert(name@.take(0) =~= Seq::<char>::empty());
            None
        },
    }
}

/// The last component without its extension (`Path::file_stem`).
pub open spec fn file_stem(p: Seq<char>) -> Option<Seq<char>> {
    match file_name(p) {
        None => None,
        Some(name) => match last_dot(name) {
            Some(i) => if i == 0 {
                Some(name)
            } else {
                Some(name.take(i))
            },
            None => Some(name),
        },
    }
}

pub fn file_stem_of(p: &Vec<char>) -> (r: Option<Vec<char>>)
    ensures
        r matches Some(v) ==> file_stem(p@) == Some(v@),
        r is None ==> file_stem(p@) is None,
{
    match file_name_of(p) {
        None => None,
        Some(name) => {
            let mut j: usize = name.len();
            assert(name@.take(j as int) =~= name@);
            while j > 0
                invariant
                    j <= name.len(),
                    file_name(p@) == Some(name@),
                    last_dot(name@) == last_dot(name@.take(j as int)),
                decreases j,
            {
                assert(name@.take(j as int).drop_last() =~= name@.take(j - 1));
                if name[j - 1] == '.' {
                    if j - 1 == 0 {
                        return Some(name);
                    }
                    let stem = slice_chars(&name, 0, j - 1);
                    assert(stem@ =~= name@.take(j - 1));
                    return Some(stem);
                }
                j -= 1;
            }
            assert(name@.take(0) =~= Seq::<char>::empty());
            Some(name)
        },
    }
}

/// `p` relative to `root`: empty when they are equal, the rest after
/// `root/` when `p` lies below `root`, `None` otherwise.
pub open spec fn relative(root: Seq<char>, p: Seq<char>) -> Option<Seq<char>> {
    let prefix = path_join(root, Seq::<char>::empty());
    if p == root {
        Some(Seq::<char>::empty())
    } else if root.len() > 0 && prefix.is_prefix_of(p) && p.len() > prefix.len() {
        Some(p.skip(prefix.len() as int))
    } else {
        None
    }
}

pub fn relative_of(root: &Vec<char>, p: &Vec<char>) -> (r: Option<Vec<char>>)
    ensures
        r matches Some(v) ==> relative(root@, p@) == Some(v@),
        r is None ==> relative(root@, p@) is None,
{
    if chars_eq(p, root) {
        let v: Vec<char> = Vec::new();
        assert(v@ =~= Seq::<char>::empty());
        return Some(v);
    }
    let empty: Vec<char> = Vec::new();
    let prefix = join(root, &empty);
    if root.len() > 0 && starts_with(p, &prefix) && p.len() > prefix.len() {
        let v = slice_chars(p, prefix.len(), p.len());
        assert(v@ =~= p@.skip(prefix@.len() as int));
        Some(v)
    } else {
        None
    }
}

/// The components of a relative path: its pieces between `/`, without empty
/// pieces.
pub open spec fn components(rel: Seq<char>) -> Seq<Seq<char>> {
    split_on(rel, '/').filter(|c: Seq<char>| c.len() > 0)
}

/// How many components `p` lies below `root`.
pub open spec fn depth_below(root: Seq<char>, p: Seq<char>) -> Option<nat> {
    match relative(root, p) {
        Some(rel) => Some(components(rel).len()),
        None => None,
    }
}

/// The non-empty pieces of `rel` between `/`.
pub fn components_of(rel: &Vec<char>) -> (r: Vec<Vec<char>>)
    ensures
        vviews(r@) == components(rel@),
{
    let pieces = split_chars(rel, '/');
    let mut r: Vec<Vec<char>> = Vec::new();
    let mut i: usize = 0;
    while i < pieces.len()
        invariant
            i <= pieces.len(),
            vviews(pieces@) == split_on(rel@, '/'),
            vviews(r@) == vviews(pieces@).take(i as int).filter(|c: Seq<char>| c.len() > 0),
        decreases pieces.len() - i,
    {
        let ghost before = vviews(r@);
        proof {
            let f = |c: Seq<char>| c.len() > 0;
            let t = vviews(pieces@).take(i + 1);
            assert(t.drop_last() =~= vviews(pieces@).take(i as int));
            vviews(pieces@).take(i as int).lemma_filter_push(vviews(pieces@)[i as int], f);
            assert(vviews(pieces@).take(i as int).push(vviews(pieces@)[i as int]) =~= t);
        }
        if pieces[i].len() > 0 {
            r.push(pieces[i].clone());
            assert(vviews(r@) =~= before.push(pieces@[i as int]@));
        } else {
            assert(vviews(r@) =~= before);
        }
        i += 1;
    }
    assert(vviews(pieces@).take(pieces.len() as int) =~= vviews(pieces@));
    r
}

} // verus!
