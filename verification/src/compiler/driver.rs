//! The decisions of a plugin build: target and module names, where the
//! build goes, which binary it produced and what a failed command reports.

use vstd::prelude::*;

use crate::compiler::{
    local_data_root, require_dir, sanitize_path_name, spec_local_data_root, spec_require_dir,
    spec_sanitize_path_name, srv, osv, sviews,
};
use crate::fs::{fs_is_file, first_where, EntryKind, EntryView, FsSnapshot};
use crate::paths::{
    components, components_of, extension, extension_of, file_name, file_name_of, file_stem,
    file_stem_of, join, join_str, parent, parent_of,
    path_join, relative, relative_of,
};
use crate::text::{
    ascii_lower_seq, chars_eq, chars_of, concat, eq_ignore_ascii_case, first_in, has_seq,
    join_chars, join_with, lines, lines_of, sort_dedup, sort_dedup_vec, str_contains, str_eq,
    string_of, to_ascii_lowercase, trim, trim_chars, trim_end, trim_end_char, trim_start, vviews,
};
use crate::types::{rv, BuildRequest};
use crate::utils::platform::HostOs;

verus! {

// ---------------------------------------------------------------------------
// Names
// ---------------------------------------------------------------------------

/// The CMake target of a module: its sanitized name, or the name itself
/// where sanitizing leaves nothing.
pub open spec fn spec_cmake_target_name(module_name: Seq<char>) -> Seq<char> {
    let s = spec_sanitize_path_name(module_name);
    if s.len() == 0 {
        module_name
    } else {
        s
    }
}

pub fn cmake_target_name(module_name: &str) -> (r: String)
    ensures
        r@ == spec_cmake_target_name(module_name@),
{
    let sanitized = sanitize_path_name(module_name);
    if sanitized.as_str().is_empty() {
        crate::text::owned(module_name)
    } else {
        sanitized
    }
}

// ---------------------------------------------------------------------------
// Command failures
// ---------------------------------------------------------------------------

/// A line that reports a compiler or build-system failure.
pub open spec fn spec_is_diagnostic_line(line: Seq<char>) -> bool {
    ||| has_seq(line, "error:"@)
    ||| has_seq(line, "fatal error:"@)
    ||| has_seq(line, "** BUILD FAILED **"@)
    ||| has_seq(line, "The following build commands failed:"@)
}

pub fn is_diagnostic_line(line: &str) -> (r: bool)
    ensures
        r == spec_is_diagnostic_line(line@),
{
    str_contains(line, "error:") || str_contains(line, "fatal error:") || str_contains(
        line,
        "** BUILD FAILED **",
    ) || str_contains(line, "The following build commands failed:")
}

/// The last `count` lines of `text`, joined by line breaks.
pub open spec fn spec_tail_lines(text: Seq<char>, count: nat) -> Seq<char> {
    let ls = lines(text);
    let start = if ls.len() > count {
        ls.len() - count
    } else {
        0
    };
    join_with(ls.skip(start), "\n"@)
}

pub fn tail_lines(text: &str, count: usize) -> (r: String)
    ensures
        r@ == spec_tail_lines(text@, count as nat),
{
    let t = chars_of(text);
    let ls = lines_of(&t);
    let start: usize = if ls.len() > count {
        ls.len() - count
    } else {
        0
    };
    let mut kept: Vec<Vec<char>> = Vec::new();
    let mut i: usize = start;
    while i < ls.len()
        invariant
            start <= i <= ls.len(),
            vviews(kept@) == vviews(ls@).subrange(start as int, i as int),
        decreases ls.len() - i,
    {
        let ghost prev = kept@;
        kept.push(ls[i].clone());
        proof {
            crate::text::lemma_vviews_push(prev, kept@[prev.len() as int]);
            assert(kept@ == prev.push(kept@[prev.len() as int]));
        }
        assert(vviews(kept@) =~= vviews(ls@).subrange(start as int, i + 1));
        i += 1;
    }
    assert(vviews(ls@).subrange(start as int, ls.len() as int) =~= vviews(ls@).skip(start as int));
    let nl = chars_of("\n");
    string_of(&join_chars(&kept, &nl))
}

/// Line `j` lies within two lines before or three lines after a diagnostic
/// line.
pub open spec fn near_diagnostic(ls: Seq<Seq<char>>, j: int) -> bool {
    exists|i: int| 0 <= i < ls.len() && j - 3 <= i <= j + 2 && #[trigger] spec_is_diagnostic_line(ls[i])
}

/// The context lines among the first `j` lines, with `...` where lines were
/// skipped between two kept ones, and the last line kept.
pub open spec fn context_upto(ls: Seq<Seq<char>>, j: nat) -> (Seq<Seq<char>>, Option<int>)
    decreases j,
{
    if j == 0 {
        (Seq::<Seq<char>>::empty(), None)
    } else {
        let (out, prev) = context_upto(ls, (j - 1) as nat);
        let k = j - 1;
        if near_diagnostic(ls, k) {
            let gap = match prev {
                Some(p) => k > p + 1,
                None => false,
            };
            (if gap {
                out.push("..."@).push(ls[k])
            } else {
                out.push(ls[k])
            }, Some(k))
        } else {
            (out, prev)
        }
    }
}

/// The lines around the diagnostics of a command's output.
pub open spec fn spec_diagnostic_context(text: Seq<char>) -> Seq<char> {
    let ls = lines(text);
    join_with(context_upto(ls, ls.len()).0, "\n"@)
}

fn near_flag(flags: &Vec<bool>, j: usize, ls: Ghost<Seq<Seq<char>>>) -> (r: bool)
    requires
        flags.len() == ls@.len(),
        j < flags.len(),
        forall|i: int| 0 <= i < flags.len() ==> flags@[i] == spec_is_diagnostic_line(ls@[i]),
    ensures
        r == near_diagnostic(ls@, j as int),
{
    let lo: usize = if j >= 3 {
        j - 3
    } else {
        0
    };
    let hi: usize = if flags.len() - j > 3 {
        j + 3
    } else {
        flags.len()
    };
    let mut i: usize = lo;
    while i < hi
        invariant
            lo <= i <= hi <= flags.len(),
            flags.len() == ls@.len(),
            lo == (if j >= 3 { j - 3 } else { 0 }),
            hi == (if j + 3 < flags.len() { j + 3 } else { flags.len() as int }),
            forall|k: int| 0 <= k < flags.len() ==> flags@[k] == spec_is_diagnostic_line(ls@[k]),
            forall|k: int| lo <= k < i ==> !spec_is_diagnostic_line(#[trigger] ls@[k]),
        decreases hi - i,
    {
        if flags[i] {
            assert(spec_is_diagnostic_line(ls@[i as int]));
            return true;
        }
        i += 1;
    }
    assert forall|k: int|
        0 <= k < ls@.len() && j - 3 <= k <= j + 2 implies !spec_is_diagnostic_line(
        #[trigger] ls@[k],
    ) by {
        assert(lo <= k < hi);
    }
    false
}

pub fn diagnostic_context(text: &str) -> (r: String)
    ensures
        r@ == spec_diagnostic_context(text@),
{
    let t = chars_of(text);
    let ls = lines_of(&t);
    let ghost lv = vviews(ls@);
    let mut flags: Vec<bool> = Vec::new();
    let mut i: usize = 0;
    while i < ls.len()
        invariant
            i <= ls.len(),
            lv == vviews(ls@),
            flags.len() == i,
            forall|k: int| 0 <= k < i ==> flags@[k] == spec_is_diagnostic_line(lv[k]),
        decreases ls.len() - i,
    {
        let line = string_of(&ls[i]);
        flags.push(is_diagnostic_line(line.as_str()));
        i += 1;
    }
    let mut out: Vec<Vec<char>> = Vec::new();
    let mut prev: Option<usize> = None;
    let mut j: usize = 0;
    while j < ls.len()
        invariant
            j <= ls.len(),
            lv == vviews(ls@),
            flags.len() == ls.len(),
            forall|k: int| 0 <= k < flags.len() ==> flags@[k] == spec_is_diagnostic_line(lv[k]),
            vviews(out@) == context_upto(lv, j as nat).0,
            context_upto(lv, j as nat).1 == (match prev {
                Some(p) => Some(p as int),
                None => None::<int>,
            }),
            prev matches Some(p) ==> p < j,
        decreases ls.len() - j,
    {
        let ghost before = out@;
        if near_flag(&flags, j, Ghost(lv)) {
            let gap = match prev {
                Some(p) => j > p + 1,
                None => false,
            };
            if gap {
                out.push(chars_of("..."));
                proof {
                    reveal_strlit("...");
                    crate::text::lemma_vviews_push(before, out@[before.len() as int]);
                    assert(out@ == before.push(out@[before.len() as int]));
                }
            }
            let ghost mid = out@;
            out.push(ls[j].clone());
            proof {
                crate::text::lemma_vviews_push(mid, out@[mid.len() as int]);
                assert(out@ == mid.push(out@[mid.len() as int]));
                reveal_strlit("...");
            }
            prev = Some(j);
        }
        j += 1;
    }
    let nl = chars_of("\n");
    string_of(&join_chars(&out, &nl))
}

/// What a failed command reports: the diagnostic context of its output, or
/// its last 80 lines where there is none.
pub open spec fn spec_command_failure_summary(text: Seq<char>) -> Seq<char> {
    let d = spec_diagnostic_context(text);
    if d.len() == 0 {
        spec_tail_lines(text, 80)
    } else {
        d
    }
}

pub fn command_failure_summary(text: &str) -> (r: String)
    ensures
        r@ == spec_command_failure_summary(text@),
{
    let diagnostic = diagnostic_context(text);
    if diagnostic.as_str().is_empty() {
        tail_lines(text, 80)
    } else {
        diagnostic
    }
}

/// An Xcode failure caused by legacy SDK files generated too late: worth
/// one more try.
pub open spec fn spec_is_missing_legacy_generated_file_error(error: Seq<char>) -> bool {
    &&& has_seq(error, "Build input file cannot be found"@)
    &&& has_seq(error, "generated/hxx"@)
    &&& has_seq(error, "register.cpp"@)
}

pub fn is_missing_legacy_generated_file_error(error: &str) -> (r: bool)
    ensures
        r == spec_is_missing_legacy_generated_file_error(error@),
{
    str_contains(error, "Build input file cannot be found") && str_contains(error, "generated/hxx")
        && str_contains(error, "register.cpp")
}

// ---------------------------------------------------------------------------
// Legacy Xcode schemes
// ---------------------------------------------------------------------------

/// The scheme a legacy build uses: the first named like the module (ASCII
/// case ignored), else the first that is no framework.
pub open spec fn spec_select_legacy_xcode_scheme(schemes: Seq<Seq<char>>, module_name: Seq<char>) -> Option<
    Seq<char>,
> {
    match first_in(schemes, |s: Seq<char>| eq_ignore_ascii_case(s, module_name)) {
        Some(s) => Some(s),
        None => first_in(schemes, |s: Seq<char>| !(".framework"@).is_suffix_of(s)),
    }
}

fn first_scheme_named(schemes: &[String], module_name: &str) -> (r: Option<String>)
    ensures
        (match r {
            Some(s) => Some(s@),
            None => None,
        }) == first_in(sviews(schemes@), |s: Seq<char>| eq_ignore_ascii_case(s, module_name@)),
{
    let ghost sv = sviews(schemes@);
    let ghost f = |s: Seq<char>| eq_ignore_ascii_case(s, module_name@);
    let m = chars_of(module_name);
    proof {
        crate::text::lemma_first_in_ends(sv, f);
    }
    let mut i: usize = 0;
    while i < schemes.len()
        invariant
            i <= schemes.len(),
            sv == sviews(schemes@),
            m@ == module_name@,
            f == (|s: Seq<char>| eq_ignore_ascii_case(s, module_name@)),
            first_in(sv, f) == first_in(sv.skip(i as int), f),
        decreases schemes.len() - i,
    {
        proof {
            crate::text::lemma_first_in_step(sv, f, i as int);
        }
        let c = chars_of(schemes[i].as_str());
        if crate::text::chars_eq_ignore_ascii_case(&c, &m) {
            return Some(schemes[i].clone());
        }
        i += 1;
    }
    proof {
        crate::text::lemma_first_in_ends(sv, f);
    }
    None
}

fn first_non_framework(schemes: &[String]) -> (r: Option<String>)
    ensures
        (match r {
            Some(s) => Some(s@),
            None => None,
        }) == first_in(sviews(schemes@), |s: Seq<char>| !(".framework"@).is_suffix_of(s)),
{
    let ghost sv = sviews(schemes@);
    let ghost f = |s: Seq<char>| !(".framework"@).is_suffix_of(s);
    let suffix = chars_of(".framework");
    proof {
        crate::text::lemma_first_in_ends(sv, f);
    }
    let mut i: usize = 0;
    while i < schemes.len()
        invariant
            i <= schemes.len(),
            sv == sviews(schemes@),
            suffix@ == ".framework"@,
            f == (|s: Seq<char>| !(".framework"@).is_suffix_of(s)),
            first_in(sv, f) == first_in(sv.skip(i as int), f),
        decreases schemes.len() - i,
    {
        proof {
            crate::text::lemma_first_in_step(sv, f, i as int);
        }
        let c = chars_of(schemes[i].as_str());
        if !crate::text::ends_with(&c, &suffix) {
            return Some(schemes[i].clone());
        }
        i += 1;
    }
    proof {
        crate::text::lemma_first_in_ends(sv, f);
    }
    None
}

pub fn select_legacy_xcode_scheme(schemes: &[String], module_name: &str) -> (r: Option<String>)
    ensures
        (match r {
            Some(s) => Some(s@),
            None => None,
        }) == spec_select_legacy_xcode_scheme(sviews(schemes@), module_name@),
{
    match first_scheme_named(schemes, module_name) {
        Some(s) => Some(s),
        None => first_non_framework(schemes),
    }
}

// ---------------------------------------------------------------------------
// Copying a plugin into a legacy SDK
// ---------------------------------------------------------------------------

/// Folders and files a plugin copy leaves out: version control, caches,
/// editor settings and build outputs.
pub open spec fn spec_is_ignored_plugin_copy_name(name: Seq<char>) -> bool {
    ||| name == ".git"@
    ||| name == ".hg"@
    ||| name == ".svn"@
    ||| name == ".cache"@
    ||| name == ".pytest_cache"@
    ||| name == ".idea"@
    ||| name == ".vscode"@
    ||| name == "__pycache__"@
    ||| name == "build"@
    ||| name == "dist"@
    ||| name == "node_modules"@
    ||| name == "target"@
}

pub fn is_ignored_plugin_copy_name(name: &str) -> (r: bool)
    ensures
        r == spec_is_ignored_plugin_copy_name(name@),
{
    str_eq(name, ".git") || str_eq(name, ".hg") || str_eq(name, ".svn") || str_eq(name, ".cache")
        || str_eq(name, ".pytest_cache") || str_eq(name, ".idea") || str_eq(name, ".vscode")
        || str_eq(name, "__pycache__") || str_eq(name, "build") || str_eq(name, "dist")
        || str_eq(name, "node_modules") || str_eq(name, "target")
}

/// A walk of the plugin folder `source` copies `path`: the folder itself,
/// and anything below it none of whose components is left out.
pub open spec fn spec_should_copy_plugin_entry(source: Seq<char>, path: Seq<char>) -> bool {
    if path == source {
        true
    } else {
        match relative(source, path) {
            Some(rel) => no_ignored_component(rel),
            None => true,
        }
    }
}

/// No component of the relative path `rel` is left out of a copy.
pub open spec fn no_ignored_component(rel: Seq<char>) -> bool {
    forall|i: int|
        0 <= i < components(rel).len() ==> !spec_is_ignored_plugin_copy_name(
            #[trigger] components(rel)[i],
        )
}

#[verifier::loop_isolation(false)]
pub fn should_copy_plugin_entry(source: &str, path: &str) -> (r: bool)
    ensures
        r == spec_should_copy_plugin_entry(source@, path@),
{
    if str_eq(path, source) {
        return true;
    }
    let sv = chars_of(source);
    let pv = chars_of(path);
    match relative_of(&sv, &pv) {
        Some(rel) => {
            let parts = components_of(&rel);
            let mut i: usize = 0;
            while i < parts.len()
                invariant
                    i <= parts.len(),
                    vviews(parts@) == components(rel@),
                    forall|k: int|
                        0 <= k < i ==> !spec_is_ignored_plugin_copy_name(
                            #[trigger] components(rel@)[k],
                        ),
                decreases parts.len() - i,
            {
                let name = string_of(&parts[i]);
                assert(name@ == components(rel@)[i as int]);
                if is_ignored_plugin_copy_name(name.as_str()) {
                    assert(relative(source@, path@) == Some(rel@));
                    assert(vviews(parts@).len() == parts@.len());
                    assert(path@ != source@);
                    assert(!no_ignored_component(rel@));
                    assert(spec_is_ignored_plugin_copy_name(components(rel@)[i as int]));
                    assert(!spec_should_copy_plugin_entry(source@, path@));
                    return false;
                }
                i += 1;
            }
            true
        },
        None => true,
    }
}

// ---------------------------------------------------------------------------
// CMake modules inside a plugin folder
// ---------------------------------------------------------------------------

/// The module a project file belongs to: the folder that holds its
/// `project` folder, unless that is the plugin root itself.
pub open spec fn spec_c4d_module_name_from_project_file(
    plugin_root: Seq<char>,
    project_file: Seq<char>,
) -> Option<Seq<char>> {
    match parent(project_file) {
        None => None,
        Some(project_dir) => if file_name(project_dir) != Some("project"@) {
            None
        } else {
            match parent(project_dir) {
                None => None,
                Some(module_dir) => if module_dir == plugin_root {
                    None
                } else {
                    file_name(module_dir)
                },
            }
        },
    }
}

pub fn c4d_module_name_from_project_file(plugin_root: &str, project_file: &str) -> (r: Option<
    String,
>)
    ensures
        crate::types::ov(r) == spec_c4d_module_name_from_project_file(plugin_root@, project_file@),
{
    let pf = chars_of(project_file);
    let project_dir = match parent_of(&pf) {
        Some(d) => d,
        None => return None,
    };
    let is_project = match file_name_of(&project_dir) {
        Some(n) => {
            let p = chars_of("project");
            chars_eq(&n, &p)
        },
        None => false,
    };
    if !is_project {
        return None;
    }
    let module_dir = match parent_of(&project_dir) {
        Some(d) => d,
        None => return None,
    };
    let root = chars_of(plugin_root);
    if chars_eq(&module_dir, &root) {
        return None;
    }
    match file_name_of(&module_dir) {
        Some(n) => Some(string_of(&n)),
        None => None,
    }
}

/// A project file two to four levels below the plugin root.
pub open spec fn project_file_entry(root: Seq<char>, e: EntryView) -> bool {
    &&& crate::fs::in_walk(root, e.0, 2, 4)
    &&& e.1 == EntryKind::File
    &&& (file_name(e.0) == Some("projectdefinition.txt"@) || file_name(e.0) == Some(
        "CMakeLists.txt"@,
    ))
}

/// The module names of the project files among `es`, in listing order.
pub open spec fn module_names_in(es: Seq<EntryView>, root: Seq<char>) -> Seq<Seq<char>>
    decreases es.len(),
{
    if es.len() == 0 {
        Seq::<Seq<char>>::empty()
    } else {
        let rest = module_names_in(es.drop_last(), root);
        let e = es.last();
        if project_file_entry(root, e) {
            match spec_c4d_module_name_from_project_file(root, e.0) {
                Some(n) => rest.push(n),
                None => rest,
            }
        } else {
            rest
        }
    }
}

/// The modules nested in a plugin folder, sorted and without repeats.
pub open spec fn spec_discover_nested_cmake_module_names(fs: Seq<EntryView>, root: Seq<char>) -> Seq<
    Seq<char>,
> {
    sort_dedup(module_names_in(fs, root))
}

pub fn discover_nested_cmake_module_names(fs: &FsSnapshot, plugin_root: &str) -> (r: Vec<String>)
    ensures
        sviews(r@) == spec_discover_nested_cmake_module_names(fs@, plugin_root@),
{
    let root = chars_of(plugin_root);
    let mut found: Vec<Vec<char>> = Vec::new();
    let mut i: usize = 0;
    while i < fs.entries.len()
        invariant
            i <= fs@.len(),
            fs@.len() == fs.entries@.len(),
            root@ == plugin_root@,
            vviews(found@) == module_names_in(fs@.take(i as int), root@),
        decreases fs.entries.len() - i,
    {
        let p = fs.path_at(i);
        let e = &fs.entries[i];
        assert(fs@[i as int] == e@);
        assert(fs@.take(i + 1).drop_last() =~= fs@.take(i as int));
        assert(fs@.take(i + 1).last() == fs@[i as int]);
        let mut hit = false;
        if crate::fs::walk_visits(&root, &p, 2, 4) && e.kind == EntryKind::File {
            hit = match file_name_of(&p) {
                Some(n) => {
                    let a = chars_of("projectdefinition.txt");
                    let b = chars_of("CMakeLists.txt");
                    chars_eq(&n, &a) || chars_eq(&n, &b)
                },
                None => false,
            };
        }
        assert(hit == project_file_entry(root@, fs@[i as int]));
        if hit {
            let ps = string_of(&p);
            match c4d_module_name_from_project_file(plugin_root, ps.as_str()) {
                Some(name) => {
                    let ghost prev = found@;
                    found.push(chars_of(name.as_str()));
                    proof {
                        crate::text::lemma_vviews_push(prev, found@[prev.len() as int]);
                        assert(found@ == prev.push(found@[prev.len() as int]));
                    }
                },
                None => {},
            }
        }
        i += 1;
    }
    assert(fs@.take(fs@.len() as int) =~= fs@);
    let sorted = sort_dedup_vec(&found);
    let mut r: Vec<String> = Vec::new();
    let mut k: usize = 0;
    while k < sorted.len()
        invariant
            k <= sorted.len(),
            sviews(r@) == vviews(sorted@).take(k as int),
        decreases sorted.len() - k,
    {
        let ghost prev = r@;
        r.push(string_of(&sorted[k]));
        proof {
            crate::compiler::lemma_sviews_push(prev, r@[prev.len() as int]);
            assert(r@ == prev.push(r@[prev.len() as int]));
        }
        assert(vviews(sorted@).take(k + 1) =~= vviews(sorted@).take(k as int).push(
            sorted@[k as int]@,
        ));
        k += 1;
    }
    assert(vviews(sorted@).take(sorted.len() as int) =~= vviews(sorted@));
    r
}

/// The CMake target a build makes for the requested module: the requested
/// name when the plugin root holds the project itself or holds no nested
/// modules; else the nested module named like the request (directly or by
/// its target name, ASCII case ignored), else the only nested module; with
/// several others it is an error.
pub open spec fn spec_resolve_cmake_build_module_name(
    fs: Seq<EntryView>,
    root: Seq<char>,
    requested: Seq<char>,
) -> Result<Seq<char>, Seq<char>> {
    let direct = path_join(path_join(root, "project"@), "projectdefinition.txt"@);
    let direct_cmake = path_join(path_join(root, "project"@), "CMakeLists.txt"@);
    let candidates = spec_discover_nested_cmake_module_names(fs, root);
    if fs_is_file(fs, direct) || fs_is_file(fs, direct_cmake) {
        Ok(requested)
    } else if candidates.len() == 0 {
        Ok(requested)
    } else {
        match first_in(
            candidates,
            |c: Seq<char>|
                eq_ignore_ascii_case(c, requested) || eq_ignore_ascii_case(
                    spec_cmake_target_name(c),
                    requested,
                ),
        ) {
            Some(c) => Ok(c),
            None => if candidates.len() == 1 {
                Ok(candidates[0])
            } else {
                Err(
                    "Multiple CMake modules were found under "@ + root + ": "@ + join_with(
                        candidates,
                        ", "@,
                    )
                        + ". Rename the package to match one module or build one module folder at a time."@,
                )
            },
        }
    }
}

#[verifier::loop_isolation(false)]
pub fn resolve_cmake_build_module_name(fs: &FsSnapshot, plugin_root: &str, requested: &str) -> (r:
    Result<String, String>)
    ensures
        srv(r) == spec_resolve_cmake_build_module_name(fs@, plugin_root@, requested@),
{
    let root = chars_of(plugin_root);
    let project = join_str(&root, "project");
    let direct = join_str(&project, "projectdefinition.txt");
    let direct_cmake = join_str(&project, "CMakeLists.txt");
    let candidates = discover_nested_cmake_module_names(fs, plugin_root);
    if fs.is_file(&direct) || fs.is_file(&direct_cmake) {
        return Ok(crate::text::owned(requested));
    }
    if candidates.len() == 0 {
        return Ok(crate::text::owned(requested));
    }
    let ghost sv = sviews(candidates@);
    let ghost f = |c: Seq<char>|
        eq_ignore_ascii_case(c, requested@) || eq_ignore_ascii_case(
            spec_cmake_target_name(c),
            requested@,
        );
    let req = chars_of(requested);
    proof {
        crate::text::lemma_first_in_ends(sv, f);
    }
    let mut i: usize = 0;
    while i < candidates.len()
        invariant
            i <= candidates.len(),
            sv == sviews(candidates@),
            req@ == requested@,
            f == (|c: Seq<char>|
                eq_ignore_ascii_case(c, requested@) || eq_ignore_ascii_case(
                    spec_cmake_target_name(c),
                    requested@,
                )),
            first_in(sv, f) == first_in(sv.skip(i as int), f),
        decreases candidates.len() - i,
    {
        proof {
            crate::text::lemma_first_in_step(sv, f, i as int);
        }
        let c = chars_of(candidates[i].as_str());
        let t = cmake_target_name(candidates[i].as_str());
        let tv = chars_of(t.as_str());
        if crate::text::chars_eq_ignore_ascii_case(&c, &req)
            || crate::text::chars_eq_ignore_ascii_case(&tv, &req) {
            return Ok(candidates[i].clone());
        }
        i += 1;
    }
    proof {
        crate::text::lemma_first_in_ends(sv, f);
    }
    if candidates.len() == 1 {
        return Ok(candidates[0].clone());
    }
    let mut pieces: Vec<Vec<char>> = Vec::new();
    let mut k: usize = 0;
    while k < candidates.len()
        invariant
            k <= candidates.len(),
            sv == sviews(candidates@),
            vviews(pieces@) == sv.take(k as int),
        decreases candidates.len() - k,
    {
        let ghost prev = pieces@;
        pieces.push(chars_of(candidates[k].as_str()));
        proof {
            crate::text::lemma_vviews_push(prev, pieces@[prev.len() as int]);
            assert(pieces@ == prev.push(pieces@[prev.len() as int]));
        }
        assert(sv.take(k + 1) =~= sv.take(k as int).push(sv[k as int]));
        k += 1;
    }
    assert(sv.take(candidates.len() as int) =~= sv);
    let sep = chars_of(", ");
    let listed = join_chars(&pieces, &sep);
    let m1 = chars_of("Multiple CMake modules were found under ");
    let m2 = chars_of(": ");
    let m3 = chars_of(
        ". Rename the package to match one module or build one module folder at a time.",
    );
    let msg = concat(&concat(&concat(&concat(&m1, &root), &m2), &listed), &m3);
    Err(string_of(&msg))
}

// ---------------------------------------------------------------------------
// Build folders, command lines and outputs
// ---------------------------------------------------------------------------

/// `<data>/builds/Cinema4D_<version>/<sanitized SDK root>/<preset>`, where
/// `<data>` is the local data folder below the home directory `home`.
pub open spec fn spec_build_dir_for(
    home: Option<Seq<char>>,
    sdk_root: Seq<char>,
    version: Seq<char>,
    preset: Seq<char>,
) -> Result<Seq<char>, Seq<char>> {
    match spec_local_data_root(home) {
        Ok(data) => Ok(
            path_join(
                path_join(
                    path_join(path_join(data, "builds"@), "Cinema4D_"@ + version),
                    spec_sanitize_path_name(sdk_root),
                ),
                preset,
            ),
        ),
        Err(e) => Err(e),
    }
}

pub fn build_dir_for(home: Option<&str>, sdk_root: &str, version: &str, preset: &str) -> (r: Result<
    String,
    String,
>)
    ensures
        srv(r) == spec_build_dir_for(osv(home), sdk_root@, version@, preset@),
{
    let data = match local_data_root(home) {
        Ok(d) => d,
        Err(e) => return Err(e),
    };
    let dv = chars_of(data.as_str());
    let builds = join_str(&dv, "builds");
    let prefix = chars_of("Cinema4D_");
    let vv = chars_of(version);
    let with_version = join(&builds, &concat(&prefix, &vv));
    let sanitized = sanitize_path_name(sdk_root);
    let sv = chars_of(sanitized.as_str());
    let with_root = join(&with_version, &sv);
    Ok(string_of(&join_str(&with_root, preset)))
}

/// The arguments of the CMake configure step.
pub open spec fn spec_configure_args(preset: Seq<char>, build_dir: Seq<char>, modules_dir: Seq<char>) -> Seq<
    Seq<char>,
> {
    seq![
        "--preset"@,
        preset,
        "-B"@,
        build_dir,
        "-DMAXON_SDK_MODULES_DIR="@ + modules_dir,
        "-DMAXON_SDK_CUSTOM_PATHS_FILE="@,
    ]
}

pub fn configure_args(preset: &str, build_dir: &str, modules_dir: &str) -> (r: Vec<String>)
    ensures
        sviews(r@) == spec_configure_args(preset@, build_dir@, modules_dir@),
{
    let d = chars_of("-DMAXON_SDK_MODULES_DIR=");
    let m = chars_of(modules_dir);
    let r = vec![
        crate::text::owned("--preset"),
        crate::text::owned(preset),
        crate::text::owned("-B"),
        crate::text::owned(build_dir),
        string_of(&concat(&d, &m)),
        crate::text::owned("-DMAXON_SDK_CUSTOM_PATHS_FILE="),
    ];
    assert(sviews(r@) =~= spec_configure_args(preset@, build_dir@, modules_dir@));
    r
}

/// The arguments of the CMake build step for one configuration and target.
pub open spec fn spec_build_args(build_dir: Seq<char>, configuration: Seq<char>, target: Seq<char>) -> Seq<
    Seq<char>,
> {
    seq!["--build"@, build_dir, "--config"@, configuration, "--target"@, target]
}

pub fn build_args(build_dir: &str, configuration: &str, target: &str) -> (r: Vec<String>)
    ensures
        sviews(r@) == spec_build_args(build_dir@, configuration@, target@),
{
    let r = vec![
        crate::text::owned("--build"),
        crate::text::owned(build_dir),
        crate::text::owned("--config"),
        crate::text::owned(configuration),
        crate::text::owned("--target"),
        crate::text::owned(target),
    ];
    assert(sviews(r@) =~= spec_build_args(build_dir@, configuration@, target@));
    r
}

/// `<module>.<extension>`: the file name of a built plugin binary.
pub open spec fn binary_file_name(module_name: Seq<char>, extension: Seq<char>) -> Seq<char> {
    module_name + "."@ + extension
}

fn binary_file_name_of(module_name: &str, extension: &str) -> (r: Vec<char>)
    ensures
        r@ == binary_file_name(module_name@, extension@),
{
    let m = chars_of(module_name);
    let e = chars_of(extension);
    let d = chars_of(".");
    concat(&concat(&m, &d), &e)
}

/// An entry at or below `root` named `name`.
pub open spec fn named_below(root: Seq<char>, name: Seq<char>) -> spec_fn(EntryView) -> bool {
    |e: EntryView| relative(root, e.0) is Some && file_name(e.0) == Some(name)
}

/// The first entry a walk of `root` meets that is named `name`.
fn first_named_below(fs: &FsSnapshot, root: &Vec<char>, name: &Vec<char>) -> (r: Option<Vec<char>>)
    ensures
        (match r {
            Some(p) => Some(p@),
            None => None,
        }) == (match first_where(fs@, named_below(root@, name@)) {
            Some(e) => Some(e.0),
            None => None,
        }),
{
    let ghost f = named_below(root@, name@);
    proof {
        crate::fs::lemma_first_where_start(fs@, f);
    }
    let mut i: usize = 0;
    while i < fs.entries.len()
        invariant
            i <= fs@.len(),
            fs@.len() == fs.entries@.len(),
            f == named_below(root@, name@),
            first_where(fs@, f) == first_where(fs@.skip(i as int), f),
        decreases fs.entries.len() - i,
    {
        let p = fs.path_at(i);
        let below = relative_of(root, &p).is_some();
        let named = match file_name_of(&p) {
            Some(n) => chars_eq(&n, name),
            None => false,
        };
        assert((below && named) == f(fs@[i as int]));
        if below && named {
            proof {
                crate::fs::lemma_first_where_hit(fs@, f, i as int);
            }
            return Some(p);
        }
        proof {
            crate::fs::lemma_first_where_step(fs@, f, i as int);
        }
        i += 1;
    }
    proof {
        crate::fs::lemma_first_where_end(fs@, f);
    }
    None
}

/// The binary a CMake build produced: `bin/<config>/plugins/<module>/<file>`
/// below the build folder, else the first file of that name a walk of the
/// build folder meets.
pub open spec fn spec_find_plugin_binary(
    fs: Seq<EntryView>,
    build_dir: Seq<char>,
    configuration: Seq<char>,
    module_name: Seq<char>,
    extension: Seq<char>,
) -> Result<Seq<char>, Seq<char>> {
    let name = binary_file_name(module_name, extension);
    let plugin_dir = path_join(
        path_join(path_join(path_join(build_dir, "bin"@), configuration), "plugins"@),
        module_name,
    );
    let expected = path_join(plugin_dir, name);
    if fs_is_file(fs, expected) {
        Ok(expected)
    } else {
        match first_where(fs, named_below(build_dir, name)) {
            Some(e) => Ok(e.0),
            None => Err("Built binary "@ + name + " was not found under "@ + build_dir),
        }
    }
}

pub fn find_plugin_binary(
    fs: &FsSnapshot,
    build_dir: &str,
    configuration: &str,
    module_name: &str,
    extension: &str,
) -> (r: Result<String, String>)
    ensures
        srv(r) == spec_find_plugin_binary(fs@, build_dir@, configuration@, module_name@, extension@),
{
    let name = binary_file_name_of(module_name, extension);
    let bd = chars_of(build_dir);
    let bin = join_str(&bd, "bin");
    let conf = join_str(&bin, configuration);
    let plugins = join_str(&conf, "plugins");
    let plugin_dir = join_str(&plugins, module_name);
    let expected = join(&plugin_dir, &name);
    if fs.is_file(&expected) {
        return Ok(string_of(&expected));
    }
    match first_named_below(fs, &bd, &name) {
        Some(p) => Ok(string_of(&p)),
        None => {
            let m1 = chars_of("Built binary ");
            let m2 = chars_of(" was not found under ");
            Err(string_of(&concat(&concat(&concat(&m1, &name), &m2), &bd)))
        },
    }
}

/// The binary a legacy build produced: `build/<config>/<file>` or
/// `plugins/<module>/<file>` below the SDK, else the first file of that name
/// a walk of `plugins/<module>` meets.
pub open spec fn spec_find_legacy_plugin_binary(
    fs: Seq<EntryView>,
    sdk_root: Seq<char>,
    configuration: Seq<char>,
    module_name: Seq<char>,
    extension: Seq<char>,
) -> Result<Seq<char>, Seq<char>> {
    let name = binary_file_name(module_name, extension);
    let module_dir = path_join(path_join(sdk_root, "plugins"@), module_name);
    let first = path_join(path_join(path_join(sdk_root, "build"@), configuration), name);
    let second = path_join(module_dir, name);
    if fs_is_file(fs, first) {
        Ok(first)
    } else if fs_is_file(fs, second) {
        Ok(second)
    } else {
        match first_where(fs, named_below(module_dir, name)) {
            Some(e) => Ok(e.0),
            None => Err("Built binary "@ + name + " was not found under "@ + sdk_root),
        }
    }
}

pub fn find_legacy_plugin_binary(
    fs: &FsSnapshot,
    sdk_root: &str,
    configuration: &str,
    module_name: &str,
    extension: &str,
) -> (r: Result<String, String>)
    ensures
        srv(r) == spec_find_legacy_plugin_binary(
            fs@,
            sdk_root@,
            configuration@,
            module_name@,
            extension@,
        ),
{
    let name = binary_file_name_of(module_name, extension);
    let sd = chars_of(sdk_root);
    let plugins = join_str(&sd, "plugins");
    let module_dir = join_str(&plugins, module_name);
    let build = join_str(&sd, "build");
    let conf = join_str(&build, configuration);
    let first = join(&conf, &name);
    if fs.is_file(&first) {
        return Ok(string_of(&first));
    }
    let second = join(&module_dir, &name);
    if fs.is_file(&second) {
        return Ok(string_of(&second));
    }
    match first_named_below(fs, &module_dir, &name) {
        Some(p) => Ok(string_of(&p)),
        None => {
            let m1 = chars_of("Built binary ");
            let m2 = chars_of(" was not found under ");
            Err(string_of(&concat(&concat(&concat(&m1, &name), &m2), &sd)))
        },
    }
}

/// The log category of a command's output, by its program name (ASCII
/// case ignored): `cmake`, `xcode`, `sdk` for the legacy generators, else
/// `toolchain`.
pub open spec fn spec_command_log_category(program: Seq<char>) -> Seq<char> {
    let name = ascii_lower_seq(
        match file_name(program) {
            Some(n) => n,
            None => program,
        },
    );
    if has_seq(name, "cmake"@) {
        "cmake"@
    } else if has_seq(name, "xcodebuild"@) {
        "xcode"@
    } else if has_seq(name, "generate_solution"@) {
        "sdk"@
    } else {
        "toolchain"@
    }
}

pub fn command_log_category(program: &str) -> (r: &'static str)
    ensures
        r@ == spec_command_log_category(program@),
{
    let pv = chars_of(program);
    let base = match file_name_of(&pv) {
        Some(n) => n,
        None => pv,
    };
    let name = to_ascii_lowercase(&base);
    if crate::text::contains(&name, &chars_of("cmake")) {
        "cmake"
    } else if crate::text::contains(&name, &chars_of("xcodebuild")) {
        "xcode"
    } else if crate::text::contains(&name, &chars_of("generate_solution")) {
        "sdk"
    } else {
        "toolchain"
    }
}

/// The timestamp of a build log event: milliseconds since the Unix epoch,
/// in decimal.
pub fn build_log_timestamp(millis: u64) -> (r: String)
    ensures
        r@ == crate::text::dec(millis as nat),
{
    crate::text::decimal_string(millis)
}

// ---------------------------------------------------------------------------
// Requests
// ---------------------------------------------------------------------------

/// The checks a build request passes before anything is built.
pub open spec fn spec_validate_request(fs: Seq<EntryView>, request: BuildRequest) -> Result<
    (),
    Seq<char>,
> {
    if trim(request.plugin_root@).len() == 0 {
        Err("Plugin root is required"@)
    } else if trim(request.module_name@).len() == 0 {
        Err("Module name is required"@)
    } else if trim(request.package_name@).len() == 0 {
        Err("Package name is required"@)
    } else if request.versions@.len() == 0 {
        Err("At least one C4D version is required"@)
    } else {
        spec_require_dir(fs, request.plugin_root@)
    }
}

pub fn validate_request(fs: &FsSnapshot, request: &BuildRequest) -> (r: Result<(), String>)
    ensures
        rv(r) == spec_validate_request(fs@, *request),
{
    if crate::text::trim_str(request.plugin_root.as_str()).len() == 0 {
        return Err(crate::text::owned("Plugin root is required"));
    }
    if crate::text::trim_str(request.module_name.as_str()).len() == 0 {
        return Err(crate::text::owned("Module name is required"));
    }
    if crate::text::trim_str(request.package_name.as_str()).len() == 0 {
        return Err(crate::text::owned("Package name is required"));
    }
    if request.versions.len() == 0 {
        return Err(crate::text::owned("At least one C4D version is required"));
    }
    require_dir(fs, request.plugin_root.as_str())
}

// ---------------------------------------------------------------------------
// Legacy SDK solutions
// ---------------------------------------------------------------------------

/// The last line whose text, leading whitespace aside, starts with
/// `plugins/`.
pub open spec fn last_plugin_line(ls: Seq<Seq<char>>) -> Option<int>
    decreases ls.len(),
{
    if ls.len() == 0 {
        None
    } else if ("plugins/"@).is_prefix_of(trim_start(ls.last())) {
        Some(ls.len() - 1)
    } else {
        last_plugin_line(ls.drop_last())
    }
}

/// The project definition of a legacy SDK with the module added to its
/// solution, or `None` when it already names `plugins/<module>`. The entry
/// follows the last `plugins/` line, which gets a `;\` continuation; with no
/// such line a `Solution=\` block is appended. The text ends with a line
/// break.
pub open spec fn spec_ensure_legacy_solution_includes_module(
    text: Seq<char>,
    module_name: Seq<char>,
) -> Option<Seq<char>> {
    let entry = "plugins/"@ + module_name;
    if has_seq(text, entry) {
        None
    } else {
        let ls = lines(text);
        let new_lines = match last_plugin_line(ls) {
            Some(k) => {
                let previous = trim_end_char(trim_end_char(trim_end(ls[k]), '\\'), ';');
                ls.update(k, previous + ";\\"@).insert(k + 1, "\t"@ + entry)
            },
            None => ls.push("Solution=\\"@).push("\t"@ + entry),
        };
        Some(join_with(new_lines, "\n"@) + "\n"@)
    }
}

pub fn ensure_legacy_solution_includes_module(text: &str, module_name: &str) -> (r: Option<String>)
    ensures
        crate::types::ov(r) == spec_ensure_legacy_solution_includes_module(text@, module_name@),
{
    let tv = chars_of(text);
    let prefix = chars_of("plugins/");
    let mv = chars_of(module_name);
    let entry = concat(&prefix, &mv);
    if crate::text::contains(&tv, &entry) {
        return None;
    }
    let ls = lines_of(&tv);
    let ghost lv = vviews(ls@);
    let mut i: usize = ls.len();
    assert(lv.take(lv.len() as int) =~= lv);
    let mut found: Option<usize> = None;
    while i > 0 && found.is_none()
        invariant
            i <= ls.len(),
            lv == vviews(ls@),
            prefix@ == "plugins/"@,
            found is None ==> last_plugin_line(lv) == last_plugin_line(lv.take(i as int)),
            found matches Some(k) ==> last_plugin_line(lv) == Some(k as int) && k < ls.len(),
        decreases i,
    {
        let t = crate::text::trim_start_chars(&ls[i - 1]);
        assert(lv.take(i as int).last() == lv[i - 1]);
        assert(lv.take(i as int).drop_last() =~= lv.take(i - 1));
        if crate::text::starts_with(&t, &prefix) {
            found = Some(i - 1);
        }
        i -= 1;
    }
    if found.is_none() {
        assert(lv.take(0).len() == 0);
    }
    let tab = chars_of("\t");
    let line_entry = concat(&tab, &entry);
    let mut out: Vec<Vec<char>> = Vec::new();
    match found {
        Some(k) => {
            let te = crate::text::trim_end_chars(&ls[k]);
            let a = crate::text::trim_end_char_chars(&te, '\\');
            let b = crate::text::trim_end_char_chars(&a, ';');
            let cont = chars_of(";\\");
            let replaced = concat(&b, &cont);
            let mut j: usize = 0;
            while j < ls.len()
                invariant
                    j <= ls.len(),
                    k < ls.len(),
                    lv == vviews(ls@),
                    vviews(out@) == (if j <= k {
                        lv.take(j as int)
                    } else {
                        lv.take(k as int).push(replaced@).push(line_entry@) + lv.subrange(
                            k + 1,
                            j as int,
                        )
                    }),
                decreases ls.len() - j,
            {
                let ghost prev = out@;
                if j == k {
                    out.push(copy_vec(&replaced));
                    proof {
                        crate::text::lemma_vviews_push(prev, out@[prev.len() as int]);
                        assert(out@ == prev.push(out@[prev.len() as int]));
                    }
                    let ghost mid = out@;
                    out.push(copy_vec(&line_entry));
                    proof {
                        crate::text::lemma_vviews_push(mid, out@[mid.len() as int]);
                        assert(out@ == mid.push(out@[mid.len() as int]));
                        assert(lv.subrange(k + 1, k + 1) =~= Seq::<Seq<char>>::empty());
                        assert(vviews(out@) =~= lv.take(k as int).push(replaced@).push(
                            line_entry@,
                        ) + lv.subrange(k + 1, j + 1));
                    }
                } else {
                    out.push(ls[j].clone());
                    proof {
                        crate::text::lemma_vviews_push(prev, out@[prev.len() as int]);
                        assert(out@ == prev.push(out@[prev.len() as int]));
                        if j < k {
                            assert(vviews(out@) =~= lv.take(j + 1));
                        } else {
                            assert(vviews(out@) =~= lv.take(k as int).push(replaced@).push(
                                line_entry@,
                            ) + lv.subrange(k + 1, j + 1));
                        }
                    }
                }
                j += 1;
            }
            proof {
                reveal_strlit(";\\");
                reveal_strlit("\t");
                assert(vviews(out@) =~= lv.update(k as int, replaced@).insert(
                    k + 1,
                    line_entry@,
                ));
            }
        },
        None => {
            let mut j: usize = 0;
            while j < ls.len()
                invariant
                    j <= ls.len(),
                    lv == vviews(ls@),
                    vviews(out@) == lv.take(j as int),
                decreases ls.len() - j,
            {
                let ghost prev = out@;
                out.push(ls[j].clone());
                proof {
                    crate::text::lemma_vviews_push(prev, out@[prev.len() as int]);
                    assert(out@ == prev.push(out@[prev.len() as int]));
                }
                assert(vviews(out@) =~= lv.take(j + 1));
                j += 1;
            }
            assert(lv.take(ls.len() as int) =~= lv);
            let ghost before = out@;
            out.push(chars_of("Solution=\\"));
            proof {
                crate::text::lemma_vviews_push(before, out@[before.len() as int]);
                assert(out@ == before.push(out@[before.len() as int]));
            }
            let ghost mid = out@;
            out.push(line_entry);
            proof {
                crate::text::lemma_vviews_push(mid, out@[mid.len() as int]);
                assert(out@ == mid.push(out@[mid.len() as int]));
            }
        },
    }
    let nl = chars_of("\n");
    let joined = join_chars(&out, &nl);
    Some(string_of(&concat(&joined, &nl)))
}

fn copy_vec(v: &Vec<char>) -> (r: Vec<char>)
    ensures
        r@ == v@,
{
    crate::text::copy_chars(v)
}

// ---------------------------------------------------------------------------
// Legacy Xcode projects
// ---------------------------------------------------------------------------

/// An Xcode project folder within five levels below `root`.
pub open spec fn xcode_project_test(root: Seq<char>) -> spec_fn(EntryView) -> bool {
    |e: EntryView|
        crate::fs::in_walk(root, e.0, 0, 5) && e.1 == EntryKind::Dir && extension(e.0) == Some(
            "xcodeproj"@,
        )
}

/// An Xcode project folder below `root` named like the module (ASCII case
/// ignored).
pub open spec fn named_project_test(root: Seq<char>, module_name: Seq<char>) -> spec_fn(
    EntryView,
) -> bool {
    |e: EntryView|
        xcode_project_test(root)(e) && (file_stem(e.0) matches Some(stem) && eq_ignore_ascii_case(
            stem,
            module_name,
        ))
}

/// The Xcode project of a legacy module: `project/<module>.xcodeproj` when
/// it exists, else the first project a walk of the module folder meets that
/// is named like the module, else the first project it meets.
pub open spec fn spec_resolve_legacy_xcode_project(
    fs: Seq<EntryView>,
    sdk_root: Seq<char>,
    module_name: Seq<char>,
) -> Result<Seq<char>, Seq<char>> {
    let module_root = path_join(path_join(sdk_root, "plugins"@), module_name);
    let direct = path_join(path_join(module_root, "project"@), module_name + ".xcodeproj"@);
    if crate::fs::fs_is_dir(fs, direct) {
        Ok(direct)
    } else {
        match first_where(fs, named_project_test(module_root, module_name)) {
            Some(e) => Ok(e.0),
            None => match first_where(fs, xcode_project_test(module_root)) {
                Some(e) => Ok(e.0),
                None => Err("Legacy Xcode project was not generated under "@ + module_root),
            },
        }
    }
}

fn is_xcode_project(fs: &FsSnapshot, root: &Vec<char>, i: usize) -> (r: bool)
    requires
        i < fs@.len(),
    ensures
        r == xcode_project_test(root@)(fs@[i as int]),
{
    let p = fs.path_at(i);
    let e = &fs.entries[i];
    assert(fs@[i as int] == e@);
    let ext_ok = match extension_of(&p) {
        Some(x) => {
            let want = chars_of("xcodeproj");
            chars_eq(&x, &want)
        },
        None => false,
    };
    crate::fs::walk_visits(root, &p, 0, 5) && e.kind == EntryKind::Dir && ext_ok
}

fn first_xcode_project(fs: &FsSnapshot, root: &Vec<char>, module_name: &Vec<char>, named: bool) -> (r:
    Option<Vec<char>>)
    ensures
        (match r {
            Some(p) => Some(p@),
            None => None,
        }) == (match first_where(
            fs@,
            if named {
                named_project_test(root@, module_name@)
            } else {
                xcode_project_test(root@)
            },
        ) {
            Some(e) => Some(e.0),
            None => None,
        }),
{
    let ghost f = if named {
        named_project_test(root@, module_name@)
    } else {
        xcode_project_test(root@)
    };
    proof {
        crate::fs::lemma_first_where_start(fs@, f);
    }
    let mut i: usize = 0;
    while i < fs.entries.len()
        invariant
            i <= fs@.len(),
            fs@.len() == fs.entries@.len(),
            f == (if named {
                named_project_test(root@, module_name@)
            } else {
                xcode_project_test(root@)
            }),
            first_where(fs@, f) == first_where(fs@.skip(i as int), f),
        decreases fs.entries.len() - i,
    {
        let p = fs.path_at(i);
        let mut hit = is_xcode_project(fs, root, i);
        if hit && named {
            hit = match file_stem_of(&p) {
                Some(stem) => crate::text::chars_eq_ignore_ascii_case(&stem, module_name),
                None => false,
            };
        }
        assert(hit == f(fs@[i as int]));
        if hit {
            proof {
                crate::fs::lemma_first_where_hit(fs@, f, i as int);
            }
            return Some(p);
        }
        proof {
            crate::fs::lemma_first_where_step(fs@, f, i as int);
        }
        i += 1;
    }
    proof {
        crate::fs::lemma_first_where_end(fs@, f);
    }
    None
}

pub fn resolve_legacy_xcode_project(fs: &FsSnapshot, sdk_root: &str, module_name: &str) -> (r: Result<
    String,
    String,
>)
    ensures
        srv(r) == spec_resolve_legacy_xcode_project(fs@, sdk_root@, module_name@),
{
    let sd = chars_of(sdk_root);
    let mv = chars_of(module_name);
    let plugins = join_str(&sd, "plugins");
    let module_root = join(&plugins, &mv);
    let project = join_str(&module_root, "project");
    let ext = chars_of(".xcodeproj");
    let direct = join(&project, &concat(&mv, &ext));
    if fs.is_dir(&direct) {
        return Ok(string_of(&direct));
    }
    if let Some(p) = first_xcode_project(fs, &module_root, &mv, true) {
        return Ok(string_of(&p));
    }
    if let Some(p) = first_xcode_project(fs, &module_root, &mv, false) {
        return Ok(string_of(&p));
    }
    let m = chars_of("Legacy Xcode project was not generated under ");
    Err(string_of(&concat(&m, &module_root)))
}

// ---------------------------------------------------------------------------
// Copying a plugin folder
// ---------------------------------------------------------------------------

/// One step of copying a plugin folder: make a folder, or copy a file.
pub enum CopyStep {
    CreateDir { path: String },
    CopyFile { from: String, to: String },
}

/// The view of a step: whether it makes a folder, the source (empty for a
/// folder) and the destination.
pub open spec fn copy_step_view(s: CopyStep) -> (bool, Seq<char>, Seq<char>) {
    match s {
        CopyStep::CreateDir { path } => (true, Seq::<char>::empty(), path@),
        CopyStep::CopyFile { from, to } => (false, from@, to@),
    }
}

pub open spec fn copy_steps_view(s: Seq<CopyStep>) -> Seq<(bool, Seq<char>, Seq<char>)> {
    s.map_values(|x: CopyStep| copy_step_view(x))
}

/// The steps for the entries among `es` when `source` is copied to
/// `target`: every folder and file at or below `source` that the copy keeps,
/// in walk order, placed at the same relative path below `target`.
pub open spec fn copy_plan(es: Seq<EntryView>, source: Seq<char>, target: Seq<char>) -> Seq<
    (bool, Seq<char>, Seq<char>),
>
    decreases es.len(),
{
    if es.len() == 0 {
        Seq::empty()
    } else {
        let rest = copy_plan(es.drop_last(), source, target);
        let e = es.last();
        match relative(source, e.0) {
            Some(rel) => if !spec_should_copy_plugin_entry(source, e.0) {
                rest
            } else if e.1 == EntryKind::Dir {
                rest.push((true, Seq::<char>::empty(), path_join(target, rel)))
            } else if e.1 == EntryKind::File {
                rest.push((false, e.0, path_join(target, rel)))
            } else {
                rest
            },
            None => rest,
        }
    }
}

/// The steps that copy the plugin folder `source` to `target`, leaving out
/// version control, caches and build outputs (see
/// `spec_is_ignored_plugin_copy_name`); special files are skipped. Creating
/// a file's parent folders before copying it is part of a copy step.
pub fn copy_dir_recursive(fs: &FsSnapshot, source: &str, target: &str) -> (r: Vec<CopyStep>)
    ensures
        copy_steps_view(r@) == copy_plan(fs@, source@, target@),
{
    let sv = chars_of(source);
    let tv = chars_of(target);
    let mut r: Vec<CopyStep> = Vec::new();
    let mut i: usize = 0;
    while i < fs.entries.len()
        invariant
            i <= fs@.len(),
            fs@.len() == fs.entries@.len(),
            sv@ == source@,
            tv@ == target@,
            copy_steps_view(r@) == copy_plan(fs@.take(i as int), source@, target@),
        decreases fs.entries.len() - i,
    {
        let p = fs.path_at(i);
        let e = &fs.entries[i];
        assert(fs@[i as int] == e@);
        assert(fs@.take(i + 1).drop_last() =~= fs@.take(i as int));
        assert(fs@.take(i + 1).last() == fs@[i as int]);
        let ghost prev = r@;
        match relative_of(&sv, &p) {
            Some(rel) => {
                let ps = string_of(&p);
                if should_copy_plugin_entry(source, ps.as_str()) {
                    let dest = string_of(&join(&tv, &rel));
                    if e.kind == EntryKind::Dir {
                        r.push(CopyStep::CreateDir { path: dest });
                        assert(copy_steps_view(r@) =~= copy_steps_view(prev).push(
                            copy_step_view(r@[prev.len() as int]),
                        ));
                    } else if e.kind == EntryKind::File {
                        r.push(CopyStep::CopyFile { from: ps, to: dest });
                        assert(copy_steps_view(r@) =~= copy_steps_view(prev).push(
                            copy_step_view(r@[prev.len() as int]),
                        ));
                    }
                }
            },
            None => {},
        }
        i += 1;
    }
    assert(fs@.take(fs@.len() as int) =~= fs@);
    r
}

// ---------------------------------------------------------------------------
// Module links and the legacy SDK workspace
// ---------------------------------------------------------------------------

/// The folder that links the plugin into an SDK's modules under the name
/// `alias`: `<data>/plugin-links/<alias, sanitized>_modules`. Only Windows
/// and macOS builds link modules.
pub open spec fn spec_module_links_root(os: HostOs, home: Option<Seq<char>>, alias: Seq<char>) -> Result<
    Seq<char>,
    Seq<char>,
> {
    if os != HostOs::Windows && os != HostOs::Macos {
        Err("C4D builds are currently supported on Windows and macOS"@)
    } else {
        match spec_local_data_root(home) {
            Ok(data) => Ok(
                path_join(path_join(data, "plugin-links"@), spec_sanitize_path_name(alias) + "_modules"@),
            ),
            Err(e) => Err(e),
        }
    }
}

pub fn module_links_root(os: HostOs, home: Option<&str>, alias: &str) -> (r: Result<String, String>)
    ensures
        srv(r) == spec_module_links_root(os, osv(home), alias@),
{
    if os != HostOs::Windows && os != HostOs::Macos {
        return Err(crate::text::owned("C4D builds are currently supported on Windows and macOS"));
    }
    let data = match local_data_root(home) {
        Ok(d) => d,
        Err(e) => return Err(e),
    };
    let links = join_str(&chars_of(data.as_str()), "plugin-links");
    let name = concat(&chars_of(sanitize_path_name(alias).as_str()), &chars_of("_modules"));
    Ok(string_of(&join(&links, &name)))
}

/// The entries of a module links folder that are removed before linking
/// `alias`: every entry but `alias` itself, in listing order.
pub open spec fn spec_stale_module_links(names: Seq<Seq<char>>, alias: Seq<char>) -> Seq<Seq<char>> {
    names.filter(|n: Seq<char>| n != alias)
}

pub fn stale_module_links(names: &Vec<String>, alias: &str) -> (r: Vec<String>)
    ensures
        sviews(r@) == spec_stale_module_links(sviews(names@), alias@),
{
    let ghost keep = |n: Seq<char>| n != alias@;
    let mut r: Vec<String> = Vec::new();
    let mut i: usize = 0;
    while i < names.len()
        invariant
            i <= names.len(),
            keep == (|n: Seq<char>| n != alias@),
            sviews(r@) == sviews(names@).take(i as int).filter(keep),
        decreases names.len() - i,
    {
        let ghost all = sviews(names@);
        assert(all.take(i + 1).drop_last() =~= all.take(i as int));
        assert(all.take(i + 1).last() == names@[i as int]@);
        let same = str_eq(names[i].as_str(), alias);
        assert(all.take(i + 1).filter(keep) == if keep(names@[i as int]@) {
            all.take(i as int).filter(keep).push(names@[i as int]@)
        } else {
            all.take(i as int).filter(keep)
        }) by {
            reveal(Seq::filter);
        }
        if !same {
            let ghost prev = r@;
            r.push(names[i].clone());
            proof {
                crate::compiler::lemma_sviews_push(prev, r@[prev.len() as int]);
                assert(r@ == prev.push(r@[prev.len() as int]));
            }
        }
        i += 1;
    }
    assert(sviews(names@).take(names.len() as int) =~= sviews(names@));
    r
}

/// Where the plugin is copied in a legacy SDK: `<sdk>/plugins/<module>`.
pub open spec fn spec_legacy_module_root(sdk_root: Seq<char>, module_name: Seq<char>) -> Seq<char> {
    path_join(path_join(sdk_root, "plugins"@), module_name)
}

pub fn legacy_module_root(sdk_root: &str, module_name: &str) -> (r: String)
    ensures
        r@ == spec_legacy_module_root(sdk_root@, module_name@),
{
    let p = join_str(&chars_of(sdk_root), "plugins");
    string_of(&join_str(&p, module_name))
}

/// The project definition of a legacy SDK's solution:
/// `<sdk>/plugins/project/projectdefinition.txt`.
pub open spec fn spec_legacy_project_definition(sdk_root: Seq<char>) -> Seq<char> {
    path_join(path_join(path_join(sdk_root, "plugins"@), "project"@), "projectdefinition.txt"@)
}

pub fn legacy_project_definition(sdk_root: &str) -> (r: String)
    ensures
        r@ == spec_legacy_project_definition(sdk_root@),
{
    let p = join_str(&chars_of(sdk_root), "plugins");
    let q = join_str(&p, "project");
    string_of(&join_str(&q, "projectdefinition.txt"))
}

/// The legacy SDK's solution generator for the platform.
pub open spec fn spec_legacy_generator(os: HostOs, sdk_root: Seq<char>) -> Result<Seq<char>, Seq<char>> {
    match os {
        HostOs::Macos => Ok(path_join(sdk_root, "generate_solution_osx.command"@)),
        HostOs::Windows => Ok(path_join(sdk_root, "generate_solution_win.bat"@)),
        _ => Err("Legacy SDK builds are currently supported on Windows and macOS"@),
    }
}

pub fn legacy_generator(os: HostOs, sdk_root: &str) -> (r: Result<String, String>)
    ensures
        srv(r) == spec_legacy_generator(os, sdk_root@),
{
    match os {
        HostOs::Macos => Ok(string_of(&join_str(&chars_of(sdk_root), "generate_solution_osx.command"))),
        HostOs::Windows => Ok(string_of(&join_str(&chars_of(sdk_root), "generate_solution_win.bat"))),
        _ => Err(crate::text::owned("Legacy SDK builds are currently supported on Windows and macOS")),
    }
}

/// Whether legacy modules can be built on the platform: with Xcode on
/// macOS; not yet on Windows.
pub open spec fn spec_legacy_build_support(os: HostOs) -> Result<(), Seq<char>> {
    match os {
        HostOs::Macos => Ok(()),
        HostOs::Windows => Err("Legacy Windows SDK build support is not implemented yet"@),
        _ => Err("Legacy SDK builds are currently supported on Windows and macOS"@),
    }
}

pub fn legacy_build_support(os: HostOs) -> (r: Result<(), String>)
    ensures
        rv(r) == spec_legacy_build_support(os),
{
    match os {
        HostOs::Macos => Ok(()),
        HostOs::Windows => Err(crate::text::owned("Legacy Windows SDK build support is not implemented yet")),
        _ => Err(crate::text::owned("Legacy SDK builds are currently supported on Windows and macOS")),
    }
}

/// The arguments that list an Xcode project's schemes as JSON.
pub open spec fn spec_xcode_list_args(project: Seq<char>) -> Seq<Seq<char>> {
    seq!["-list"@, "-json"@, "-project"@, project]
}

pub fn xcode_list_args(project: &str) -> (r: Vec<String>)
    ensures
        sviews(r@) == spec_xcode_list_args(project@),
{
    let r = vec![
        crate::text::owned("-list"),
        crate::text::owned("-json"),
        crate::text::owned("-project"),
        crate::text::owned(project),
    ];
    assert(sviews(r@) =~= spec_xcode_list_args(project@));
    r
}

/// The warning flags a legacy Xcode build passes.
pub const LEGACY_XCODE_WARNING_FLAGS: &'static str =
    "WARNING_CFLAGS=-Wno-missing-template-arg-list-after-template-kw -Wno-error=overriding-deployment-version";

/// The arguments of a legacy Xcode build of `scheme` in `configuration`,
/// for a generic macOS destination, one job at a time.
pub open spec fn spec_xcode_build_args(project: Seq<char>, scheme: Seq<char>, configuration: Seq<char>) -> Seq<
    Seq<char>,
> {
    seq![
        "-project"@,
        project,
        "-scheme"@,
        scheme,
        "-configuration"@,
        configuration,
        "-destination"@,
        "generic/platform=macOS"@,
        "-jobs"@,
        "1"@,
        LEGACY_XCODE_WARNING_FLAGS@,
        "build"@,
    ]
}

pub fn xcode_build_args(project: &str, scheme: &str, configuration: &str) -> (r: Vec<String>)
    ensures
        sviews(r@) == spec_xcode_build_args(project@, scheme@, configuration@),
{
    let r = vec![
        crate::text::owned("-project"),
        crate::text::owned(project),
        crate::text::owned("-scheme"),
        crate::text::owned(scheme),
        crate::text::owned("-configuration"),
        crate::text::owned(configuration),
        crate::text::owned("-destination"),
        crate::text::owned("generic/platform=macOS"),
        crate::text::owned("-jobs"),
        crate::text::owned("1"),
        crate::text::owned(LEGACY_XCODE_WARNING_FLAGS),
        crate::text::owned("build"),
    ];
    assert(sviews(r@) =~= spec_xcode_build_args(project@, scheme@, configuration@));
    r
}

/// The scheme a legacy Xcode build uses, from the project's scheme list
/// (see `spec_select_legacy_xcode_scheme`); an empty list or one without a
/// usable scheme is an error that names the project or the schemes.
pub open spec fn spec_choose_legacy_xcode_scheme(
    schemes: Seq<Seq<char>>,
    module_name: Seq<char>,
    project: Seq<char>,
) -> Result<Seq<char>, Seq<char>> {
    if schemes.len() == 0 {
        Err("No Xcode schemes were found in "@ + project)
    } else {
        match spec_select_legacy_xcode_scheme(schemes, module_name) {
            Some(s) => Ok(s),
            None => Err(
                "Xcode scheme '"@ + module_name + "' was not found. Available schemes: "@ + join_with(
                    schemes,
                    ", "@,
                ),
            ),
        }
    }
}

pub fn choose_legacy_xcode_scheme(schemes: &Vec<String>, module_name: &str, project: &str) -> (r: Result<
    String,
    String,
>)
    ensures
        srv(r) == spec_choose_legacy_xcode_scheme(sviews(schemes@), module_name@, project@),
{
    if schemes.len() == 0 {
        return Err(string_of(&concat(&chars_of("No Xcode schemes were found in "), &chars_of(project))));
    }
    match select_legacy_xcode_scheme(schemes.as_slice(), module_name) {
        Some(s) => Ok(s),
        None => {
            let mut pieces: Vec<Vec<char>> = Vec::new();
            let mut i: usize = 0;
            while i < schemes.len()
                invariant
                    i <= schemes.len(),
                    vviews(pieces@) == sviews(schemes@).take(i as int),
                decreases schemes.len() - i,
            {
                let ghost prev = pieces@;
                let piece = chars_of(schemes[i].as_str());
                pieces.push(piece);
                proof {
                    crate::text::lemma_vviews_push(prev, pieces@[prev.len() as int]);
                    assert(pieces@ == prev.push(pieces@[prev.len() as int]));
                }
                assert(vviews(pieces@) =~= sviews(schemes@).take(i + 1));
                i += 1;
            }
            assert(sviews(schemes@).take(schemes.len() as int) =~= sviews(schemes@));
            let listed = join_chars(&pieces, &chars_of(", "));
            let a = concat(&chars_of("Xcode scheme '"), &chars_of(module_name));
            let b = concat(&a, &chars_of("' was not found. Available schemes: "));
            Err(string_of(&concat(&b, &listed)))
        },
    }
}

/// The folder whose `python` the legacy scripts run:
/// `<data>/legacy-python-shim`.
pub open spec fn spec_python_shim_dir(home: Option<Seq<char>>) -> Result<Seq<char>, Seq<char>> {
    match spec_local_data_root(home) {
        Ok(data) => Ok(path_join(data, "legacy-python-shim"@)),
        Err(e) => Err(e),
    }
}

pub fn python_shim_dir(home: Option<&str>) -> (r: Result<String, String>)
    ensures
        srv(r) == spec_python_shim_dir(osv(home)),
{
    match local_data_root(home) {
        Ok(d) => Ok(string_of(&join_str(&chars_of(d.as_str()), "legacy-python-shim"))),
        Err(e) => Err(e),
    }
}

// ---------------------------------------------------------------------------
// Laws of the legacy solution edit
// ---------------------------------------------------------------------------

/// Adding a module to a legacy solution is done once: the edited text names
/// the module, so a second edit changes nothing.
pub proof fn law_legacy_solution_edit_is_idempotent(text: Seq<char>, module_name: Seq<char>)
    ensures
        spec_ensure_legacy_solution_includes_module(text, module_name) matches Some(edited)
            ==> spec_ensure_legacy_solution_includes_module(edited, module_name) is None,
{
    let entry = "plugins/"@ + module_name;
    if let Some(edited) = spec_ensure_legacy_solution_includes_module(text, module_name) {
        let ls = lines(text);
        let line = "\t"@ + entry;
        let new_lines = match last_plugin_line(ls) {
            Some(k) => {
                let previous = trim_end_char(trim_end_char(trim_end(ls[k]), '\\'), ';');
                ls.update(k, previous + ";\\"@).insert(k + 1, line)
            },
            None => ls.push("Solution=\\"@).push(line),
        };
        let j: int = match last_plugin_line(ls) {
            Some(k) => k + 1,
            None => ls.len() as int + 1,
        };
        match last_plugin_line(ls) {
            Some(k) => {
                lemma_last_plugin_line_range(ls);
                assert(new_lines[j] == line);
            },
            None => {
                assert(new_lines[j] == line);
            },
        }
        let (p, q) = crate::text::lemma_join_with_piece(new_lines, "\n"@, j);
        assert(edited == p + line + q + "\n"@);
        assert(edited =~= (p + "\t"@) + entry + (q + "\n"@));
        crate::text::lemma_has_seq_middle(p + "\t"@, entry, q + "\n"@);
    }
}

proof fn lemma_last_plugin_line_range(ls: Seq<Seq<char>>)
    ensures
        last_plugin_line(ls) matches Some(k) ==> 0 <= k < ls.len(),
    decreases ls.len(),
{
    if ls.len() > 0 {
        lemma_last_plugin_line_range(ls.drop_last());
    }
}

} // verus!
