//! Packaging built plugin binaries: folder and file names, the resources
//! that go with a binary, and the plan of file operations that produces the
//! packages and their archives.

use vstd::prelude::*;

use crate::compiler::{require_dir, spec_require_dir, sviews};
use crate::fs::{first_where, fs_is_dir, in_walk, EntryKind, EntryView, FsSnapshot};
use crate::paths::{
    components, components_of, extension, extension_of, file_name, file_name_of, join, join_str,
    parent, parent_of, path_join, relative, relative_of,
};
use crate::text::{
    chars_eq, chars_of, concat, eq_ignore_ascii_case, find_char, find_char_in, slice_chars,
    str_eq, string_of,
};
use crate::types::{ov, BuildArtifact, BuildRequest, PackageMode};

verus! {

// ---------------------------------------------------------------------------
// Names
// ---------------------------------------------------------------------------

/// The version as packages name it: the text before its first `.`.
pub open spec fn spec_package_version_label(version: Seq<char>) -> Seq<char> {
    match find_char(version, '.') {
        Some(i) => version.take(i),
        None => version,
    }
}

pub fn package_version_label(version: &str) -> (r: String)
    ensures
        r@ == spec_package_version_label(version@),
{
    let v = chars_of(version);
    match find_char_in(&v, '.') {
        Some(i) => {
            proof {
                crate::text::lemma_find_from_some(v@, seq!['.'], 0);
            }
            let major = slice_chars(&v, 0, i);
            assert(major@ =~= v@.take(i as int));
            string_of(&major)
        },
        None => crate::text::owned(version),
    }
}

/// `_Debug` for the debug configuration (ASCII case ignored), else nothing.
pub open spec fn spec_configuration_suffix(configuration: Seq<char>) -> Seq<char> {
    if eq_ignore_ascii_case(configuration, "debug"@) {
        "_Debug"@
    } else {
        Seq::<char>::empty()
    }
}

pub fn configuration_suffix(configuration: &str) -> (r: &'static str)
    ensures
        r@ == spec_configuration_suffix(configuration@),
{
    let c = chars_of(configuration);
    let d = chars_of("debug");
    if crate::text::chars_eq_ignore_ascii_case(&c, &d) {
        "_Debug"
    } else {
        proof {
            reveal_strlit("");
        }
        assert(""@ =~= Seq::<char>::empty());
        ""
    }
}

/// `<package>_<major><suffix>`: the folder of a per-version package.
pub open spec fn spec_package_folder_name(
    package_name: Seq<char>,
    version: Seq<char>,
    configuration: Seq<char>,
) -> Seq<char> {
    package_name + "_"@ + spec_package_version_label(version) + spec_configuration_suffix(
        configuration,
    )
}

pub fn package_folder_name(package_name: &str, version: &str, configuration: &str) -> (r: String)
    ensures
        r@ == spec_package_folder_name(package_name@, version@, configuration@),
{
    let p = chars_of(package_name);
    let u = chars_of("_");
    let l = package_version_label(version);
    let lv = chars_of(l.as_str());
    let s = chars_of(configuration_suffix(configuration));
    string_of(&concat(&concat(&concat(&p, &u), &lv), &s))
}

/// `<package> <major><suffix><extension>`: a binary in a merged package.
pub open spec fn spec_package_binary_name(
    package_name: Seq<char>,
    version: Seq<char>,
    configuration: Seq<char>,
    extension: Seq<char>,
) -> Seq<char> {
    package_name + " "@ + spec_package_version_label(version) + spec_configuration_suffix(
        configuration,
    ) + extension
}

pub fn package_binary_name(
    package_name: &str,
    version: &str,
    configuration: &str,
    extension: &str,
) -> (r: String)
    ensures
        r@ == spec_package_binary_name(package_name@, version@, configuration@, extension@),
{
    let p = chars_of(package_name);
    let sp = chars_of(" ");
    let l = package_version_label(version);
    let lv = chars_of(l.as_str());
    let s = chars_of(configuration_suffix(configuration));
    let e = chars_of(extension);
    string_of(&concat(&concat(&concat(&concat(&p, &sp), &lv), &s), &e))
}

// ---------------------------------------------------------------------------
// Resources
// ---------------------------------------------------------------------------

/// Folder names a resource search passes over.
pub open spec fn ignored_resource_component(name: Seq<char>) -> bool {
    ||| name == ".git"@
    ||| name == "build"@
    ||| name == "dist"@
    ||| name == "dist-test-debug"@
    ||| name == "node_modules"@
    ||| name == "target"@
}

/// `path` lies below `root` under a folder a resource search passes over.
pub open spec fn spec_path_contains_ignored_component(root: Seq<char>, path: Seq<char>) -> bool {
    match relative(root, path) {
        Some(rel) => has_ignored_resource_component(rel),
        None => false,
    }
}

/// Some component of the relative path `rel` is passed over.
pub open spec fn has_ignored_resource_component(rel: Seq<char>) -> bool {
    exists|i: int|
        0 <= i < components(rel).len() && ignored_resource_component(#[trigger] components(rel)[i])
}

#[verifier::loop_isolation(false)]
pub fn path_contains_ignored_component(root: &str, path: &str) -> (r: bool)
    ensures
        r == spec_path_contains_ignored_component(root@, path@),
{
    let rv = chars_of(root);
    let pv = chars_of(path);
    match relative_of(&rv, &pv) {
        Some(rel) => {
            let parts = components_of(&rel);
            let mut i: usize = 0;
            while i < parts.len()
                invariant
                    i <= parts.len(),
                    crate::text::vviews(parts@) == components(rel@),
                    forall|k: int|
                        0 <= k < i ==> !ignored_resource_component(
                            #[trigger] components(rel@)[k],
                        ),
                decreases parts.len() - i,
            {
                let name = string_of(&parts[i]);
                assert(name@ == components(rel@)[i as int]);
                if str_eq(name.as_str(), ".git") || str_eq(name.as_str(), "build") || str_eq(
                    name.as_str(),
                    "dist",
                ) || str_eq(name.as_str(), "dist-test-debug") || str_eq(
                    name.as_str(),
                    "node_modules",
                ) || str_eq(name.as_str(), "target") {
                    assert(crate::text::vviews(parts@).len() == parts@.len());
                    assert(ignored_resource_component(components(rel@)[i as int]));
                    assert(has_ignored_resource_component(rel@));
                    return true;
                }
                i += 1;
            }
            assert(crate::text::vviews(parts@).len() == parts@.len());
            false
        },
        None => false,
    }
}

/// A `res` folder that sits beside a module's `project` or `source` folder.
pub open spec fn spec_is_likely_module_resource_dir(fs: Seq<EntryView>, resource_dir: Seq<char>) -> bool {
    match parent(resource_dir) {
        Some(module_dir) => fs_is_dir(fs, path_join(module_dir, "project"@)) || fs_is_dir(
            fs,
            path_join(module_dir, "source"@),
        ),
        None => false,
    }
}

pub fn is_likely_module_resource_dir(fs: &FsSnapshot, resource_dir: &str) -> (r: bool)
    ensures
        r == spec_is_likely_module_resource_dir(fs@, resource_dir@),
{
    let rv = chars_of(resource_dir);
    match parent_of(&rv) {
        Some(m) => {
            let project = join_str(&m, "project");
            let source = join_str(&m, "source");
            fs.is_dir(&project) || fs.is_dir(&source)
        },
        None => false,
    }
}

/// A module resource folder one to five levels below the plugin root.
pub open spec fn nested_resource_test(fs: Seq<EntryView>, root: Seq<char>) -> spec_fn(EntryView) -> bool {
    |e: EntryView|
        in_walk(root, e.0, 1, 5) && e.1 == EntryKind::Dir && file_name(e.0) == Some("res"@)
            && !spec_path_contains_ignored_component(root, e.0)
            && spec_is_likely_module_resource_dir(fs, e.0)
}

pub open spec fn spec_find_nested_resource_dir(fs: Seq<EntryView>, root: Seq<char>) -> Option<
    Seq<char>,
> {
    match first_where(fs, nested_resource_test(fs, root)) {
        Some(e) => Some(e.0),
        None => None,
    }
}

pub fn find_nested_resource_dir(fs: &FsSnapshot, plugin_root: &str) -> (r: Option<String>)
    ensures
        ov(r) == spec_find_nested_resource_dir(fs@, plugin_root@),
{
    let root = chars_of(plugin_root);
    let ghost f = nested_resource_test(fs@, root@);
    proof {
        crate::fs::lemma_first_where_start(fs@, f);
    }
    let mut i: usize = 0;
    while i < fs.entries.len()
        invariant
            i <= fs@.len(),
            fs@.len() == fs.entries@.len(),
            root@ == plugin_root@,
            f == nested_resource_test(fs@, root@),
            first_where(fs@, f) == first_where(fs@.skip(i as int), f),
        decreases fs.entries.len() - i,
    {
        let p = fs.path_at(i);
        let e = &fs.entries[i];
        assert(fs@[i as int] == e@);
        let ps = string_of(&p);
        let named = match file_name_of(&p) {
            Some(n) => {
                let res = chars_of("res");
                chars_eq(&n, &res)
            },
            None => false,
        };
        let hit = crate::fs::walk_visits(&root, &p, 1, 5) && e.kind == EntryKind::Dir && named
            && !path_contains_ignored_component(plugin_root, ps.as_str())
            && is_likely_module_resource_dir(fs, ps.as_str());
        assert(hit == f(fs@[i as int]));
        if hit {
            proof {
                crate::fs::lemma_first_where_hit(fs@, f, i as int);
            }
            return Some(ps);
        }
        proof {
            crate::fs::lemma_first_where_step(fs@, f, i as int);
        }
        i += 1;
    }
    proof {
        crate::fs::lemma_first_where_end(fs@, f);
    }
    None
}

/// The resources that go with a binary: the `res` folder beside it, else
/// the plugin root's `res`, else a module `res` folder found below the root.
pub open spec fn spec_find_resource_dir(fs: Seq<EntryView>, plugin_root: Seq<char>, binary: Seq<char>) -> Option<
    Seq<char>,
> {
    match parent(binary) {
        None => None,
        Some(dir) => {
            let built = path_join(dir, "res"@);
            let direct = path_join(plugin_root, "res"@);
            if fs_is_dir(fs, built) {
                Some(built)
            } else if fs_is_dir(fs, direct) {
                Some(direct)
            } else {
                spec_find_nested_resource_dir(fs, plugin_root)
            }
        },
    }
}

pub fn find_resource_dir(fs: &FsSnapshot, plugin_root: &str, binary: &str) -> (r: Option<String>)
    ensures
        ov(r) == spec_find_resource_dir(fs@, plugin_root@, binary@),
{
    let bv = chars_of(binary);
    let dir = match parent_of(&bv) {
        Some(d) => d,
        None => return None,
    };
    let built = join_str(&dir, "res");
    if fs.is_dir(&built) {
        return Some(string_of(&built));
    }
    let rv = chars_of(plugin_root);
    let direct = join_str(&rv, "res");
    if fs.is_dir(&direct) {
        return Some(string_of(&direct));
    }
    find_nested_resource_dir(fs, plugin_root)
}

// ---------------------------------------------------------------------------
// The packaging plan
// ---------------------------------------------------------------------------

/// What one packaging operation does.
#[derive(Clone, Copy, Debug, PartialEq, Eq, Structural)]
pub enum PackageOpKind {
    /// Remove the file or folder `to` when it exists.
    RemoveIfExists,
    /// Create the folder `to` and its parents.
    CreateDirAll,
    /// Copy the folder `from` with its contents to `to`.
    CopyTree,
    /// Copy the file `from` to `to`.
    CopyFile,
    /// Write the zip archive `to` of the folder `from`.
    Zip,
}

/// One file operation of packaging; `from` is empty where the operation
/// has one path.
pub struct PackageOp {
    pub kind: PackageOpKind,
    pub from: String,
    pub to: String,
}

pub type OpView = (PackageOpKind, Seq<char>, Seq<char>);

pub open spec fn op_view(o: PackageOp) -> OpView {
    (o.kind, o.from@, o.to@)
}

pub open spec fn ops_view(s: Seq<PackageOp>) -> Seq<OpView> {
    s.map_values(|o: PackageOp| op_view(o))
}

/// An operation on one path.
pub open spec fn on(kind: PackageOpKind, to: Seq<char>) -> OpView {
    (kind, Seq::<char>::empty(), to)
}

/// The view of an artifact: version, configuration, kind and path.
pub type ArtifactView = (Option<Seq<char>>, Option<Seq<char>>, Seq<char>, Seq<char>);

pub open spec fn artifact_view(a: BuildArtifact) -> ArtifactView {
    (ov(a.version), ov(a.configuration), a.kind@, a.path@)
}

pub open spec fn artifacts_view(s: Seq<BuildArtifact>) -> Seq<ArtifactView> {
    s.map_values(|a: BuildArtifact| artifact_view(a))
}

/// The operations to run, in order, and what packaging returns once they
/// have all succeeded: the artifacts, or the error that stopped packaging
/// after the listed operations.
pub struct PackagePlan {
    pub ops: Vec<PackageOp>,
    pub result: Result<Vec<BuildArtifact>, String>,
}

pub type PlanView = (Seq<OpView>, Result<Seq<ArtifactView>, Seq<char>>);

pub open spec fn plan_view(p: PackagePlan) -> PlanView {
    (
        ops_view(p.ops@),
        match p.result {
            Ok(a) => Ok(artifacts_view(a@)),
            Err(e) => Err(e@),
        },
    )
}

/// The view of the built binaries: version, configuration and path.
pub type BinaryView = (Seq<char>, Seq<char>, Seq<char>);

pub open spec fn binaries_view(s: Seq<(String, String, String)>) -> Seq<BinaryView> {
    s.map_values(|b: (String, String, String)| (b.0@, b.1@, b.2@))
}

fn push_op(ops: &mut Vec<PackageOp>, kind: PackageOpKind, from: &str, to: &str)
    ensures
        ops_view(final(ops)@) == ops_view(old(ops)@).push((kind, from@, to@)),
{
    ops.push(PackageOp { kind, from: crate::text::owned(from), to: crate::text::owned(to) });
    assert(ops_view(ops@) =~= ops_view(old(ops)@).push((kind, from@, to@)));
}

fn push_on(ops: &mut Vec<PackageOp>, kind: PackageOpKind, to: &str)
    ensures
        ops_view(final(ops)@) == ops_view(old(ops)@).push(on(kind, to@)),
{
    ops.push(PackageOp { kind, from: String::new(), to: crate::text::owned(to) });
    assert(ops_view(ops@) =~= ops_view(old(ops)@).push(on(kind, to@)));
}

fn append_ops(ops: &mut Vec<PackageOp>, more: Vec<PackageOp>)
    ensures
        ops_view(final(ops)@) == ops_view(old(ops)@) + ops_view(more@),
{
    let mut more = more;
    let ghost m = more@;
    ops.append(&mut more);
    assert(ops_view(ops@) =~= ops_view(old(ops)@) + ops_view(m));
}

fn artifact(version: Option<String>, configuration: Option<String>, kind: &str, path: &str) -> (r:
    BuildArtifact)
    ensures
        artifact_view(r) == (ov(version), ov(configuration), kind@, path@),
{
    BuildArtifact {
        version,
        configuration,
        kind: crate::text::owned(kind),
        path: crate::text::owned(path),
    }
}

/// Putting a binary's resources into a package: the package's `res` is
/// replaced by the binary's resource folder, or made empty.
pub open spec fn spec_copy_resources(
    fs: Seq<EntryView>,
    plugin_root: Seq<char>,
    binary: Seq<char>,
    package_dir: Seq<char>,
) -> Seq<OpView> {
    let target = path_join(package_dir, "res"@);
    seq![on(PackageOpKind::RemoveIfExists, target)] + match spec_find_resource_dir(
        fs,
        plugin_root,
        binary,
    ) {
        Some(source) => seq![(PackageOpKind::CopyTree, source, target)],
        None => seq![on(PackageOpKind::CreateDirAll, target)],
    }
}

pub fn copy_resources(fs: &FsSnapshot, plugin_root: &str, binary: &str, package_dir: &str) -> (r:
    Vec<PackageOp>)
    ensures
        ops_view(r@) == spec_copy_resources(fs@, plugin_root@, binary@, package_dir@),
{
    let pv = chars_of(package_dir);
    let target = string_of(&join_str(&pv, "res"));
    let mut ops: Vec<PackageOp> = Vec::new();
    push_on(&mut ops, PackageOpKind::RemoveIfExists, target.as_str());
    match find_resource_dir(fs, plugin_root, binary) {
        Some(source) => push_op(&mut ops, PackageOpKind::CopyTree, source.as_str(), target.as_str()),
        None => push_on(&mut ops, PackageOpKind::CreateDirAll, target.as_str()),
    }
    assert(ops_view(ops@) =~= spec_copy_resources(fs@, plugin_root@, binary@, package_dir@));
    ops
}

/// Putting the plugin's `libs` folder into a package, when there is one.
pub open spec fn spec_copy_plugin_lib_directories(
    fs: Seq<EntryView>,
    plugin_root: Seq<char>,
    package_dir: Seq<char>,
) -> Seq<OpView> {
    let source = path_join(plugin_root, "libs"@);
    let target = path_join(package_dir, "libs"@);
    if fs_is_dir(fs, source) {
        seq![on(PackageOpKind::RemoveIfExists, target), (PackageOpKind::CopyTree, source, target)]
    } else {
        Seq::empty()
    }
}

pub fn copy_plugin_lib_directories(fs: &FsSnapshot, plugin_root: &str, package_dir: &str) -> (r:
    Vec<PackageOp>)
    ensures
        ops_view(r@) == spec_copy_plugin_lib_directories(fs@, plugin_root@, package_dir@),
{
    let rv = chars_of(plugin_root);
    let pv = chars_of(package_dir);
    let source = join_str(&rv, "libs");
    let target = string_of(&join_str(&pv, "libs"));
    let mut ops: Vec<PackageOp> = Vec::new();
    if fs.is_dir(&source) {
        let src = string_of(&source);
        push_on(&mut ops, PackageOpKind::RemoveIfExists, target.as_str());
        push_op(&mut ops, PackageOpKind::CopyTree, src.as_str(), target.as_str());
    }
    assert(ops_view(ops@) =~= spec_copy_plugin_lib_directories(fs@, plugin_root@, package_dir@));
    ops
}

/// `<parent>/<name>`: the path with its last component replaced.
pub open spec fn with_file_name(p: Seq<char>, name: Seq<char>) -> Seq<char> {
    match parent(p) {
        Some(dir) => path_join(dir, name),
        None => name,
    }
}

/// The archive of a package folder: `<folder>.zip` beside it.
pub open spec fn spec_zip_archive_path(package_dir: Seq<char>) -> Result<Seq<char>, Seq<char>> {
    match file_name(package_dir) {
        Some(name) => Ok(with_file_name(package_dir, name + ".zip"@)),
        None => Err("Invalid package directory: "@ + package_dir),
    }
}

pub fn zip_archive_path(package_dir: &str) -> (r: Result<String, String>)
    ensures
        crate::compiler::srv(r) == spec_zip_archive_path(package_dir@),
{
    let pv = chars_of(package_dir);
    match file_name_of(&pv) {
        Some(name) => {
            let zip = concat(&name, &chars_of(".zip"));
            match parent_of(&pv) {
                Some(dir) => Ok(string_of(&join(&dir, &zip))),
                None => Ok(string_of(&zip)),
            }
        },
        None => {
            let m = chars_of("Invalid package directory: ");
            Err(string_of(&concat(&m, &pv)))
        },
    }
}

/// One entry of a package's zip archive: its name in the archive, the
/// listed path it comes from, and whether it is a folder.
pub struct ZipEntry {
    pub name: String,
    pub source: String,
    pub is_dir: bool,
}

pub type ZipEntryView = (Seq<char>, Seq<char>, bool);

impl View for ZipEntry {
    type V = ZipEntryView;

    open spec fn view(&self) -> ZipEntryView {
        (self.name@, self.source@, self.is_dir)
    }
}

/// The folder that archive names are taken relative to: the package
/// folder's parent, or the folder itself where it has none.
pub open spec fn zip_name_base(package_dir: Seq<char>) -> Seq<char> {
    match parent(package_dir) {
        Some(par) => par,
        None => package_dir,
    }
}

/// The archive name of the listed path `p`: its path relative to `base`
/// (the whole path where `base` is empty).
pub open spec fn zip_entry_name(base: Seq<char>, p: Seq<char>) -> Option<Seq<char>> {
    if base.len() == 0 {
        Some(p)
    } else {
        relative(base, p)
    }
}

/// What a listed entry adds to the archive of `package_dir`: nothing for an
/// entry outside the package folder or a folder without a name; otherwise
/// a folder entry for a folder and a file entry for anything else.
pub open spec fn spec_zip_entry_of(package_dir: Seq<char>, e: EntryView) -> Option<ZipEntryView> {
    if relative(package_dir, e.0) is None {
        None
    } else {
        match zip_entry_name(zip_name_base(package_dir), e.0) {
            None => None,
            Some(name) => if e.1 == EntryKind::Dir {
                if name.len() == 0 {
                    None
                } else {
                    Some((name, e.0, true))
                }
            } else {
                Some((name, e.0, false))
            },
        }
    }
}

/// The entries of the archive of `package_dir`, in the order of the listing
/// `es` (a walk of the package folder).
pub open spec fn spec_zip_entries(es: Seq<EntryView>, package_dir: Seq<char>) -> Seq<ZipEntryView>
    decreases es.len(),
{
    if es.len() == 0 {
        Seq::empty()
    } else {
        let rest = spec_zip_entries(es.drop_last(), package_dir);
        match spec_zip_entry_of(package_dir, es.last()) {
            Some(z) => rest.push(z),
            None => rest,
        }
    }
}

fn zip_entry_of(pv: &Vec<char>, base: &Vec<char>, path: &Vec<char>, kind: EntryKind) -> (r: Option<ZipEntry>)
    requires
        base@ == zip_name_base(pv@),
    ensures
        r matches Some(z) ==> spec_zip_entry_of(pv@, (path@, kind, false)) == Some(z@),
        r is None ==> spec_zip_entry_of(pv@, (path@, kind, false)) is None,
{
    if relative_of(pv, path).is_none() {
        return None;
    }
    let name = if base.len() == 0 {
        path.clone()
    } else {
        match relative_of(base, path) {
            Some(n) => n,
            None => return None,
        }
    };
    let is_dir = kind == EntryKind::Dir;
    if is_dir && name.len() == 0 {
        None
    } else {
        Some(ZipEntry { name: string_of(&name), source: string_of(path), is_dir })
    }
}

/// The entries of the archive of `package_dir`, in the order of the listing
/// `fs` (see `spec_zip_entries`).
pub fn zip_entries(fs: &FsSnapshot, package_dir: &str) -> (r: Vec<ZipEntry>)
    ensures
        r@.map_values(|z: ZipEntry| z@) == spec_zip_entries(fs@, package_dir@),
{
    let pv = chars_of(package_dir);
    let base = match parent_of(&pv) {
        Some(par) => par,
        None => pv.clone(),
    };
    let mut r: Vec<ZipEntry> = Vec::new();
    let mut i: usize = 0;
    while i < fs.entries.len()
        invariant
            i <= fs@.len(),
            fs@.len() == fs.entries@.len(),
            pv@ == package_dir@,
            base@ == zip_name_base(pv@),
            r@.map_values(|z: ZipEntry| z@) == spec_zip_entries(fs@.take(i as int), pv@),
        decreases fs.entries.len() - i,
    {
        let ghost prev = r@.map_values(|z: ZipEntry| z@);
        let path = fs.path_at(i);
        let kind = fs.entries[i].kind;
        let ghost e = fs@[i as int];
        assert(fs@.take(i + 1).drop_last() =~= fs@.take(i as int));
        assert(fs@.take(i + 1).last() == e);
        assert(spec_zip_entry_of(pv@, e) == spec_zip_entry_of(pv@, (path@, kind, false)));
        match zip_entry_of(&pv, &base, &path, kind) {
            Some(z) => {
                r.push(z);
                assert(r@.map_values(|z: ZipEntry| z@) =~= prev.push(z@));
            },
            None => {},
        }
        i += 1;
    }
    assert(fs@.take(fs@.len() as int) =~= fs@);
    r
}

/// The name a per-version package gives a binary: its own file name.
pub open spec fn spec_packaged_binary_name(binary: Seq<char>) -> Result<Seq<char>, Seq<char>> {
    match file_name(binary) {
        Some(name) => Ok(name),
        None => Err("Invalid built binary path: "@ + binary),
    }
}

pub fn packaged_binary_name(binary: &str) -> (r: Result<String, String>)
    ensures
        crate::compiler::srv(r) == spec_packaged_binary_name(binary@),
{
    let bv = chars_of(binary);
    match file_name_of(&bv) {
        Some(name) => Ok(string_of(&name)),
        None => {
            let m = chars_of("Invalid built binary path: ");
            Err(string_of(&concat(&m, &bv)))
        },
    }
}

/// `.<extension>` of a binary, or nothing.
pub open spec fn binary_suffix(binary: Seq<char>) -> Seq<char> {
    match extension(binary) {
        Some(e) => "."@ + e,
        None => Seq::<char>::empty(),
    }
}

/// The operations that put one binary into the merged package.
pub open spec fn merged_binary_ops(
    fs: Seq<EntryView>,
    request: BuildRequest,
    package_dir: Seq<char>,
    b: BinaryView,
) -> Seq<OpView> {
    spec_copy_resources(fs, request.plugin_root@, b.2, package_dir)
        + spec_copy_plugin_lib_directories(fs, request.plugin_root@, package_dir) + seq![
        (
            PackageOpKind::CopyFile,
            b.2,
            path_join(
                package_dir,
                spec_package_binary_name(request.package_name@, b.0, b.1, binary_suffix(b.2)),
            ),
        ),
    ]
}

pub open spec fn merged_ops_upto(
    fs: Seq<EntryView>,
    request: BuildRequest,
    package_dir: Seq<char>,
    bins: Seq<BinaryView>,
    k: nat,
) -> Seq<OpView>
    decreases k,
{
    if k == 0 {
        Seq::empty()
    } else {
        merged_ops_upto(fs, request, package_dir, bins, (k - 1) as nat) + merged_binary_ops(
            fs,
            request,
            package_dir,
            bins[k - 1],
        )
    }
}

/// The merged package: one folder named after the package holding every
/// binary (named by `spec_package_binary_name`), with its archive when
/// archives are on.
pub open spec fn spec_create_merged_package(
    fs: Seq<EntryView>,
    request: BuildRequest,
    bins: Seq<BinaryView>,
    output_root: Seq<char>,
) -> PlanView {
    let package_dir = path_join(output_root, request.package_name@);
    let head = (if request.clean_output {
        seq![on(PackageOpKind::RemoveIfExists, package_dir)]
    } else {
        Seq::empty()
    }) + seq![on(PackageOpKind::CreateDirAll, package_dir)];
    let ops = head + merged_ops_upto(fs, request, package_dir, bins, bins.len());
    let arts = seq![(None, None, "merged-package"@, package_dir)];
    if request.zip_enabled {
        match spec_zip_archive_path(package_dir) {
            Ok(z) => (
                ops.push((PackageOpKind::Zip, package_dir, z)),
                Ok(arts.push((None, None, "merged-zip"@, z))),
            ),
            Err(e) => (ops, Err(e)),
        }
    } else {
        (ops, Ok(arts))
    }
}

fn clean_and_create(ops: &mut Vec<PackageOp>, clean: bool, dir: &str)
    ensures
        ops_view(final(ops)@) == ops_view(old(ops)@) + (if clean {
            seq![on(PackageOpKind::RemoveIfExists, dir@)]
        } else {
            Seq::empty()
        }) + seq![on(PackageOpKind::CreateDirAll, dir@)],
{
    let ghost start = ops_view(ops@);
    if clean {
        push_on(ops, PackageOpKind::RemoveIfExists, dir);
    }
    push_on(ops, PackageOpKind::CreateDirAll, dir);
    if clean {
        assert(ops_view(ops@) =~= start + seq![on(PackageOpKind::RemoveIfExists, dir@)] + seq![
            on(PackageOpKind::CreateDirAll, dir@),
        ]);
    } else {
        assert(ops_view(ops@) =~= start + Seq::<OpView>::empty() + seq![
            on(PackageOpKind::CreateDirAll, dir@),
        ]);
    }
}

pub fn create_merged_package(
    fs: &FsSnapshot,
    request: &BuildRequest,
    built_binaries: &Vec<(String, String, String)>,
    output_root: &str,
) -> (r: PackagePlan)
    ensures
        plan_view(r) == spec_create_merged_package(
            fs@,
            *request,
            binaries_view(built_binaries@),
            output_root@,
        ),
{
    let ghost bins = binaries_view(built_binaries@);
    let ov_root = chars_of(output_root);
    let pdir = string_of(&join_str(&ov_root, request.package_name.as_str()));
    let mut ops: Vec<PackageOp> = Vec::new();
    clean_and_create(&mut ops, request.clean_output, pdir.as_str());
    let ghost head = ops_view(ops@);
    let mut i: usize = 0;
    while i < built_binaries.len()
        invariant
            i <= built_binaries.len(),
            bins == binaries_view(built_binaries@),
            ops_view(ops@) == head + merged_ops_upto(fs@, *request, pdir@, bins, i as nat),
        decreases built_binaries.len() - i,
    {
        let version = built_binaries[i].0.as_str();
        let configuration = built_binaries[i].1.as_str();
        let binary = built_binaries[i].2.as_str();
        let ghost before = ops_view(ops@);
        append_ops(&mut ops, copy_resources(fs, request.plugin_root.as_str(), binary, pdir.as_str()));
        append_ops(&mut ops, copy_plugin_lib_directories(fs, request.plugin_root.as_str(), pdir.as_str()));
        let bv = chars_of(binary);
        let suffix = match extension_of(&bv) {
            Some(e) => concat(&chars_of("."), &e),
            None => Vec::new(),
        };
        let suffix_s = string_of(&suffix);
        let target_name = package_binary_name(
            request.package_name.as_str(),
            version,
            configuration,
            suffix_s.as_str(),
        );
        let pv = chars_of(pdir.as_str());
        let target = string_of(&join_str(&pv, target_name.as_str()));
        push_op(&mut ops, PackageOpKind::CopyFile, binary, target.as_str());
        assert(bins[i as int] == (version@, configuration@, binary@));
        assert(suffix@ =~= binary_suffix(binary@));
        assert(ops_view(ops@) =~= before + merged_binary_ops(fs@, *request, pdir@, bins[i as int]));
        i += 1;
    }
    let mut arts: Vec<BuildArtifact> = Vec::new();
    arts.push(artifact(None, None, "merged-package", pdir.as_str()));
    if request.zip_enabled {
        match zip_archive_path(pdir.as_str()) {
            Ok(z) => {
                push_op(&mut ops, PackageOpKind::Zip, pdir.as_str(), z.as_str());
                arts.push(artifact(None, None, "merged-zip", z.as_str()));
                let ghost first: ArtifactView = (None, None, "merged-package"@, pdir@);
                let ghost second: ArtifactView = (None, None, "merged-zip"@, z@);
                assert(artifacts_view(arts@) =~= seq![first].push(second));
                return PackagePlan { ops, result: Ok(arts) };
            },
            Err(e) => {
                return PackagePlan { ops, result: Err(e) };
            },
        }
    }
    assert(artifacts_view(arts@) =~= seq![(None, None, "merged-package"@, pdir@)]);
    PackagePlan { ops, result: Ok(arts) }
}

/// The package of one binary: a folder named by `spec_package_folder_name`
/// holding the binary under its own name, its resources and libraries, and
/// its archive when archives are on.
pub open spec fn per_version_one(
    fs: Seq<EntryView>,
    request: BuildRequest,
    b: BinaryView,
    output_root: Seq<char>,
) -> PlanView {
    let package_dir = path_join(
        output_root,
        spec_package_folder_name(request.package_name@, b.0, b.1),
    );
    let ops = (if request.clean_output {
        seq![on(PackageOpKind::RemoveIfExists, package_dir)]
    } else {
        Seq::empty()
    }) + seq![on(PackageOpKind::CreateDirAll, package_dir)] + spec_copy_resources(
        fs,
        request.plugin_root@,
        b.2,
        package_dir,
    ) + spec_copy_plugin_lib_directories(fs, request.plugin_root@, package_dir);
    match spec_packaged_binary_name(b.2) {
        Err(e) => (ops, Err(e)),
        Ok(name) => {
            let with_copy = ops.push((PackageOpKind::CopyFile, b.2, path_join(package_dir, name)));
            let package: ArtifactView = (Some(b.0), Some(b.1), "version-package"@, package_dir);
            if request.zip_enabled {
                match spec_zip_archive_path(package_dir) {
                    Ok(z) => (
                        with_copy.push((PackageOpKind::Zip, package_dir, z)),
                        Ok(seq![package, (Some(b.0), Some(b.1), "version-zip"@, z)]),
                    ),
                    Err(e) => (with_copy, Err(e)),
                }
            } else {
                (with_copy, Ok(seq![package]))
            }
        },
    }
}

/// The per-version packages of the first `k` binaries; packaging stops at
/// the first error.
pub open spec fn per_version_upto(
    fs: Seq<EntryView>,
    request: BuildRequest,
    bins: Seq<BinaryView>,
    output_root: Seq<char>,
    k: nat,
) -> PlanView
    decreases k,
{
    if k == 0 {
        (Seq::empty(), Ok(Seq::empty()))
    } else {
        let (ops, res) = per_version_upto(fs, request, bins, output_root, (k - 1) as nat);
        match res {
            Err(e) => (ops, Err(e)),
            Ok(arts) => {
                let (more, r) = per_version_one(fs, request, bins[k - 1], output_root);
                (
                    ops + more,
                    match r {
                        Ok(a) => Ok(arts + a),
                        Err(e) => Err(e),
                    },
                )
            },
        }
    }
}

/// Once per-version packaging has failed, later binaries change nothing.
proof fn lemma_per_version_error_stays(
    fs: Seq<EntryView>,
    request: BuildRequest,
    bins: Seq<BinaryView>,
    output_root: Seq<char>,
    j: nat,
    k: nat,
)
    requires
        j <= k,
        per_version_upto(fs, request, bins, output_root, j).1 is Err,
    ensures
        per_version_upto(fs, request, bins, output_root, k) == per_version_upto(
            fs,
            request,
            bins,
            output_root,
            j,
        ),
    decreases k - j,
{
    if j < k {
        lemma_per_version_error_stays(fs, request, bins, output_root, j, (k - 1) as nat);
    }
}

pub open spec fn spec_create_per_version_packages(
    fs: Seq<EntryView>,
    request: BuildRequest,
    bins: Seq<BinaryView>,
    output_root: Seq<char>,
) -> PlanView {
    per_version_upto(fs, request, bins, output_root, bins.len())
}

fn create_one_version_package(
    fs: &FsSnapshot,
    request: &BuildRequest,
    version: &str,
    configuration: &str,
    binary: &str,
    output_root: &str,
) -> (r: PackagePlan)
    ensures
        plan_view(r) == per_version_one(
            fs@,
            *request,
            (version@, configuration@, binary@),
            output_root@,
        ),
{
    let orv = chars_of(output_root);
    let folder = package_folder_name(request.package_name.as_str(), version, configuration);
    let pdir = string_of(&join_str(&orv, folder.as_str()));
    let mut ops: Vec<PackageOp> = Vec::new();
    clean_and_create(&mut ops, request.clean_output, pdir.as_str());
    append_ops(&mut ops, copy_resources(fs, request.plugin_root.as_str(), binary, pdir.as_str()));
    append_ops(&mut ops, copy_plugin_lib_directories(fs, request.plugin_root.as_str(), pdir.as_str()));
    assert(ops_view(ops@) =~= (if request.clean_output {
        seq![on(PackageOpKind::RemoveIfExists, pdir@)]
    } else {
        Seq::empty()
    }) + seq![on(PackageOpKind::CreateDirAll, pdir@)] + spec_copy_resources(
        fs@,
        request.plugin_root@,
        binary@,
        pdir@,
    ) + spec_copy_plugin_lib_directories(fs@, request.plugin_root@, pdir@));
    let name = match packaged_binary_name(binary) {
        Ok(n) => n,
        Err(e) => return PackagePlan { ops, result: Err(e) },
    };
    let pv = chars_of(pdir.as_str());
    let target = string_of(&join_str(&pv, name.as_str()));
    push_op(&mut ops, PackageOpKind::CopyFile, binary, target.as_str());
    let mut arts: Vec<BuildArtifact> = Vec::new();
    arts.push(
        artifact(
            Some(crate::text::owned(version)),
            Some(crate::text::owned(configuration)),
            "version-package",
            pdir.as_str(),
        ),
    );
    let ghost package: ArtifactView = (Some(version@), Some(configuration@), "version-package"@, pdir@);
    if request.zip_enabled {
        match zip_archive_path(pdir.as_str()) {
            Ok(z) => {
                push_op(&mut ops, PackageOpKind::Zip, pdir.as_str(), z.as_str());
                arts.push(
                    artifact(
                        Some(crate::text::owned(version)),
                        Some(crate::text::owned(configuration)),
                        "version-zip",
                        z.as_str(),
                    ),
                );
                let ghost second: ArtifactView = (Some(version@), Some(configuration@), "version-zip"@, z@);
                assert(artifacts_view(arts@) =~= seq![package, second]);
                return PackagePlan { ops, result: Ok(arts) };
            },
            Err(e) => return PackagePlan { ops, result: Err(e) },
        }
    }
    assert(artifacts_view(arts@) =~= seq![package]);
    PackagePlan { ops, result: Ok(arts) }
}

pub fn create_per_version_packages(
    fs: &FsSnapshot,
    request: &BuildRequest,
    built_binaries: &Vec<(String, String, String)>,
    output_root: &str,
) -> (r: PackagePlan)
    ensures
        plan_view(r) == spec_create_per_version_packages(
            fs@,
            *request,
            binaries_view(built_binaries@),
            output_root@,
        ),
{
    let ghost bins = binaries_view(built_binaries@);
    let mut ops: Vec<PackageOp> = Vec::new();
    let mut arts: Vec<BuildArtifact> = Vec::new();
    assert(ops_view(ops@) =~= Seq::<OpView>::empty());
    assert(artifacts_view(arts@) =~= Seq::<ArtifactView>::empty());
    let mut i: usize = 0;
    while i < built_binaries.len()
        invariant
            i <= built_binaries.len(),
            bins == binaries_view(built_binaries@),
            per_version_upto(fs@, *request, bins, output_root@, i as nat) == (
                ops_view(ops@),
                Ok::<Seq<ArtifactView>, Seq<char>>(artifacts_view(arts@)),
            ),
        decreases built_binaries.len() - i,
    {
        let plan = create_one_version_package(
            fs,
            request,
            built_binaries[i].0.as_str(),
            built_binaries[i].1.as_str(),
            built_binaries[i].2.as_str(),
            output_root,
        );
        assert(bins[i as int] == (
            built_binaries@[i as int].0@,
            built_binaries@[i as int].1@,
            built_binaries@[i as int].2@,
        ));
        let ghost before_ops = ops_view(ops@);
        let ghost before_arts = artifacts_view(arts@);
        let PackagePlan { ops: more, result } = plan;
        append_ops(&mut ops, more);
        match result {
            Ok(a) => {
                let mut a = a;
                let ghost av = artifacts_view(a@);
                arts.append(&mut a);
                assert(artifacts_view(arts@) =~= before_arts + av);
            },
            Err(e) => {
                proof {
                    lemma_per_version_error_stays(
                        fs@,
                        *request,
                        bins,
                        output_root@,
                        (i + 1) as nat,
                        bins.len(),
                    );
                }
                return PackagePlan { ops, result: Err(e) };
            },
        }
        i += 1;
    }
    PackagePlan { ops, result: Ok(arts) }
}

/// Packaging the binaries of a build: the plugin root must be a folder; the
/// output folder (`output_dir`, else `<plugin root>/dist`) is cleaned when
/// asked and created; then the merged package and the per-version packages
/// follow, as the package mode asks. Packaging stops at the first error.
pub open spec fn spec_package_outputs(
    fs: Seq<EntryView>,
    request: BuildRequest,
    bins: Seq<BinaryView>,
) -> PlanView {
    match spec_require_dir(fs, request.plugin_root@) {
        Err(e) => (Seq::empty(), Err(e)),
        Ok(_) => {
            let output_root = match ov(request.output_dir) {
                Some(o) => o,
                None => path_join(request.plugin_root@, "dist"@),
            };
            let head = (if request.clean_output {
                seq![on(PackageOpKind::RemoveIfExists, output_root)]
            } else {
                Seq::empty()
            }) + seq![on(PackageOpKind::CreateDirAll, output_root)];
            let (merged_ops, merged) = if request.package_mode == PackageMode::Merged
                || request.package_mode == PackageMode::Both {
                spec_create_merged_package(fs, request, bins, output_root)
            } else {
                (Seq::empty(), Ok(Seq::empty()))
            };
            match merged {
                Err(e) => (head + merged_ops, Err(e)),
                Ok(a1) => {
                    let (version_ops, versions) = if request.package_mode == PackageMode::PerVersion
                        || request.package_mode == PackageMode::Both {
                        spec_create_per_version_packages(fs, request, bins, output_root)
                    } else {
                        (Seq::empty(), Ok(Seq::empty()))
                    };
                    (
                        head + merged_ops + version_ops,
                        match versions {
                            Ok(a2) => Ok(a1 + a2),
                            Err(e) => Err(e),
                        },
                    )
                },
            }
        },
    }
}

pub fn package_outputs(
    fs: &FsSnapshot,
    request: &BuildRequest,
    built_binaries: &Vec<(String, String, String)>,
) -> (r: PackagePlan)
    ensures
        plan_view(r) == spec_package_outputs(fs@, *request, binaries_view(built_binaries@)),
{
    let mut ops: Vec<PackageOp> = Vec::new();
    match require_dir(fs, request.plugin_root.as_str()) {
        Err(e) => {
            assert(ops_view(ops@) =~= Seq::<OpView>::empty());
            return PackagePlan { ops, result: Err(e) };
        },
        Ok(_) => {},
    }
    let output_root = match &request.output_dir {
        Some(o) => o.clone(),
        None => {
            let rv = chars_of(request.plugin_root.as_str());
            string_of(&join_str(&rv, "dist"))
        },
    };
    clean_and_create(&mut ops, request.clean_output, output_root.as_str());
    let ghost head = ops_view(ops@);
    let mut arts: Vec<BuildArtifact> = Vec::new();
    let merged_mode = request.package_mode == PackageMode::Merged || request.package_mode
        == PackageMode::Both;
    if merged_mode {
        let PackagePlan { ops: more, result } = create_merged_package(
            fs,
            request,
            built_binaries,
            output_root.as_str(),
        );
        append_ops(&mut ops, more);
        match result {
            Ok(a) => {
                arts = a;
            },
            Err(e) => return PackagePlan { ops, result: Err(e) },
        }
    } else {
        assert(ops_view(ops@) =~= head + Seq::<OpView>::empty());
        assert(artifacts_view(arts@) =~= Seq::<ArtifactView>::empty());
    }
    let ghost mid_ops = ops_view(ops@);
    let ghost a1 = artifacts_view(arts@);
    let version_mode = request.package_mode == PackageMode::PerVersion || request.package_mode
        == PackageMode::Both;
    if version_mode {
        let PackagePlan { ops: more, result } = create_per_version_packages(
            fs,
            request,
            built_binaries,
            output_root.as_str(),
        );
        append_ops(&mut ops, more);
        match result {
            Ok(a) => {
                let mut a = a;
                let ghost av = artifacts_view(a@);
                arts.append(&mut a);
                assert(artifacts_view(arts@) =~= a1 + av);
            },
            Err(e) => return PackagePlan { ops, result: Err(e) },
        }
    } else {
        assert(ops_view(ops@) =~= mid_ops + Seq::<OpView>::empty());
        assert(artifacts_view(arts@) =~= a1 + Seq::<ArtifactView>::empty());
    }
    PackagePlan { ops, result: Ok(arts) }
}

// ---------------------------------------------------------------------------
// Laws of package naming
// ---------------------------------------------------------------------------

/// Package names keep only the C4D major version: the label is the start
/// of the version and holds no `.`; a release configuration adds nothing
/// and a debug one adds `_Debug`, to folders and binaries alike.
pub proof fn law_package_names_use_major_version(
    package_name: Seq<char>,
    version: Seq<char>,
    configuration: Seq<char>,
    extension: Seq<char>,
)
    ensures
        spec_package_version_label(version).is_prefix_of(version),
        !spec_package_version_label(version).contains('.'),
        eq_ignore_ascii_case(configuration, "debug"@) ==> spec_package_folder_name(
            package_name,
            version,
            configuration,
        ) == package_name + "_"@ + spec_package_version_label(version) + "_Debug"@,
        !eq_ignore_ascii_case(configuration, "debug"@) ==> spec_package_folder_name(
            package_name,
            version,
            configuration,
        ) == package_name + "_"@ + spec_package_version_label(version),
        spec_package_binary_name(package_name, version, configuration, extension) == package_name
            + " "@ + spec_package_version_label(version) + spec_configuration_suffix(configuration)
            + extension,
{
    let label = spec_package_version_label(version);
    match find_char(version, '.') {
        Some(i) => {
            crate::text::lemma_find_from_some(version, seq!['.'], 0);
            assert forall|k: int| 0 <= k < label.len() implies label[k] != '.' by {
                assert(!crate::text::occurs_at(version, seq!['.'], k));
                if version[k] == '.' {
                    assert(version.subrange(k, k + 1) =~= seq!['.']);
                }
            }
        },
        None => {
            crate::text::lemma_find_from_none(version, seq!['.'], 0);
            assert forall|k: int| 0 <= k < label.len() implies label[k] != '.' by {
                assert(!crate::text::occurs_at(version, seq!['.'], k));
                if version[k] == '.' {
                    assert(version.subrange(k, k + 1) =~= seq!['.']);
                }
            }
            assert(label =~= version);
        },
    }
    assert(Seq::<char>::empty().len() == 0);
    assert(package_name + "_"@ + label + Seq::<char>::empty() =~= package_name + "_"@ + label);
}

/// Per-version packaging that succeeds gives each binary its package, and
/// its archive when archives are on: one artifact per binary, or two.
pub proof fn law_per_version_artifacts_follow_binaries(
    fs: Seq<EntryView>,
    request: BuildRequest,
    bins: Seq<BinaryView>,
    output_root: Seq<char>,
    k: nat,
)
    ensures
        per_version_upto(fs, request, bins, output_root, k).1 matches Ok(arts) ==> arts.len() == (
        if request.zip_enabled {
            2 * k
        } else {
            k
        }),
    decreases k,
{
    if k > 0 {
        law_per_version_artifacts_follow_binaries(fs, request, bins, output_root, (k - 1) as nat);
    }
}

/// `p` names a folder `name` inside another folder: it is `name`, or ends
/// in `/name`.
pub open spec fn is_inner_folder(p: Seq<char>, name: Seq<char>) -> bool {
    p == name || (p.len() > name.len() && p[p.len() - name.len() - 1] == '/' && p.skip(
        p.len() - name.len(),
    ) == name)
}

/// Every removal in `ops` is of a `res` or `libs` folder inside a package.
pub open spec fn removes_only_inner_folders(ops: Seq<OpView>) -> bool {
    forall|i: int|
        0 <= i < ops.len() && (#[trigger] ops[i]).0 == PackageOpKind::RemoveIfExists ==> is_inner_folder(
            ops[i].2,
            "res"@,
        ) || is_inner_folder(ops[i].2, "libs"@)
}

proof fn lemma_join_inner(d: Seq<char>, name: Seq<char>)
    ensures
        is_inner_folder(path_join(d, name), name),
{
    let p = path_join(d, name);
    if d.len() > 0 {
        if d.last() == '/' {
            assert(p.skip(d.len() as int) =~= name);
            assert(p[d.len() - 1] == '/');
        } else {
            assert(p.skip(d.len() as int + 1) =~= name);
            assert(p[d.len() as int] == '/');
        }
    }
}

proof fn lemma_removes_concat(a: Seq<OpView>, b: Seq<OpView>)
    requires
        removes_only_inner_folders(a),
        removes_only_inner_folders(b),
    ensures
        removes_only_inner_folders(a + b),
{
    assert forall|i: int|
        0 <= i < (a + b).len() && (#[trigger] (a + b)[i]).0 == PackageOpKind::RemoveIfExists implies is_inner_folder(
        (a + b)[i].2,
        "res"@,
    ) || is_inner_folder((a + b)[i].2, "libs"@) by {
        if i < a.len() {
            assert((a + b)[i] == a[i]);
        } else {
            assert((a + b)[i] == b[i - a.len()]);
        }
    }
}

proof fn lemma_removes_push(a: Seq<OpView>, x: OpView)
    requires
        removes_only_inner_folders(a),
        x.0 != PackageOpKind::RemoveIfExists,
    ensures
        removes_only_inner_folders(a.push(x)),
{
    assert forall|i: int|
        0 <= i < a.push(x).len() && (#[trigger] a.push(x)[i]).0 == PackageOpKind::RemoveIfExists implies is_inner_folder(
        a.push(x)[i].2,
        "res"@,
    ) || is_inner_folder(a.push(x)[i].2, "libs"@) by {
        assert(i < a.len());
        assert(a.push(x)[i] == a[i]);
    }
}

proof fn lemma_removes_contents(fs: Seq<EntryView>, plugin_root: Seq<char>, binary: Seq<char>, dir: Seq<char>)
    ensures
        removes_only_inner_folders(spec_copy_resources(fs, plugin_root, binary, dir)),
        removes_only_inner_folders(spec_copy_plugin_lib_directories(fs, plugin_root, dir)),
{
    lemma_join_inner(dir, "res"@);
    lemma_join_inner(dir, "libs"@);
    let r = spec_copy_resources(fs, plugin_root, binary, dir);
    assert forall|i: int|
        0 <= i < r.len() && (#[trigger] r[i]).0 == PackageOpKind::RemoveIfExists implies is_inner_folder(
        r[i].2,
        "res"@,
    ) || is_inner_folder(r[i].2, "libs"@) by {
        assert(i == 0);
    }
    let l = spec_copy_plugin_lib_directories(fs, plugin_root, dir);
    assert forall|i: int|
        0 <= i < l.len() && (#[trigger] l[i]).0 == PackageOpKind::RemoveIfExists implies is_inner_folder(
        l[i].2,
        "res"@,
    ) || is_inner_folder(l[i].2, "libs"@) by {
        assert(i == 0);
    }
}

proof fn lemma_removes_merged(
    fs: Seq<EntryView>,
    request: BuildRequest,
    package_dir: Seq<char>,
    bins: Seq<BinaryView>,
    k: nat,
)
    requires
        k <= bins.len(),
    ensures
        removes_only_inner_folders(merged_ops_upto(fs, request, package_dir, bins, k)),
    decreases k,
{
    if k == 0 {
        assert(removes_only_inner_folders(Seq::<OpView>::empty()));
    } else {
        lemma_removes_merged(fs, request, package_dir, bins, (k - 1) as nat);
        let b = bins[k - 1];
        lemma_removes_contents(fs, request.plugin_root@, b.2, package_dir);
        let res = spec_copy_resources(fs, request.plugin_root@, b.2, package_dir);
        let libs = spec_copy_plugin_lib_directories(fs, request.plugin_root@, package_dir);
        lemma_removes_concat(res, libs);
        let copy = (
            PackageOpKind::CopyFile,
            b.2,
            path_join(
                package_dir,
                spec_package_binary_name(request.package_name@, b.0, b.1, binary_suffix(b.2)),
            ),
        );
        lemma_removes_push(res + libs, copy);
        assert(merged_binary_ops(fs, request, package_dir, b) == (res + libs).push(copy));
        lemma_removes_concat(
            merged_ops_upto(fs, request, package_dir, bins, (k - 1) as nat),
            merged_binary_ops(fs, request, package_dir, b),
        );
    }
}

proof fn lemma_removes_per_version(
    fs: Seq<EntryView>,
    request: BuildRequest,
    bins: Seq<BinaryView>,
    output_root: Seq<char>,
    k: nat,
)
    requires
        !request.clean_output,
        k <= bins.len(),
    ensures
        removes_only_inner_folders(per_version_upto(fs, request, bins, output_root, k).0),
    decreases k,
{
    if k == 0 {
        assert(removes_only_inner_folders(Seq::<OpView>::empty()));
    } else {
        lemma_removes_per_version(fs, request, bins, output_root, (k - 1) as nat);
        let b = bins[k - 1];
        let package_dir = path_join(
            output_root,
            spec_package_folder_name(request.package_name@, b.0, b.1),
        );
        let create = seq![on(PackageOpKind::CreateDirAll, package_dir)];
        assert(removes_only_inner_folders(create));
        lemma_removes_contents(fs, request.plugin_root@, b.2, package_dir);
        let res = spec_copy_resources(fs, request.plugin_root@, b.2, package_dir);
        let libs = spec_copy_plugin_lib_directories(fs, request.plugin_root@, package_dir);
        lemma_removes_concat(create, res);
        lemma_removes_concat(create + res, libs);
        let ops = create + res + libs;
        assert(Seq::<OpView>::empty() + create =~= create);
        match spec_packaged_binary_name(b.2) {
            Err(_) => {},
            Ok(name) => {
                let copy = (PackageOpKind::CopyFile, b.2, path_join(package_dir, name));
                lemma_removes_push(ops, copy);
                match spec_zip_archive_path(package_dir) {
                    Ok(z) => {
                        lemma_removes_push(ops.push(copy), (PackageOpKind::Zip, package_dir, z));
                    },
                    Err(_) => {},
                }
            },
        }
        let prev = per_version_upto(fs, request, bins, output_root, (k - 1) as nat);
        if prev.1 is Ok {
            lemma_removes_concat(prev.0, per_version_one(fs, request, b, output_root).0);
        }
    }
}

/// Packaging removes a package folder, or the output folder, only when
/// cleaning is asked for: without cleaning, the only folders a plan removes
/// are a package's `res` and `libs` folders, which it refills; with
/// cleaning, the plan starts by removing the output folder, and each
/// package starts by removing its own folder.
pub proof fn law_packaging_removes_folders_only_when_cleaning(
    fs: Seq<EntryView>,
    request: BuildRequest,
    bins: Seq<BinaryView>,
    output_root: Seq<char>,
    b: BinaryView,
)
    ensures
        !request.clean_output ==> removes_only_inner_folders(
            spec_package_outputs(fs, request, bins).0,
        ),
        request.clean_output && spec_require_dir(fs, request.plugin_root@) is Ok ==> spec_package_outputs(
            fs,
            request,
            bins,
        ).0[0] == on(
            PackageOpKind::RemoveIfExists,
            match ov(request.output_dir) {
                Some(o) => o,
                None => path_join(request.plugin_root@, "dist"@),
            },
        ),
        request.clean_output ==> per_version_one(fs, request, b, output_root).0[0] == on(
            PackageOpKind::RemoveIfExists,
            path_join(output_root, spec_package_folder_name(request.package_name@, b.0, b.1)),
        ),
        request.clean_output ==> spec_create_merged_package(fs, request, bins, output_root).0[0] == on(
            PackageOpKind::RemoveIfExists,
            path_join(output_root, request.package_name@),
        ),
{
    if !request.clean_output && spec_require_dir(fs, request.plugin_root@) is Ok {
        let output_root = match ov(request.output_dir) {
            Some(o) => o,
            None => path_join(request.plugin_root@, "dist"@),
        };
        let head = Seq::<OpView>::empty() + seq![on(PackageOpKind::CreateDirAll, output_root)];
        assert(removes_only_inner_folders(head));
        let merged = spec_create_merged_package(fs, request, bins, output_root);
        let package_dir = path_join(output_root, request.package_name@);
        lemma_removes_merged(fs, request, package_dir, bins, bins.len());
        let mhead = Seq::<OpView>::empty() + seq![on(PackageOpKind::CreateDirAll, package_dir)];
        assert(removes_only_inner_folders(mhead));
        let mops = mhead + merged_ops_upto(fs, request, package_dir, bins, bins.len());
        lemma_removes_concat(mhead, merged_ops_upto(fs, request, package_dir, bins, bins.len()));
        if request.zip_enabled {
            if let Ok(z) = spec_zip_archive_path(package_dir) {
                lemma_removes_push(mops, (PackageOpKind::Zip, package_dir, z));
            }
        }
        assert(removes_only_inner_folders(merged.0));
        assert(removes_only_inner_folders(Seq::<OpView>::empty()));
        lemma_removes_per_version(fs, request, bins, output_root, bins.len());
        lemma_removes_concat(head, merged.0);
        lemma_removes_concat(head + merged.0, spec_create_per_version_packages(fs, request, bins, output_root).0);
        lemma_removes_concat(head, Seq::<OpView>::empty());
        lemma_removes_concat(head + Seq::<OpView>::empty(), spec_create_per_version_packages(fs, request, bins, output_root).0);
        lemma_removes_concat(head + merged.0, Seq::<OpView>::empty());
        lemma_removes_concat(head + Seq::<OpView>::empty(), Seq::<OpView>::empty());
    }
}

} // verus!
