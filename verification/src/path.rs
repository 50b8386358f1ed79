//! Where the parent struct's source file lies: the path written as
//! `krate::module::Parent@struct` becomes a file under `krate/src`, next to
//! the directory the macro runs in.
//!
//! The file system is asked twice along the way (does the crate directory
//! exist next to the working directory; does `src/lib.rs` exist). The
//! caller asks it: the functions here say which paths to ask about and what
//! follows from each answer.
use vstd::prelude::*;
use crate::text::{
    chars_of, copy_range, lemma_rfind_from_found, opt_int, push_all, push_str, rfind, rfind_exec,
    same_chars, split, split_exec, split_once, split_once_exec, string_of, views,
};

verus! {

/// The `::`-separated segments of the path.
pub open spec fn path_segments(attr: Seq<char>) -> Seq<Seq<char>> {
    split(attr, "::"@)
}

/// A path whose first segment is `crate` names a module of the crate itself.
pub open spec fn is_crate_local(attr: Seq<char>) -> bool {
    path_segments(attr)[0] == "crate"@
}

/// The index of the last path separator of a directory: the last `\` if
/// there is one, else the last `/`.
pub open spec fn last_separator(dir: Seq<char>) -> Option<int> {
    match rfind(dir, "\\"@) {
        Some(i) => Some(i),
        None => rfind(dir, "/"@),
    }
}

/// The directory above `dir`, with a `/` after it.
pub open spec fn parent_dir(dir: Seq<char>) -> Seq<char> {
    dir.subrange(0, last_separator(dir).unwrap()) + "/"@
}

/// The directory whose existence decides where a foreign crate is looked
/// for; none for a path inside the crate itself.
pub open spec fn crate_dir_probe_of(attr: Seq<char>, cwd: Seq<char>) -> Option<Seq<char>> {
    if is_crate_local(attr) {
        None
    } else {
        Some(parent_dir(cwd) + path_segments(attr)[0])
    }
}

/// The directory that holds the foreign crate: the one above `cwd` when
/// the crate was found there, else the one above that.
pub open spec fn crate_base(cwd: Seq<char>, crate_dir_found: bool) -> Seq<char> {
    if crate_dir_found {
        parent_dir(cwd)
    } else {
        parent_dir(cwd.subrange(0, last_separator(cwd).unwrap()))
    }
}

/// The root directory of the crate that the path names.
pub open spec fn crate_root(attr: Seq<char>, cwd: Seq<char>, crate_dir_found: bool) -> Seq<char> {
    if is_crate_local(attr) {
        cwd
    } else {
        crate_base(cwd, crate_dir_found) + path_segments(attr)[0]
    }
}

pub open spec fn src_dir(attr: Seq<char>, cwd: Seq<char>, crate_dir_found: bool) -> Seq<char> {
    crate_root(attr, cwd, crate_dir_found) + "/src"@
}

/// The crate's root module candidate whose existence decides between
/// `lib.rs` and `main.rs`; asked only for a path of two segments.
pub open spec fn lib_rs_probe_of(attr: Seq<char>, cwd: Seq<char>, crate_dir_found: bool) -> Option<
    Seq<char>,
> {
    if path_segments(attr).len() == 2 {
        Some(src_dir(attr, cwd, crate_dir_found) + "/"@ + "/lib.rs"@)
    } else {
        None
    }
}

/// Each part with a `/` before it.
pub open spec fn dir_path(parts: Seq<Seq<char>>) -> Seq<char>
    decreases parts.len(),
{
    if parts.len() == 0 {
        seq![]
    } else {
        dir_path(parts.drop_last()) + "/"@ + parts.last()
    }
}

/// The source file of the module that the path names.
pub open spec fn module_file(
    attr: Seq<char>,
    cwd: Seq<char>,
    crate_dir_found: bool,
    lib_found: bool,
) -> Seq<char> {
    let sd = src_dir(attr, cwd, crate_dir_found);
    let sg = path_segments(attr);
    if sg.len() == 2 {
        if lib_found {
            sd + "/"@ + "/lib.rs"@
        } else {
            sd + "/"@ + "/main.rs"@
        }
    } else if sg.len() > 2 {
        sd + dir_path(sg.subrange(1, sg.len() - 1)) + ".rs"@
    } else {
        sd
    }
}

/// The last segment of the path, `Item<mark>kind`; empty for a path of one
/// segment.
pub open spec fn module_item(attr: Seq<char>) -> Seq<char> {
    if path_segments(attr).len() >= 2 {
        path_segments(attr).last()
    } else {
        seq![]
    }
}

/// The directories involved have the separators that the resolution cuts at.
pub open spec fn dirs_ok(attr: Seq<char>, cwd: Seq<char>, crate_dir_found: bool) -> bool {
    !is_crate_local(attr) ==> {
        &&& last_separator(cwd) is Some
        &&& (crate_dir_found || last_separator(
            cwd.subrange(0, last_separator(cwd).unwrap()),
        ) is Some)
    }
}

/// The path resolves: its directories have their separators and its last
/// segment holds `mark`.
pub open spec fn path_ready(attr: Seq<char>, cwd: Seq<char>, crate_dir_found: bool, mark: Seq<
    char,
>) -> bool {
    &&& dirs_ok(attr, cwd, crate_dir_found)
    &&& split_once(module_item(attr), mark) is Some
}

/// The resolved path: the module's file, then the item name and the item
/// kind, the parts of the last segment before and after `mark`.
pub open spec fn resolved_path(
    attr: Seq<char>,
    cwd: Seq<char>,
    crate_dir_found: bool,
    lib_found: bool,
    mark: Seq<char>,
) -> (Seq<char>, Seq<char>, Seq<char>) {
    let (name, kind) = split_once(module_item(attr), mark).unwrap();
    (module_file(attr, cwd, crate_dir_found, lib_found), name, kind)
}

/// The index of the last separator of `dir`.
fn last_separator_exec(dir: &[char]) -> (r: Option<usize>)
    ensures
        opt_int(r) == last_separator(dir@),
        r matches Some(i) ==> i < dir@.len(),
{
    let back = chars_of("\\");
    let slash = chars_of("/");
    proof {
        reveal_strlit("\\");
        reveal_strlit("/");
        lemma_rfind_from_found(dir@, back@, dir@.len() - back@.len());
        lemma_rfind_from_found(dir@, slash@, dir@.len() - slash@.len());
    }
    match rfind_exec(dir, back.as_slice()) {
        Some(i) => Some(i),
        None => rfind_exec(dir, slash.as_slice()),
    }
}

/// `dir` up to its last separator, with a `/` after it.
fn parent_dir_exec(dir: &[char]) -> (r: Vec<char>)
    requires
        last_separator(dir@) is Some,
    ensures
        r@ == parent_dir(dir@),
{
    let i = last_separator_exec(dir).unwrap();
    let mut r = copy_range(dir, 0, i);
    push_str(&mut r, "/");
    r
}

/// Whether the first segment of the path is `crate`.
fn is_crate_local_exec(attr: &[char]) -> (r: bool)
    ensures
        r == is_crate_local(attr@),
{
    let segs = segments_exec(attr);
    let krate = chars_of("crate");
    same_chars(segs[0].as_slice(), krate.as_slice())
}

fn src_dir_exec(attr: &[char], cwd: &[char], segs: &Vec<Vec<char>>, crate_dir_found: bool) -> (r:
    Vec<char>)
    requires
        views(segs@) == path_segments(attr@),
        dirs_ok(attr@, cwd@, crate_dir_found),
    ensures
        r@ == src_dir(attr@, cwd@, crate_dir_found),
{
    let mut root: Vec<char>;
    if is_crate_local_exec(attr) {
        root = copy_range(cwd, 0, cwd.len());
        assert(root@ =~= cwd@);
    } else {
        if crate_dir_found {
            root = parent_dir_exec(cwd);
        } else {
            let i = last_separator_exec(cwd).unwrap();
            let up = copy_range(cwd, 0, i);
            root = parent_dir_exec(up.as_slice());
        }
        assert(root@ == crate_base(cwd@, crate_dir_found));
        proof {
            reveal_strlit("::");
            crate::text::lemma_split_from_nonempty(attr@, "::"@, 0);
        }
        push_all(&mut root, segs[0].as_slice());
    }
    push_str(&mut root, "/src");
    root
}

fn segments_exec(attr: &[char]) -> (r: Vec<Vec<char>>)
    ensures
        views(r@) == path_segments(attr@),
        r@.len() >= 1,
{
    let sep = chars_of("::");
    proof {
        reveal_strlit("::");
        crate::text::lemma_split_from_nonempty(attr@, "::"@, 0);
    }
    split_exec(attr, sep.as_slice())
}

/// Whether the directories involved have the separators that the
/// resolution cuts at.
pub fn dirs_ready(extends_attr: &str, cwd: &str, crate_dir_found: bool) -> (r: bool)
    ensures
        r == dirs_ok(extends_attr@, cwd@, crate_dir_found),
{
    let a = chars_of(extends_attr);
    let c = chars_of(cwd);
    if is_crate_local_exec(a.as_slice()) {
        return true;
    }
    match last_separator_exec(c.as_slice()) {
        None => false,
        Some(i) => {
            if crate_dir_found {
                return true;
            }
            let up = copy_range(c.as_slice(), 0, i);
            last_separator_exec(up.as_slice()).is_some()
        },
    }
}

/// Whether the path resolves with the item and kind separated by `mark`.
pub fn path_ready_exec(extends_attr: &str, cwd: &str, crate_dir_found: bool, mark: &str) -> (r:
    bool)
    ensures
        r == path_ready(extends_attr@, cwd@, crate_dir_found, mark@),
{
    if !dirs_ready(extends_attr, cwd, crate_dir_found) {
        return false;
    }
    let a = chars_of(extends_attr);
    let m = chars_of(mark);
    let segs = segments_exec(a.as_slice());
    let item = if segs.len() >= 2 {
        copy_range(segs[segs.len() - 1].as_slice(), 0, segs[segs.len() - 1].len())
    } else {
        Vec::new()
    };
    assert(item@ =~= module_item(a@));
    split_once_exec(item.as_slice(), m.as_slice()).is_some()
}

/// The directory to look for next to the working directory `cwd` when the
/// path names a foreign crate: the crate's name in the directory above
/// `cwd`. `None` for a path whose first segment is `crate`.
pub fn crate_dir_probe(extends_attr: &str, cwd: &str) -> (r: Option<String>)
    requires
        !is_crate_local(extends_attr@) ==> last_separator(cwd@) is Some,
    ensures
        match r {
            Some(p) => crate_dir_probe_of(extends_attr@, cwd@) == Some(p@),
            None => crate_dir_probe_of(extends_attr@, cwd@) is None,
        },
{
    let a = chars_of(extends_attr);
    let c = chars_of(cwd);
    if is_crate_local_exec(a.as_slice()) {
        return None;
    }
    let segs = segments_exec(a.as_slice());
    let mut d = parent_dir_exec(c.as_slice());
    push_all(&mut d, segs[0].as_slice());
    Some(string_of(d.as_slice()))
}

/// The `lib.rs` whose existence decides the root module of the crate, for a
/// path of two segments; `None` otherwise.
pub fn lib_rs_probe(extends_attr: &str, cwd: &str, crate_dir_found: bool) -> (r: Option<String>)
    requires
        dirs_ok(extends_attr@, cwd@, crate_dir_found),
    ensures
        match r {
            Some(p) => lib_rs_probe_of(extends_attr@, cwd@, crate_dir_found) == Some(p@),
            None => lib_rs_probe_of(extends_attr@, cwd@, crate_dir_found) is None,
        },
{
    let a = chars_of(extends_attr);
    let c = chars_of(cwd);
    let segs = segments_exec(a.as_slice());
    if segs.len() != 2 {
        return None;
    }
    let mut d = src_dir_exec(a.as_slice(), c.as_slice(), &segs, crate_dir_found);
    let slash = chars_of("/");
    let lib = chars_of("/lib.rs");
    push_all(&mut d, slash.as_slice());
    push_all(&mut d, lib.as_slice());
    Some(string_of(d.as_slice()))
}

fn resolve_exec(attr: &[char], cwd: &[char], crate_dir_found: bool, lib_found: bool, mark: &[char]) -> (r: (
    String,
    String,
    String,
))
    requires
        path_ready(attr@, cwd@, crate_dir_found, mark@),
    ensures
        (r.0@, r.1@, r.2@) == resolved_path(attr@, cwd@, crate_dir_found, lib_found, mark@),
{
    let segs = segments_exec(attr);
    let ghost sg = views(segs@);
    let mut file = src_dir_exec(attr, cwd, &segs, crate_dir_found);
    let ghost sd = file@;
    let n = segs.len();
    if n == 2 {
        let slash = chars_of("/");
        push_all(&mut file, slash.as_slice());
        let leaf = if lib_found {
            chars_of("/lib.rs")
        } else {
            chars_of("/main.rs")
        };
        push_all(&mut file, leaf.as_slice());
    } else if n > 2 {
        let slash = chars_of("/");
        let mut k: usize = 1;
        while k < n - 1
            invariant
                n == segs@.len(),
                n > 2,
                1 <= k <= n - 1,
                sg == views(segs@),
                slash@ == "/"@,
                file@ == sd + dir_path(sg.subrange(1, k as int)),
            decreases n - k,
        {
            push_all(&mut file, slash.as_slice());
            push_all(&mut file, segs[k].as_slice());
            assert(sg.subrange(1, k + 1).drop_last() =~= sg.subrange(1, k as int));
            k += 1;
        }
        let ext = chars_of(".rs");
        push_all(&mut file, ext.as_slice());
    }
    assert(file@ == module_file(attr@, cwd@, crate_dir_found, lib_found));
    let item = if n >= 2 {
        copy_range(segs[n - 1].as_slice(), 0, segs[n - 1].len())
    } else {
        Vec::new()
    };
    assert(item@ =~= module_item(attr@));
    let (name, kind) = split_once_exec(item.as_slice(), mark).unwrap();
    (string_of(file.as_slice()), string_of(name.as_slice()), string_of(kind.as_slice()))
}

/// Resolves `krate::module::Item@kind` against the working directory `cwd`
/// and the two answers of the file system (`crate_dir_found` for the
/// directory of `crate_dir_probe`, `lib_found` for the file of
/// `lib_rs_probe`): the source file of the module, the item's name and its
/// kind.
pub fn path_split(extends_attr: &str, cwd: &str, crate_dir_found: bool, lib_found: bool) -> (r: (
    String,
    String,
    String,
))
    requires
        path_ready(extends_attr@, cwd@, crate_dir_found, "@"@),
    ensures
        (r.0@, r.1@, r.2@) == resolved_path(
            extends_attr@,
            cwd@,
            crate_dir_found,
            lib_found,
            "@"@,
        ),
{
    let a = chars_of(extends_attr);
    let c = chars_of(cwd);
    let m = chars_of("@");
    resolve_exec(a.as_slice(), c.as_slice(), crate_dir_found, lib_found, m.as_slice())
}

/// Resolves `krate::module::Item*kind` against the manifest directory
/// `manifest_dir`, the crate being looked for next to it, and the answer of
/// the file system for the file of `lib_rs_probe`: the source file of the
/// module, the item's name and its kind.
pub fn split_mod_path(extends: &str, manifest_dir: &str, lib_found: bool) -> (r: (
    String,
    String,
    String,
))
    requires
        path_ready(extends@, manifest_dir@, true, "*"@),
    ensures
        (r.0@, r.1@, r.2@) == resolved_path(extends@, manifest_dir@, true, lib_found, "*"@),
{
    let a = chars_of(extends);
    let c = chars_of(manifest_dir);
    let m = chars_of("*");
    resolve_exec(a.as_slice(), c.as_slice(), true, lib_found, m.as_slice())
}

} // verus!
