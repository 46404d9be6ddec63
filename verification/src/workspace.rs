//! Monorepo root location and workspace enumeration: walking ancestors for
//! the nearest directory that declares workspace membership patterns, then
//! walking the tree below it — bounded in depth, pruned of hidden and
//! dependency-cache directories — for the declared member packages.

use vstd::prelude::*;

use crate::detect::{ancestor, git_marker_name, level_has_git};
use crate::globs::{glob_set_matches, globs_compile_ok, Matcher};
use crate::manifest::{
    package_json_of, parse_package_json, parse_pnpm_workspace_yaml, pnpm_workspace_of,
};
use crate::snapshot::{
    clone_path, dir_exists, file_content, has_dir, has_file, lookup_file, path_push, str_views,
    FsSnapshot,
};
use crate::strutil::{
    lemma_lex_lt_connected, lemma_lex_lt_irreflexive, lemma_lex_lt_transitive, lex_lt, str_eq,
    str_lt,
};

verus! {

/// Information about the discovered monorepo root.
#[derive(Debug)]
pub struct MonorepoRoot {
    /// The path of the root directory, relative to the snapshot base.
    pub path: Vec<String>,
    /// The list of workspace package globs it declares.
    pub globs: Vec<String>,
}

/// A structural failure of resolution; per-candidate faults during
/// enumeration are absorbed, these are not.
#[derive(Debug, Clone, Copy, PartialEq, Eq, Structural)]
pub enum ResolveError {
    /// A dedicated workspace-list file exists but does not parse. It claims
    /// authority, so this is surfaced rather than skipped.
    ConfigParse,
    /// A declared glob pattern does not compile.
    GlobCompile,
}

pub open spec fn workspace_yaml_name() -> Seq<char> {
    "pnpm-workspace.yaml"@
}

pub open spec fn package_json_name() -> Seq<char> {
    "package.json"@
}

/// The dedicated workspace-list file name.
pub fn workspace_yaml_file() -> (r: &'static str)
    ensures
        r@ == workspace_yaml_name(),
{
    "pnpm-workspace.yaml"
}

/// The package manifest file name.
pub fn package_json_file() -> (r: &'static str)
    ensures
        r@ == package_json_name(),
{
    "package.json"
}

/// The globs a manifest at `p` declares, when a parseable manifest there
/// declares a workspaces field.
pub open spec fn manifest_root_globs(s: FsSnapshot, p: Seq<Seq<char>>) -> Option<Seq<Seq<char>>> {
    match file_content(s, p.push(package_json_name())) {
        None => None,
        Some(text) => match package_json_of(text) {
            None => None,
            Some(pj) => match pj.1 {
                Some(ws) => Some(ws.1),
                None => None,
            },
        },
    }
}

/// What the root search decides at directory `p` of snapshot `s`: the
/// nearest enclosing root with its glob list, absence (a valid outcome), or
/// a hard parse error of an authoritative workspace-list file. The dedicated
/// file short-circuits the manifest check at its level; a manifest without a
/// workspaces field does not make a root; the walk stops at a
/// version-control boundary.
pub open spec fn locate_spec(s: FsSnapshot, p: Seq<Seq<char>>) -> Result<
    Option<(Seq<Seq<char>>, Seq<Seq<char>>)>,
    (),
>
    decreases p.len(),
{
    if has_file(s, p.push(workspace_yaml_name())) {
        match pnpm_workspace_of(file_content(s, p.push(workspace_yaml_name())).unwrap()) {
            Some(globs) => Ok(Some((p, globs))),
            None => Err(()),
        }
    } else if manifest_root_globs(s, p) is Some {
        Ok(Some((p, manifest_root_globs(s, p).unwrap())))
    } else if has_dir(s, p.push(git_marker_name())) {
        Ok(None)
    } else if p.len() == 0 {
        Ok(None)
    } else {
        locate_spec(s, p.drop_last())
    }
}

/// Find the monorepo root by searching upward from `start`: the nearest
/// directory with a parseable dedicated workspace-list file or a manifest
/// declaring workspaces. Absence is not an error; a malformed dedicated
/// file is.
pub fn find_monorepo_root(snap: &FsSnapshot, start: &Vec<String>) -> (r: Result<
    Option<MonorepoRoot>,
    ResolveError,
>)
    ensures
        match r {
            Ok(Some(root)) => locate_spec(*snap, str_views(*start)) == Ok::<
                Option<(Seq<Seq<char>>, Seq<Seq<char>>)>,
                (),
            >(Some((str_views(root.path), str_views(root.globs)))),
            Ok(None) => locate_spec(*snap, str_views(*start)) == Ok::<
                Option<(Seq<Seq<char>>, Seq<Seq<char>>)>,
                (),
            >(None),
            Err(e) => locate_spec(*snap, str_views(*start)) is Err && e
                == ResolveError::ConfigParse,
        },
{
    let mut cur = clone_path(start);
    loop
        invariant
            locate_spec(*snap, str_views(*start)) == locate_spec(*snap, str_views(cur)),
        decreases cur.len(),
    {
        let yaml_path = path_push(&cur, workspace_yaml_file());
        match lookup_file(snap, &yaml_path) {
            Some(text) => {
                match parse_pnpm_workspace_yaml(text.as_str()) {
                    Some(y) => {
                        return Ok(Some(MonorepoRoot { path: cur, globs: y.packages }));
                    },
                    None => {
                        return Err(ResolveError::ConfigParse);
                    },
                }
            },
            None => {},
        }
        let pj_path = path_push(&cur, package_json_file());
        match lookup_file(snap, &pj_path) {
            Some(text) => {
                match parse_package_json(text.as_str()) {
                    Some(pj) => {
                        match pj.workspaces {
                            Some(ws) => {
                                return Ok(Some(MonorepoRoot { path: cur, globs: ws.globs() }));
                            },
                            None => {},
                        }
                    },
                    None => {},
                }
            },
            None => {},
        }
        let git_path = path_push(&cur, crate::detect::git_marker_dir());
        if dir_exists(snap, &git_path) {
            return Ok(None);
        }
        if cur.len() == 0 {
            return Ok(None);
        }
        let ghost before = str_views(cur);
        let _ = cur.pop();
        proof {
            assert(str_views(cur) =~= before.drop_last());
        }
    }
}

pub open spec fn cache_dir_name() -> Seq<char> {
    "node_modules"@
}

/// Whether a directory name is pruned from traversal: a hidden name (leading
/// dot) or the dependency-cache directory name. A pruned directory's subtree
/// is never visited.
pub open spec fn pruned_name(n: Seq<char>) -> bool {
    (n.len() > 0 && n[0] == '.') || n == cache_dir_name()
}

/// Whether this name is pruned from traversal.
pub fn is_pruned_name(seg: &str) -> (r: bool)
    ensures
        r == pruned_name(seg@),
{
    if seg.unicode_len() > 0 {
        if seg.get_char(0) == '.' {
            return true;
        }
    }
    str_eq(seg, "node_modules")
}

/// The fixed bound on how many levels below the root the walk descends.
pub open spec fn max_walk_depth() -> int {
    4
}

/// The walk's depth bound, as an executable value.
pub fn walk_depth_limit() -> (r: usize)
    ensures
        r == max_walk_depth(),
{
    4
}

/// The string a relative segment list is matched against: the segments
/// joined with a slash.
pub open spec fn joined(rel: Seq<Seq<char>>) -> Seq<char>
    decreases rel.len(),
{
    if rel.len() == 0 {
        Seq::empty()
    } else if rel.len() == 1 {
        rel[0]
    } else {
        joined(rel.drop_last()) + "/"@ + rel.last()
    }
}

/// Join the segments of `d` from position `from` on with slashes.
fn join_from(d: &Vec<String>, from: usize) -> (r: String)
    requires
        from <= d@.len(),
    ensures
        r@ == joined(str_views(*d).skip(from as int)),
{
    let mut out = String::new();
    let mut i: usize = from;
    proof {
        assert(str_views(*d).skip(from as int).take(0) =~= Seq::<Seq<char>>::empty());
    }
    while i < d.len()
        invariant
            from <= i <= d@.len(),
            out@ == joined(str_views(*d).skip(from as int).take(i - from)),
        decreases d@.len() - i,
    {
        if i > from {
            out.append("/");
        }
        out.append(d[i].as_str());
        proof {
            let rel = str_views(*d).skip(from as int);
            assert(rel.take(i + 1 - from).drop_last() =~= rel.take(i - from));
            assert(rel.take(i + 1 - from).last() == str_views(*d)[i as int]);
        }
        i += 1;
    }
    proof {
        let rel = str_views(*d).skip(from as int);
        assert(rel.take(rel.len() as int) =~= rel);
    }
    out
}

/// Whether `a` names an ancestor-or-self of `b`.
pub open spec fn is_prefix_of(a: Seq<Seq<char>>, b: Seq<Seq<char>>) -> bool {
    a.len() <= b.len() && b.take(a.len() as int) == a
}

/// Whether path `a` is a prefix of path `b`.
fn path_is_prefix(a: &Vec<String>, b: &Vec<String>) -> (r: bool)
    ensures
        r == is_prefix_of(str_views(*a), str_views(*b)),
{
    if a.len() > b.len() {
        return false;
    }
    let mut i: usize = 0;
    while i < a.len()
        invariant
            0 <= i <= a@.len(),
            a@.len() <= b@.len(),
            forall|j: int| 0 <= j < i ==> a@[j]@ == b@[j]@,
        decreases a@.len() - i,
    {
        if !(a[i] == b[i]) {
            proof {
                assert(str_views(*b).take(a@.len() as int)[i as int] != str_views(*a)[i as int]);
            }
            return false;
        }
        i += 1;
    }
    proof {
        assert(str_views(*b).take(a@.len() as int) =~= str_views(*a));
    }
    true
}

/// Strictly ascending lexicographic order, hence uniqueness, of a name list.
pub open spec fn sorted_unique(s: Seq<Seq<char>>) -> bool {
    forall|i: int, j: int| 0 <= i < j < s.len() ==> lex_lt(s[i], s[j])
}

/// The set of names a list holds.
pub open spec fn name_set(s: Seq<Seq<char>>) -> Set<Seq<char>> {
    Set::new(|n: Seq<char>| s.contains(n))
}

/// A sorted, duplicate-free list is determined by the set of its names: the
/// engine's output order is canonical.
pub proof fn lemma_sorted_unique_canonical(a: Seq<Seq<char>>, b: Seq<Seq<char>>)
    requires
        sorted_unique(a),
        sorted_unique(b),
        name_set(a) == name_set(b),
    ensures
        a == b,
    decreases a.len(),
{
    if a.len() == 0 {
        if b.len() > 0 {
            assert(name_set(b).contains(b[0]));
            assert(name_set(a).contains(b[0]));
        }
        assert(a =~= b);
    } else if b.len() == 0 {
        assert(name_set(a).contains(a[0]));
        assert(name_set(b).contains(a[0]));
    } else {
        assert(name_set(a).contains(a[0]));
        assert(name_set(b).contains(a[0]));
        let j = choose|j: int| 0 <= j < b.len() && b[j] == a[0];
        if j > 0 {
            assert(name_set(b).contains(b[0]));
            assert(name_set(a).contains(b[0]));
            let k = choose|k: int| 0 <= k < a.len() && a[k] == b[0];
            if k == 0 {
                lemma_lex_lt_irreflexive(b[0]);
            } else {
                lemma_lex_lt_transitive(a[0], a[k], b[j]);
                lemma_lex_lt_irreflexive(a[0]);
            }
        }
        assert(a[0] == b[0]);
        assert(name_set(a.skip(1)) == name_set(b.skip(1))) by {
            lemma_head_not_in_tail(a);
            lemma_head_not_in_tail(b);
            assert forall|n: Seq<char>| name_set(a.skip(1)).contains(n) == name_set(
                b.skip(1),
            ).contains(n) by {
                lemma_tail_membership(a, n);
                lemma_tail_membership(b, n);
                assert(name_set(a).contains(n) == name_set(b).contains(n));
                assert(name_set(a).contains(n) == a.contains(n));
                assert(name_set(b).contains(n) == b.contains(n));
                assert(name_set(a.skip(1)).contains(n) == a.skip(1).contains(n));
                assert(name_set(b.skip(1)).contains(n) == b.skip(1).contains(n));
            }
            assert(name_set(a.skip(1)) =~= name_set(b.skip(1)));
        }
        lemma_sorted_unique_canonical(a.skip(1), b.skip(1));
        assert(a =~= b) by {
            assert forall|i: int| 0 <= i < a.len() implies a[i] == b[i] by {
                if i > 0 {
                    assert(a[i] == a.skip(1)[i - 1]);
                    assert(b[i] == b.skip(1)[i - 1]);
                }
            }
        }
    }
}

/// The head of a strictly sorted list does not recur in its tail.
proof fn lemma_head_not_in_tail(a: Seq<Seq<char>>)
    requires
        sorted_unique(a),
        a.len() > 0,
    ensures
        !a.skip(1).contains(a[0]),
{
    if a.skip(1).contains(a[0]) {
        let i = choose|i: int| 0 <= i < a.skip(1).len() && a.skip(1)[i] == a[0];
        assert(a[i + 1] == a[0]);
        lemma_lex_lt_irreflexive(a[0]);
    }
}

/// Membership in the tail of a strictly sorted list: everything in the list
/// but its head.
proof fn lemma_tail_membership(a: Seq<Seq<char>>, n: Seq<char>)
    requires
        sorted_unique(a),
        a.len() > 0,
    ensures
        a.skip(1).contains(n) == (a.contains(n) && n != a[0]),
{
    lemma_head_not_in_tail(a);
    if a.skip(1).contains(n) {
        let i = choose|i: int| 0 <= i < a.skip(1).len() && a.skip(1)[i] == n;
        assert(a[i + 1] == n);
    }
    if a.contains(n) && n != a[0] {
        let i = choose|i: int| 0 <= i < a.len() && a[i] == n;
        assert(a.skip(1)[i - 1] == n);
    }
}

/// Insert a name into a sorted, duplicate-free list, keeping it so; a name
/// already present is not inserted again.
fn insert_sorted_unique(names: &mut Vec<String>, name: String)
    requires
        sorted_unique(str_views(*old(names))),
    ensures
        sorted_unique(str_views(*final(names))),
        name_set(str_views(*final(names))) == name_set(str_views(*old(names))).insert(name@),
{
    let mut i: usize = 0;
    while i < names.len() && str_lt(names[i].as_str(), name.as_str())
        invariant
            0 <= i <= names@.len(),
            sorted_unique(str_views(*names)),
            *names == *old(names),
            forall|j: int| 0 <= j < i ==> lex_lt(str_views(*names)[j], name@),
        decreases names@.len() - i,
    {
        i += 1;
    }
    if i < names.len() {
        if str_eq(names[i].as_str(), name.as_str()) {
            proof {
                assert(str_views(*names).contains(name@)) by {
                    assert(str_views(*names)[i as int] == name@);
                }
                assert(name_set(str_views(*names)) =~= name_set(str_views(*names)).insert(name@));
            }
            return ;
        }
    }
    let ghost olds = str_views(*names);
    proof {
        if i < olds.len() {
            lemma_lex_lt_connected(name@, olds[i as int]);
        }
    }
    names.insert(i, name);
    proof {
        let news = str_views(*names);
        assert(news =~= olds.take(i as int).push(name@) + olds.skip(i as int));
        assert forall|p: int, q: int| 0 <= p < q < news.len() implies lex_lt(news[p], news[q]) by {
            if p < i && q == i {
            } else if p == i && q > i {
                lemma_lex_lt_transitive_chain(olds, name@, i as int, q - 1);
            } else if p < i && q > i {
                lemma_lex_lt_transitive_chain(olds, name@, i as int, q - 1);
            }
        }
        assert(name_set(news) =~= name_set(olds).insert(name@)) by {
            assert forall|n: Seq<char>| news.contains(n) == (olds.contains(n) || n == name@) by {
                if news.contains(n) {
                    let k = choose|k: int| 0 <= k < news.len() && news[k] == n;
                    if k < i {
                        assert(olds[k] == n);
                    } else if k > i {
                        assert(olds[k - 1] == n);
                    }
                }
                if olds.contains(n) {
                    let k = choose|k: int| 0 <= k < olds.len() && olds[k] == n;
                    if k < i {
                        assert(news[k] == n);
                    } else {
                        assert(news[k + 1] == n);
                    }
                }
                if n == name@ {
                    assert(news[i as int] == n);
                }
            }
        }
    }
}

/// In a sorted list where everything before `i` lies below `x` and `x` lies
/// below the element at `i`, `x` lies below everything from `i` on.
proof fn lemma_lex_lt_transitive_chain(s: Seq<Seq<char>>, x: Seq<char>, i: int, q: int)
    requires
        sorted_unique(s),
        0 <= i <= q < s.len(),
        lex_lt(x, s[i]),
    ensures
        lex_lt(x, s[q]),
{
    if i < q {
        lemma_lex_lt_transitive(x, s[i], s[q]);
    }
}

/// A directory the bounded, pruned walk below `rootp` visits and that the
/// glob set matches: a proper descendant within the depth bound, with no
/// hidden or dependency-cache name anywhere on its relative path.
pub open spec fn is_candidate(
    s: FsSnapshot,
    rootp: Seq<Seq<char>>,
    globs: Seq<Seq<char>>,
    d: Seq<Seq<char>>,
) -> bool {
    &&& has_dir(s, d)
    &&& is_prefix_of(rootp, d)
    &&& 1 <= d.len() - rootp.len() <= max_walk_depth()
    &&& (forall|j: int| rootp.len() <= j < d.len() ==> !pruned_name(d[j]))
    &&& glob_set_matches(globs, joined(d.skip(rootp.len() as int)))
}

/// The name a directory contributes: the name field of a parseable manifest
/// directly inside it. Unreadable or unparsable manifests, and manifests
/// without a name, contribute nothing.
pub open spec fn dir_manifest_name(s: FsSnapshot, d: Seq<Seq<char>>) -> Option<Seq<char>> {
    match file_content(s, d.push(package_json_name())) {
        None => None,
        Some(text) => match package_json_of(text) {
            None => None,
            Some(pj) => pj.0,
        },
    }
}

/// All workspace names below `rootp`: names contributed by candidate
/// directories.
pub open spec fn workspace_names(s: FsSnapshot, rootp: Seq<Seq<char>>, globs: Seq<Seq<char>>) -> Set<
    Seq<char>,
> {
    Set::new(
        |n: Seq<char>|
            exists|d: Seq<Seq<char>>|
                is_candidate(s, rootp, globs, d) && dir_manifest_name(s, d) == Some(n),
    )
}

/// The names contributed by the first `i` directory records of the snapshot.
spec fn names_upto(s: FsSnapshot, rootp: Seq<Seq<char>>, globs: Seq<Seq<char>>, i: int) -> Set<
    Seq<char>,
> {
    Set::new(
        |n: Seq<char>|
            exists|j: int|
                0 <= j < i && is_candidate(s, rootp, globs, str_views(s.dirs@[j]))
                    && dir_manifest_name(s, str_views(s.dirs@[j])) == Some(n),
    )
}

/// Once every directory record is seen, the accumulated names are exactly
/// the workspace names: every candidate is some record, and every record
/// that is a candidate contributes through its path alone.
proof fn lemma_names_upto_complete(s: FsSnapshot, rootp: Seq<Seq<char>>, globs: Seq<Seq<char>>)
    ensures
        names_upto(s, rootp, globs, s.dirs@.len() as int) == workspace_names(s, rootp, globs),
{
    let full = names_upto(s, rootp, globs, s.dirs@.len() as int);
    let want = workspace_names(s, rootp, globs);
    assert forall|n: Seq<char>| full.contains(n) == want.contains(n) by {
        if full.contains(n) {
            let j = choose|j: int|
                0 <= j < s.dirs@.len() && is_candidate(s, rootp, globs, str_views(s.dirs@[j]))
                    && dir_manifest_name(s, str_views(s.dirs@[j])) == Some(n);
            assert(is_candidate(s, rootp, globs, str_views(s.dirs@[j])) && dir_manifest_name(
                s,
                str_views(s.dirs@[j]),
            ) == Some(n));
            assert(want.contains(n));
        }
        if want.contains(n) {
            let d = choose|d: Seq<Seq<char>>|
                is_candidate(s, rootp, globs, d) && dir_manifest_name(s, d) == Some(n);
            assert(has_dir(s, d));
            let j = choose|j: int| 0 <= j < s.dirs@.len() && str_views(s.dirs@[j]) == d;
            assert(is_candidate(s, rootp, globs, str_views(s.dirs@[j])) && dir_manifest_name(
                s,
                str_views(s.dirs@[j]),
            ) == Some(n));
            assert(full.contains(n));
        }
    }
    assert(full =~= want);
}

/// Seeing one more record extends the accumulated names by what that record
/// contributes, if anything.
proof fn lemma_names_upto_step(s: FsSnapshot, rootp: Seq<Seq<char>>, globs: Seq<Seq<char>>, i: int)
    requires
        0 <= i < s.dirs@.len(),
    ensures
        names_upto(s, rootp, globs, i + 1) == (if is_candidate(
            s,
            rootp,
            globs,
            str_views(s.dirs@[i]),
        ) && dir_manifest_name(s, str_views(s.dirs@[i])) is Some {
            names_upto(s, rootp, globs, i).insert(
                dir_manifest_name(s, str_views(s.dirs@[i])).unwrap(),
            )
        } else {
            names_upto(s, rootp, globs, i)
        }),
{
    let prev = names_upto(s, rootp, globs, i);
    let next = names_upto(s, rootp, globs, i + 1);
    let dv = str_views(s.dirs@[i]);
    if is_candidate(s, rootp, globs, dv) && dir_manifest_name(s, dv) is Some {
        let n0 = dir_manifest_name(s, dv).unwrap();
        assert forall|n: Seq<char>| next.contains(n) == prev.insert(n0).contains(n) by {
            if next.contains(n) {
                let j = choose|j: int|
                    0 <= j < i + 1 && is_candidate(s, rootp, globs, str_views(s.dirs@[j]))
                        && dir_manifest_name(s, str_views(s.dirs@[j])) == Some(n);
                if j < i {
                    assert(prev.contains(n));
                } else {
                    assert(n == n0);
                }
            }
            if prev.contains(n) {
                let j = choose|j: int|
                    0 <= j < i && is_candidate(s, rootp, globs, str_views(s.dirs@[j]))
                        && dir_manifest_name(s, str_views(s.dirs@[j])) == Some(n);
                assert(next.contains(n));
            }
            if n == n0 {
                assert(is_candidate(s, rootp, globs, str_views(s.dirs@[i]))
                    && dir_manifest_name(s, str_views(s.dirs@[i])) == Some(n));
                assert(next.contains(n));
            }
        }
        assert(next =~= prev.insert(n0));
    } else {
        assert forall|n: Seq<char>| next.contains(n) == prev.contains(n) by {
            if next.contains(n) {
                let j = choose|j: int|
                    0 <= j < i + 1 && is_candidate(s, rootp, globs, str_views(s.dirs@[j]))
                        && dir_manifest_name(s, str_views(s.dirs@[j])) == Some(n);
                assert(0 <= j < i);
                assert(prev.contains(n));
            }
            if prev.contains(n) {
                let j = choose|j: int|
                    0 <= j < i && is_candidate(s, rootp, globs, str_views(s.dirs@[j]))
                        && dir_manifest_name(s, str_views(s.dirs@[j])) == Some(n);
                assert(next.contains(n));
            }
        }
        assert(next =~= prev);
    }
}

/// Whether any segment of `d` from position `from` on is pruned.
fn has_pruned_segment(d: &Vec<String>, from: usize) -> (r: bool)
    requires
        from <= d@.len(),
    ensures
        r == exists|j: int| from <= j < d@.len() && pruned_name(str_views(*d)[j]),
{
    let mut j: usize = from;
    while j < d.len()
        invariant
            from <= j <= d@.len(),
            forall|k: int| from <= k < j ==> !pruned_name(str_views(*d)[k]),
        decreases d@.len() - j,
    {
        if is_pruned_name(d[j].as_str()) {
            proof {
                assert(pruned_name(str_views(*d)[j as int]));
            }
            return true;
        }
        j += 1;
    }
    false
}

/// Enumerate the workspace package names below a resolved root: compile its
/// globs, walk the snapshot's directories within the depth bound, skipping
/// any directory with a hidden or dependency-cache name on its relative
/// path, and collect the manifest names of matching directories. The result
/// is deduplicated and sorted ascending; per-candidate manifest faults are
/// absorbed. The exact result set is `workspace_names`; a glob list that
/// does not compile is the one failure.
pub fn enumerate_workspaces(snap: &FsSnapshot, root: &MonorepoRoot) -> (r: Result<
    Vec<String>,
    ResolveError,
>)
    ensures
        match r {
            Ok(names) => globs_compile_ok(str_views(root.globs)) && sorted_unique(str_views(names))
                && name_set(str_views(names)) == workspace_names(
                *snap,
                str_views(root.path),
                str_views(root.globs),
            ),
            Err(e) => !globs_compile_ok(str_views(root.globs)) && e == ResolveError::GlobCompile,
        },
{
    let ghost rootp = str_views(root.path);
    let ghost globsv = str_views(root.globs);
    let matcher = match Matcher::compile(&root.globs) {
        Ok(m) => m,
        Err(_) => {
            return Err(ResolveError::GlobCompile);
        },
    };
    let mut names: Vec<String> = Vec::new();
    proof {
        assert(name_set(str_views(names)) =~= names_upto(*snap, rootp, globsv, 0));
    }
    let mut i: usize = 0;
    while i < snap.dirs.len()
        invariant
            0 <= i <= snap.dirs@.len(),
            matcher.patterns() == globsv,
            rootp == str_views(root.path),
            globsv == str_views(root.globs),
            sorted_unique(str_views(names)),
            name_set(str_views(names)) == names_upto(*snap, rootp, globsv, i as int),
        decreases snap.dirs@.len() - i,
    {
        let d = &snap.dirs[i];
        let ghost dv = str_views(snap.dirs@[i as int]);
        let mut contributes: Option<String> = None;
        if d.len() > root.path.len() && d.len() - root.path.len() <= walk_depth_limit()
            && path_is_prefix(&root.path, d) && !has_pruned_segment(d, root.path.len()) {
            let rel = join_from(d, root.path.len());
            if matcher.matches(rel.as_str()) {
                proof {
                    assert(has_dir(*snap, dv)) by {
                        assert(str_views(snap.dirs@[i as int]) == dv);
                    }
                    assert(is_candidate(*snap, rootp, globsv, dv));
                }
                let pj_path = path_push(d, package_json_file());
                match lookup_file(snap, &pj_path) {
                    Some(text) => {
                        match parse_package_json(text.as_str()) {
                            Some(pj) => {
                                contributes = pj.name;
                            },
                            None => {},
                        }
                    },
                    None => {},
                }
            }
        }
        proof {
            lemma_names_upto_step(*snap, rootp, globsv, i as int);
        }
        match contributes {
            Some(nm) => {
                proof {
                    assert(dir_manifest_name(*snap, dv) == Some(nm@));
                }
                insert_sorted_unique(&mut names, nm);
            },
            None => {
                proof {
                    assert(!(is_candidate(*snap, rootp, globsv, dv) && dir_manifest_name(
                        *snap,
                        dv,
                    ) is Some));
                }
            },
        }
        i += 1;
    }
    proof {
        lemma_names_upto_complete(*snap, rootp, globsv);
    }
    Ok(names)
}

/// What a whole resolution owes for starting directory `p`: the error when
/// an authoritative config is malformed, the empty list outside any
/// monorepo, and otherwise the sorted, deduplicated workspace names of the
/// located root — or the glob-compilation error exactly when its globs do
/// not compile.
pub open spec fn resolution_post(
    s: FsSnapshot,
    p: Seq<Seq<char>>,
    r: Result<Seq<Seq<char>>, ResolveError>,
) -> bool {
    match locate_spec(s, p) {
        Err(u) => r == Err::<Seq<Seq<char>>, ResolveError>(ResolveError::ConfigParse),
        Ok(None) => r == Ok::<Seq<Seq<char>>, ResolveError>(Seq::empty()),
        Ok(Some(root)) => match r {
            Ok(names) => globs_compile_ok(root.1) && sorted_unique(names) && name_set(names)
                == workspace_names(s, root.0, root.1),
            Err(e) => !globs_compile_ok(root.1) && e == ResolveError::GlobCompile,
        },
    }
}

/// Discover all workspace package names from `start`: locate the nearest
/// monorepo root, then enumerate below it. Outside any monorepo the list is
/// empty and that is not an error.
pub fn discover_workspaces(snap: &FsSnapshot, start: &Vec<String>) -> (r: Result<
    Vec<String>,
    ResolveError,
>)
    ensures
        resolution_post(
            *snap,
            str_views(*start),
            match r {
                Ok(names) => Ok(str_views(names)),
                Err(e) => Err(e),
            },
        ),
{
    let root = match find_monorepo_root(snap, start) {
        Ok(Some(root)) => root,
        Ok(None) => {
            let empty: Vec<String> = Vec::new();
            proof {
                assert(str_views(empty) =~= Seq::<Seq<char>>::empty());
            }
            return Ok(empty);
        },
        Err(_) => {
            return Err(ResolveError::ConfigParse);
        },
    };
    enumerate_workspaces(snap, &root)
}

/// Pruned directories are never visited: a directory with a hidden or
/// dependency-cache name anywhere on its relative path is no candidate,
/// whatever its manifest says and however its path matches the globs.
pub proof fn lemma_pruned_never_visited(
    s: FsSnapshot,
    rootp: Seq<Seq<char>>,
    globs: Seq<Seq<char>>,
    d: Seq<Seq<char>>,
)
    requires
        exists|j: int| rootp.len() <= j < d.len() && pruned_name(d[j]),
    ensures
        !is_candidate(s, rootp, globs, d),
{
}

/// A name contributed only by directories on pruned paths never appears in
/// the enumeration result.
pub proof fn lemma_pruned_only_name_absent(
    s: FsSnapshot,
    rootp: Seq<Seq<char>>,
    globs: Seq<Seq<char>>,
    n: Seq<char>,
)
    requires
        forall|d: Seq<Seq<char>>|
            dir_manifest_name(s, d) == Some(n) ==> exists|j: int|
                rootp.len() <= j < d.len() && pruned_name(d[j]),
    ensures
        !workspace_names(s, rootp, globs).contains(n),
{
    if workspace_names(s, rootp, globs).contains(n) {
        let d = choose|d: Seq<Seq<char>>|
            is_candidate(s, rootp, globs, d) && dir_manifest_name(s, d) == Some(n);
        lemma_pruned_never_visited(s, rootp, globs, d);
    }
}

/// Resolution is idempotent: against an unchanged tree, any two results that
/// meet the resolution contract are identical.
pub proof fn lemma_resolution_deterministic(
    s: FsSnapshot,
    p: Seq<Seq<char>>,
    r1: Result<Seq<Seq<char>>, ResolveError>,
    r2: Result<Seq<Seq<char>>, ResolveError>,
)
    requires
        resolution_post(s, p, r1),
        resolution_post(s, p, r2),
    ensures
        r1 == r2,
{
    match locate_spec(s, p) {
        Err(u) => {},
        Ok(None) => {},
        Ok(Some(root)) => {
            if globs_compile_ok(root.1) {
                let n1 = r1->Ok_0;
                let n2 = r2->Ok_0;
                lemma_sorted_unique_canonical(n1, n2);
            }
        },
    }
}

/// A located root is always an ancestor-or-self of the directory the
/// resolution started from.
pub proof fn lemma_root_is_ancestor_of_start(s: FsSnapshot, p: Seq<Seq<char>>)
    requires
        locate_spec(s, p) matches Ok(Some(_)),
    ensures
        is_prefix_of(locate_spec(s, p)->Ok_0->Some_0.0, p),
    decreases p.len(),
{
    let rootp = locate_spec(s, p)->Ok_0->Some_0.0;
    if has_file(s, p.push(workspace_yaml_name())) || manifest_root_globs(s, p) is Some {
        assert(p.take(p.len() as int) =~= p);
    } else {
        lemma_root_is_ancestor_of_start(s, p.drop_last());
        assert(p.take(rootp.len() as int) =~= p.drop_last().take(rootp.len() as int));
    }
}

/// Whether the level `k` segments below the base declares a root: it holds a
/// dedicated workspace-list file (well-formed or not), or a manifest with a
/// workspaces field.
pub open spec fn level_declares_root(s: FsSnapshot, p: Seq<Seq<char>>, k: int) -> bool {
    has_file(s, ancestor(p, k).push(workspace_yaml_name())) || manifest_root_globs(
        s,
        ancestor(p, k),
    ) is Some
}

/// The root search never crosses above a version-control boundary: when some
/// level `g` holds the marker and no level from `g` to the start declares a
/// root, the search reports absence, whatever lies above the boundary.
pub proof fn lemma_locate_stops_at_boundary(s: FsSnapshot, p: Seq<Seq<char>>, g: int)
    requires
        0 <= g <= p.len(),
        level_has_git(s, p, g),
        forall|j: int| g <= j <= p.len() ==> !level_declares_root(s, p, j),
    ensures
        locate_spec(s, p) == Ok::<Option<(Seq<Seq<char>>, Seq<Seq<char>>)>, ()>(None),
    decreases p.len(),
{
    assert(ancestor(p, p.len() as int) =~= p);
    assert(!level_declares_root(s, p, p.len() as int));
    if g == p.len() {
    } else {
        if level_has_git(s, p, p.len() as int) {
        } else {
            let q = p.drop_last();
            assert(ancestor(q, g) =~= ancestor(p, g));
            assert forall|j: int| g <= j <= q.len() implies !level_declares_root(s, q, j) by {
                assert(!level_declares_root(s, p, j));
                assert(ancestor(q, j) =~= ancestor(p, j));
            }
            lemma_locate_stops_at_boundary(s, q, g);
        }
    }
}

} // verus!
