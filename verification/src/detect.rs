//! Lock-file detection: walking a directory and its ancestors, nearest
//! first, to decide which package manager governs the tree. The walk checks
//! the two well-known lock files at each level, breaks a tie in the same
//! directory by a fixed priority (pnpm over yarn), and stops at a
//! version-control boundary.

use vstd::prelude::*;

use crate::snapshot::{
    clone_path, dir_exists, file_exists, has_dir, has_file, path_push, str_views, FsSnapshot,
};

verus! {

/// Supported package managers.
#[derive(Debug, Clone, Copy, PartialEq, Eq, Structural)]
pub enum Manager {
    Pnpm,
    Yarn,
}

/// No lock file was found; `boundary` is the directory at which the walk
/// stopped (a version-control boundary, or the snapshot base).
#[derive(Debug)]
pub struct NotFoundError {
    pub boundary: Vec<String>,
}

/// The executable name of a manager, as spawned by the front end.
pub fn manager_name(m: Manager) -> (r: &'static str)
    ensures
        m is Pnpm ==> r@ == "pnpm"@,
        m is Yarn ==> r@ == "yarn"@,
{
    match m {
        Manager::Pnpm => "pnpm",
        Manager::Yarn => "yarn",
    }
}

pub open spec fn pnpm_lock_name() -> Seq<char> {
    "pnpm-lock.yaml"@
}

pub open spec fn yarn_lock_name() -> Seq<char> {
    "yarn.lock"@
}

pub open spec fn git_marker_name() -> Seq<char> {
    ".git"@
}

/// The lock file whose presence marks a pnpm-governed tree.
pub fn pnpm_lock_file() -> (r: &'static str)
    ensures
        r@ == pnpm_lock_name(),
{
    "pnpm-lock.yaml"
}

/// The lock file whose presence marks a yarn-governed tree.
pub fn yarn_lock_file() -> (r: &'static str)
    ensures
        r@ == yarn_lock_name(),
{
    "yarn.lock"
}

/// The marker directory at which ancestor walks stop.
pub fn git_marker_dir() -> (r: &'static str)
    ensures
        r@ == git_marker_name(),
{
    ".git"
}

/// What the ancestor walk decides when started at directory `p` of snapshot
/// `s`: the governing manager, or the boundary path at which it gave up.
/// At each level the lock files are checked first (pnpm before yarn, which
/// is the tie-break), then the version-control marker stops the walk.
pub open spec fn detect_spec(s: FsSnapshot, p: Seq<Seq<char>>) -> Result<Manager, Seq<Seq<char>>>
    decreases p.len(),
{
    if has_file(s, p.push(pnpm_lock_name())) {
        Ok(Manager::Pnpm)
    } else if has_file(s, p.push(yarn_lock_name())) {
        Ok(Manager::Yarn)
    } else if has_dir(s, p.push(git_marker_name())) {
        Err(p)
    } else if p.len() == 0 {
        Err(p)
    } else {
        detect_spec(s, p.drop_last())
    }
}

/// Detect the package manager governing `start` by searching for lock files
/// there and in each ancestor, nearest first, stopping at a version-control
/// boundary. When both lock files sit in one directory, pnpm wins.
pub fn detect_manager(snap: &FsSnapshot, start: &Vec<String>) -> (r: Result<Manager, NotFoundError>)
    ensures
        match r {
            Ok(m) => detect_spec(*snap, str_views(*start)) == Ok::<Manager, Seq<Seq<char>>>(m),
            Err(e) => detect_spec(*snap, str_views(*start)) == Err::<Manager, Seq<Seq<char>>>(
                str_views(e.boundary),
            ),
        },
{
    let mut cur = clone_path(start);
    loop
        invariant
            detect_spec(*snap, str_views(*start)) == detect_spec(*snap, str_views(cur)),
        decreases cur.len(),
    {
        let pnpm_path = path_push(&cur, pnpm_lock_file());
        if file_exists(snap, &pnpm_path) {
            return Ok(Manager::Pnpm);
        }
        let yarn_path = path_push(&cur, yarn_lock_file());
        if file_exists(snap, &yarn_path) {
            return Ok(Manager::Yarn);
        }
        let git_path = path_push(&cur, git_marker_dir());
        if dir_exists(snap, &git_path) {
            return Err(NotFoundError { boundary: cur });
        }
        if cur.len() == 0 {
            return Err(NotFoundError { boundary: cur });
        }
        let ghost before = str_views(cur);
        let _ = cur.pop();
        proof {
            assert(str_views(cur) =~= before.drop_last());
        }
    }
}

/// The ancestor of `p` that lies `k` segments below the base: `p` itself at
/// `k == p.len()`, the base at `k == 0`.
pub open spec fn ancestor(p: Seq<Seq<char>>, k: int) -> Seq<Seq<char>> {
    p.take(k)
}

pub open spec fn level_has_pnpm(s: FsSnapshot, p: Seq<Seq<char>>, k: int) -> bool {
    has_file(s, ancestor(p, k).push(pnpm_lock_name()))
}

pub open spec fn level_has_yarn(s: FsSnapshot, p: Seq<Seq<char>>, k: int) -> bool {
    has_file(s, ancestor(p, k).push(yarn_lock_name()))
}

pub open spec fn level_has_lock(s: FsSnapshot, p: Seq<Seq<char>>, k: int) -> bool {
    level_has_pnpm(s, p, k) || level_has_yarn(s, p, k)
}

pub open spec fn level_has_git(s: FsSnapshot, p: Seq<Seq<char>>, k: int) -> bool {
    has_dir(s, ancestor(p, k).push(git_marker_name()))
}

/// The walk finds the nearest ancestor holding a lock file: if the levels
/// nearer than `k` hold no lock file and no boundary marker, the decision is
/// taken at level `k`, pnpm first.
pub proof fn lemma_detect_nearest_lock(s: FsSnapshot, p: Seq<Seq<char>>, k: int)
    requires
        0 <= k <= p.len(),
        level_has_lock(s, p, k),
        forall|j: int| k < j <= p.len() ==> !level_has_lock(s, p, j) && !level_has_git(s, p, j),
    ensures
        detect_spec(s, p) == (if level_has_pnpm(s, p, k) {
            Ok::<Manager, Seq<Seq<char>>>(Manager::Pnpm)
        } else {
            Ok::<Manager, Seq<Seq<char>>>(Manager::Yarn)
        }),
    decreases p.len(),
{
    if k == p.len() {
        assert(ancestor(p, k) =~= p);
    } else {
        assert(ancestor(p, p.len() as int) =~= p);
        assert(!level_has_lock(s, p, p.len() as int));
        assert(!level_has_git(s, p, p.len() as int));
        let q = p.drop_last();
        assert(ancestor(q, k) =~= ancestor(p, k));
        assert forall|j: int| k < j <= q.len() implies !level_has_lock(s, q, j) && !level_has_git(
            s,
            q,
            j,
        ) by {
            assert(!level_has_lock(s, p, j) && !level_has_git(s, p, j));
            assert(ancestor(q, j) =~= ancestor(p, j));
        }
        lemma_detect_nearest_lock(s, q, k);
    }
}

/// For every tree holding exactly one of the two lock files at some
/// ancestor, and neither a lock file nor a boundary marker anywhere nearer
/// the start, detection returns that lock file's manager.
pub proof fn lemma_detect_unique_lock(s: FsSnapshot, p: Seq<Seq<char>>, k: int)
    requires
        0 <= k <= p.len(),
        level_has_pnpm(s, p, k) != level_has_yarn(s, p, k),
        forall|j: int| k < j <= p.len() ==> !level_has_lock(s, p, j) && !level_has_git(s, p, j),
    ensures
        level_has_pnpm(s, p, k) ==> detect_spec(s, p) == Ok::<Manager, Seq<Seq<char>>>(
            Manager::Pnpm,
        ),
        level_has_yarn(s, p, k) ==> detect_spec(s, p) == Ok::<Manager, Seq<Seq<char>>>(
            Manager::Yarn,
        ),
{
    lemma_detect_nearest_lock(s, p, k);
}

/// When both lock files sit in the same nearest-matching directory, the
/// fixed tie-break applies: pnpm wins, deterministically.
pub proof fn lemma_detect_tie_break(s: FsSnapshot, p: Seq<Seq<char>>, k: int)
    requires
        0 <= k <= p.len(),
        level_has_pnpm(s, p, k),
        level_has_yarn(s, p, k),
        forall|j: int| k < j <= p.len() ==> !level_has_lock(s, p, j) && !level_has_git(s, p, j),
    ensures
        detect_spec(s, p) == Ok::<Manager, Seq<Seq<char>>>(Manager::Pnpm),
{
    lemma_detect_nearest_lock(s, p, k);
}

/// A lock file that lies only above a version-control boundary is never
/// found: if some level `g` holds the marker and no level from `g` to the
/// start holds a lock file, detection fails.
pub proof fn lemma_detect_stops_at_boundary(s: FsSnapshot, p: Seq<Seq<char>>, g: int)
    requires
        0 <= g <= p.len(),
        level_has_git(s, p, g),
        forall|j: int| g <= j <= p.len() ==> !level_has_lock(s, p, j),
    ensures
        detect_spec(s, p) is Err,
    decreases p.len(),
{
    assert(ancestor(p, p.len() as int) =~= p);
    assert(!level_has_lock(s, p, p.len() as int));
    if g == p.len() {
    } else {
        if level_has_git(s, p, p.len() as int) {
        } else {
            let q = p.drop_last();
            assert(ancestor(q, g) =~= ancestor(p, g));
            assert forall|j: int| g <= j <= q.len() implies !level_has_lock(s, q, j) by {
                assert(!level_has_lock(s, p, j));
                assert(ancestor(q, j) =~= ancestor(p, j));
            }
            lemma_detect_stops_at_boundary(s, q, g);
        }
    }
}

} // verus!
