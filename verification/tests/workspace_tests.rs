//! Root location and workspace enumeration against in-memory tree snapshots.

use monomana::{
    discover_workspaces, enumerate_workspaces, find_monorepo_root, FsSnapshot, MonorepoRoot,
    ResolveError, SnapshotFile,
};

fn path(segs: &[&str]) -> Vec<String> {
    segs.iter().map(|s| s.to_string()).collect()
}

fn file(segs: &[&str], content: &str) -> SnapshotFile {
    SnapshotFile { path: path(segs), content: content.to_string() }
}

#[test]
fn discovers_pnpm_workspace() {
    // Tree has pnpm-workspace.yaml declaring packages/*, and
    // packages/foo/package.json naming foo.
    let snap = FsSnapshot {
        dirs: vec![path(&["packages"]), path(&["packages", "foo"])],
        files: vec![
            file(&["pnpm-workspace.yaml"], "packages:\n  - \"packages/*\"\n"),
            file(&["packages", "foo", "package.json"], "{\"name\": \"foo\"}"),
        ],
    };
    let names = discover_workspaces(&snap, &path(&[])).unwrap();
    assert_eq!(names, path(&["foo"]));
}

#[test]
fn manifest_object_workspaces_declares_root() {
    // package.json has workspaces: {packages: ["apps/*"]} and no dedicated
    // workspace-list file: the enclosing directory is the root with those
    // globs.
    let snap = FsSnapshot {
        dirs: vec![path(&["apps"])],
        files: vec![
            file(&["package.json"], "{\"workspaces\": {\"packages\": [\"apps/*\"]}}"),
        ],
    };
    let root = find_monorepo_root(&snap, &path(&[])).unwrap().unwrap();
    assert_eq!(root.path, path(&[]));
    assert_eq!(root.globs, path(&["apps/*"]));
}

#[test]
fn manifest_array_workspaces_declares_root() {
    let snap = FsSnapshot {
        dirs: vec![],
        files: vec![file(&["package.json"], "{\"workspaces\": [\"libs/*\", \"apps/*\"]}")],
    };
    let root = find_monorepo_root(&snap, &path(&[])).unwrap().unwrap();
    assert_eq!(root.path, path(&[]));
    assert_eq!(root.globs, path(&["libs/*", "apps/*"]));
}

#[test]
fn manifest_without_workspaces_is_no_root() {
    // A manifest alone does not make a root: the walk continues upward and
    // finds the declaring ancestor.
    let snap = FsSnapshot {
        dirs: vec![path(&["packages"]), path(&["packages", "foo"])],
        files: vec![
            file(&["package.json"], "{\"workspaces\": [\"packages/*\"]}"),
            file(&["packages", "foo", "package.json"], "{\"name\": \"foo\"}"),
        ],
    };
    let root = find_monorepo_root(&snap, &path(&["packages", "foo"])).unwrap().unwrap();
    assert_eq!(root.path, path(&[]));
}

#[test]
fn dedicated_file_short_circuits_manifest() {
    // Where both config shapes sit in one directory, the dedicated file is
    // authoritative.
    let snap = FsSnapshot {
        dirs: vec![],
        files: vec![
            file(&["pnpm-workspace.yaml"], "packages:\n  - \"from-yaml/*\"\n"),
            file(&["package.json"], "{\"workspaces\": [\"from-json/*\"]}"),
        ],
    };
    let root = find_monorepo_root(&snap, &path(&[])).unwrap().unwrap();
    assert_eq!(root.globs, path(&["from-yaml/*"]));
}

#[test]
fn no_root_outside_monorepo() {
    // Absence is not an error.
    let snap = FsSnapshot { dirs: vec![path(&["a"])], files: vec![] };
    assert!(find_monorepo_root(&snap, &path(&["a"])).unwrap().is_none());
    assert_eq!(discover_workspaces(&snap, &path(&["a"])).unwrap(), path(&[]));
}

#[test]
fn root_search_stops_at_git_boundary() {
    // A workspace declaration above the boundary is never found.
    let snap = FsSnapshot {
        dirs: vec![path(&["repo"]), path(&["repo", ".git"]), path(&["repo", "sub"])],
        files: vec![file(&["package.json"], "{\"workspaces\": [\"repo/*\"]}")],
    };
    assert!(find_monorepo_root(&snap, &path(&["repo", "sub"])).unwrap().is_none());
}

#[test]
fn malformed_workspace_yaml_is_hard_error() {
    // The dedicated file claims authority: a malformed one aborts resolution.
    let snap = FsSnapshot {
        dirs: vec![],
        files: vec![file(&["pnpm-workspace.yaml"], "packages: 5")],
    };
    let err = find_monorepo_root(&snap, &path(&[])).unwrap_err();
    assert_eq!(err, ResolveError::ConfigParse);
    let err = discover_workspaces(&snap, &path(&[])).unwrap_err();
    assert_eq!(err, ResolveError::ConfigParse);
}

#[test]
fn invalid_glob_is_hard_error() {
    let root = MonorepoRoot { path: path(&[]), globs: path(&["packages/["]) };
    let snap = FsSnapshot { dirs: vec![path(&["packages"])], files: vec![] };
    let err = enumerate_workspaces(&snap, &root).unwrap_err();
    assert_eq!(err, ResolveError::GlobCompile);
}

#[test]
fn invalid_candidate_manifest_is_skipped() {
    // A candidate whose manifest is invalid JSON is excluded; enumeration
    // still completes.
    let snap = FsSnapshot {
        dirs: vec![
            path(&["packages"]),
            path(&["packages", "bad"]),
            path(&["packages", "good"]),
        ],
        files: vec![
            file(&["pnpm-workspace.yaml"], "packages:\n  - \"packages/*\"\n"),
            file(&["packages", "bad", "package.json"], "{not json"),
            file(&["packages", "good", "package.json"], "{\"name\": \"good\"}"),
        ],
    };
    let names = discover_workspaces(&snap, &path(&[])).unwrap();
    assert_eq!(names, path(&["good"]));
}

#[test]
fn manifest_without_name_is_skipped() {
    let snap = FsSnapshot {
        dirs: vec![path(&["packages"]), path(&["packages", "anon"])],
        files: vec![
            file(&["pnpm-workspace.yaml"], "packages:\n  - \"packages/*\"\n"),
            file(&["packages", "anon", "package.json"], "{\"private\": true}"),
        ],
    };
    let names = discover_workspaces(&snap, &path(&[])).unwrap();
    assert!(names.is_empty());
}

#[test]
fn enumeration_is_sorted_and_deduplicated() {
    // Exactly the glob-matched directories with named manifests are
    // returned, each name once, in ascending order.
    let root = MonorepoRoot { path: path(&[]), globs: path(&["apps/*", "libs/*"]) };
    let snap = FsSnapshot {
        dirs: vec![
            path(&["apps"]),
            path(&["apps", "zeta"]),
            path(&["apps", "alpha"]),
            path(&["libs", "dup"]),
            path(&["libs"]),
            path(&["other", "c"]),
            path(&["other"]),
        ],
        files: vec![
            file(&["apps", "zeta", "package.json"], "{\"name\": \"zeta\"}"),
            file(&["apps", "alpha", "package.json"], "{\"name\": \"alpha\"}"),
            file(&["libs", "dup", "package.json"], "{\"name\": \"alpha\"}"),
            file(&["other", "c", "package.json"], "{\"name\": \"outside\"}"),
        ],
    };
    let names = enumerate_workspaces(&snap, &root).unwrap();
    assert_eq!(names, path(&["alpha", "zeta"]));
}

#[test]
fn pruned_directories_are_never_visited() {
    // Manifests inside hidden or dependency-cache directories never appear,
    // even when their paths match a glob.
    let root = MonorepoRoot { path: path(&[]), globs: path(&["**"]) };
    let snap = FsSnapshot {
        dirs: vec![
            path(&["node_modules"]),
            path(&["node_modules", "pkg"]),
            path(&[".hidden"]),
            path(&[".hidden", "pkg"]),
            path(&["apps"]),
            path(&["apps", "ok"]),
        ],
        files: vec![
            file(&["node_modules", "pkg", "package.json"], "{\"name\": \"cached\"}"),
            file(&[".hidden", "pkg", "package.json"], "{\"name\": \"dotted\"}"),
            file(&["apps", "ok", "package.json"], "{\"name\": \"ok\"}"),
        ],
    };
    let names = enumerate_workspaces(&snap, &root).unwrap();
    assert_eq!(names, path(&["ok"]));
}

#[test]
fn traversal_depth_is_bounded() {
    // A manifest four levels below the root is found; one five levels below
    // is not.
    let root = MonorepoRoot { path: path(&[]), globs: path(&["**"]) };
    let snap = FsSnapshot {
        dirs: vec![
            path(&["a"]),
            path(&["a", "b"]),
            path(&["a", "b", "c"]),
            path(&["a", "b", "c", "d"]),
            path(&["a", "b", "c", "d", "e"]),
        ],
        files: vec![
            file(&["a", "b", "c", "d", "package.json"], "{\"name\": \"at-four\"}"),
            file(&["a", "b", "c", "d", "e", "package.json"], "{\"name\": \"at-five\"}"),
        ],
    };
    let names = enumerate_workspaces(&snap, &root).unwrap();
    assert_eq!(names, path(&["at-four"]));
}

#[test]
fn root_itself_is_not_a_candidate() {
    // Matching is only meaningful for descendants of the root.
    let root = MonorepoRoot { path: path(&["repo"]), globs: path(&["**"]) };
    let snap = FsSnapshot {
        dirs: vec![path(&["repo"]), path(&["repo", "a"])],
        files: vec![
            file(&["repo", "package.json"], "{\"name\": \"the-root\"}"),
            file(&["repo", "a", "package.json"], "{\"name\": \"member\"}"),
        ],
    };
    let names = enumerate_workspaces(&snap, &root).unwrap();
    assert_eq!(names, path(&["member"]));
}

#[test]
fn resolution_is_idempotent() {
    // Two resolutions of an unchanged tree yield identical output.
    let snap = FsSnapshot {
        dirs: vec![path(&["packages"]), path(&["packages", "b"]), path(&["packages", "a"])],
        files: vec![
            file(&["pnpm-workspace.yaml"], "packages:\n  - \"packages/*\"\n"),
            file(&["packages", "a", "package.json"], "{\"name\": \"a\"}"),
            file(&["packages", "b", "package.json"], "{\"name\": \"b\"}"),
        ],
    };
    let first = discover_workspaces(&snap, &path(&["packages", "a"])).unwrap();
    let second = discover_workspaces(&snap, &path(&["packages", "a"])).unwrap();
    assert_eq!(first, second);
    assert_eq!(first, path(&["a", "b"]));
}

#[test]
fn nearest_declaring_ancestor_wins() {
    // Two nested declaring directories: the walk is nearest-first.
    let snap = FsSnapshot {
        dirs: vec![path(&["outer"]), path(&["outer", "inner"]), path(&["outer", "inner", "x"])],
        files: vec![
            file(&["pnpm-workspace.yaml"], "packages:\n  - \"outer/*\"\n"),
            file(&["outer", "inner", "pnpm-workspace.yaml"], "packages:\n  - \"x\"\n"),
        ],
    };
    let root = find_monorepo_root(&snap, &path(&["outer", "inner", "x"])).unwrap().unwrap();
    assert_eq!(root.path, path(&["outer", "inner"]));
    assert_eq!(root.globs, path(&["x"]));
}

#[test]
fn empty_glob_list_matches_nothing() {
    let snap = FsSnapshot {
        dirs: vec![path(&["packages"]), path(&["packages", "foo"])],
        files: vec![
            file(&["pnpm-workspace.yaml"], "packages: []"),
            file(&["packages", "foo", "package.json"], "{\"name\": \"foo\"}"),
        ],
    };
    let names = discover_workspaces(&snap, &path(&[])).unwrap();
    assert!(names.is_empty());
}

#[test]
fn workspaces_null_is_no_root() {
    let snap = FsSnapshot {
        dirs: vec![],
        files: vec![file(&["package.json"], "{\"name\": \"x\", \"workspaces\": null}")],
    };
    assert!(find_monorepo_root(&snap, &path(&[])).unwrap().is_none());
}
