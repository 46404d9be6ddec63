//! Lock-file detection against in-memory tree snapshots.

use monomana::{detect_manager, FsSnapshot, Manager, SnapshotFile};

fn path(segs: &[&str]) -> Vec<String> {
    segs.iter().map(|s| s.to_string()).collect()
}

fn file(segs: &[&str], content: &str) -> SnapshotFile {
    SnapshotFile { path: path(segs), content: content.to_string() }
}

#[test]
fn detects_pnpm() {
    let snap = FsSnapshot { dirs: vec![], files: vec![file(&["pnpm-lock.yaml"], "mock")] };
    let manager = detect_manager(&snap, &path(&[])).unwrap();
    assert_eq!(manager, Manager::Pnpm);
}

#[test]
fn detects_yarn() {
    let snap = FsSnapshot { dirs: vec![], files: vec![file(&["yarn.lock"], "mock")] };
    let manager = detect_manager(&snap, &path(&[])).unwrap();
    assert_eq!(manager, Manager::Yarn);
}

#[test]
fn tie_break_prefers_pnpm_over_yarn() {
    let snap = FsSnapshot {
        dirs: vec![],
        files: vec![file(&["pnpm-lock.yaml"], "mock"), file(&["yarn.lock"], "mock")],
    };
    let manager = detect_manager(&snap, &path(&[])).unwrap();
    assert_eq!(manager, Manager::Pnpm);
}

#[test]
fn stops_at_git_root() {
    // The lock file lies strictly above the git boundary; a walk starting
    // below the boundary must never see it.
    let snap = FsSnapshot {
        dirs: vec![
            path(&["repo"]),
            path(&["repo", ".git"]),
            path(&["repo", "level1"]),
            path(&["repo", "level1", "level2"]),
        ],
        files: vec![file(&["pnpm-lock.yaml"], "mock")],
    };
    let result = detect_manager(&snap, &path(&["repo", "level1", "level2"]));
    assert!(result.is_err());
}

#[test]
fn lock_beside_marker_is_still_found() {
    // The marker directory itself is still checked before stopping: a lock
    // file in the boundary directory is found.
    let snap = FsSnapshot {
        dirs: vec![path(&[".git"]), path(&["level1"])],
        files: vec![file(&["pnpm-lock.yaml"], "mock")],
    };
    let manager = detect_manager(&snap, &path(&["level1"])).unwrap();
    assert_eq!(manager, Manager::Pnpm);
}

#[test]
fn lock_file_in_ancestor_is_found() {
    // Tree has root/pnpm-lock.yaml; detection from root/a/b resolves to pnpm.
    let snap = FsSnapshot {
        dirs: vec![path(&["a"]), path(&["a", "b"])],
        files: vec![file(&["pnpm-lock.yaml"], "lockfileVersion: '9.0'")],
    };
    let manager = detect_manager(&snap, &path(&["a", "b"])).unwrap();
    assert_eq!(manager, Manager::Pnpm);
}

#[test]
fn nearest_lock_file_wins() {
    // A yarn lock in the start directory shadows a pnpm lock further up.
    let snap = FsSnapshot {
        dirs: vec![path(&["a"])],
        files: vec![file(&["pnpm-lock.yaml"], "mock"), file(&["a", "yarn.lock"], "mock")],
    };
    let manager = detect_manager(&snap, &path(&["a"])).unwrap();
    assert_eq!(manager, Manager::Yarn);
}

#[test]
fn not_found_reports_boundary() {
    // No lock file anywhere: the error carries the directory where the walk
    // stopped — the git boundary when one is hit, else the base.
    let snap = FsSnapshot {
        dirs: vec![path(&["a"]), path(&["a", ".git"]), path(&["a", "b"])],
        files: vec![],
    };
    let err = detect_manager(&snap, &path(&["a", "b"])).unwrap_err();
    assert_eq!(err.boundary, path(&["a"]));

    let bare = FsSnapshot { dirs: vec![path(&["x"])], files: vec![] };
    let err = detect_manager(&bare, &path(&["x"])).unwrap_err();
    assert_eq!(err.boundary, path(&[]));
}

#[test]
fn manager_names() {
    assert_eq!(monomana::manager_name(Manager::Pnpm), "pnpm");
    assert_eq!(monomana::manager_name(Manager::Yarn), "yarn");
}
