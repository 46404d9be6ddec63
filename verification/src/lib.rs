//! Monorepo resolution engine: decides which package manager governs a
//! directory tree, finds the nearest workspace-declaring root, and lists the
//! declared workspace packages, all against an in-memory snapshot of the
//! relevant part of the filesystem.

pub mod cli;
pub mod detect;
pub mod globs;
pub mod invoke;
pub mod manifest;
pub mod snapshot;
pub mod strutil;
pub mod workspace;

pub use cli::{extract_manager_from_args, Cli, Command, ListWorkspacesArgs, RunArgs};
pub use detect::{detect_manager, manager_name, Manager, NotFoundError};
pub use globs::{GlobCompileError, Matcher};
pub use invoke::plan_invocation;
pub use manifest::{PackageJson, PnpmWorkspaceYaml, Workspaces};
pub use snapshot::{FsSnapshot, SnapshotFile};
pub use workspace::{
    discover_workspaces, enumerate_workspaces, find_monorepo_root, MonorepoRoot, ResolveError,
};
