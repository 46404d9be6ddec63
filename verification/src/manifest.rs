//! The two recognized monorepo configuration shapes, and the trusted parsers
//! that read them: a dedicated workspace-list file (YAML) and a package
//! manifest (JSON) whose `workspaces` field may be a plain glob list or an
//! object holding one.

use vstd::prelude::*;

use crate::snapshot::str_views;

verus! {

/// The `packages` field of a dedicated workspace-list file.
pub struct PnpmWorkspaceYaml {
    pub packages: Vec<String>,
}

/// The two shapes of a manifest's `workspaces` field: a direct list of glob
/// strings, or an object whose `packages` field holds that list.
pub enum Workspaces {
    Globs(Vec<String>),
    Config { packages: Vec<String> },
}

/// The fields of a package manifest that resolution reads.
pub struct PackageJson {
    pub name: Option<String>,
    pub workspaces: Option<Workspaces>,
}

pub open spec fn opt_str_view(o: Option<String>) -> Option<Seq<char>> {
    match o {
        Some(s) => Some(s@),
        None => None,
    }
}

/// The shape (true for the object form) and glob list of a workspaces field.
pub open spec fn workspaces_view(w: Workspaces) -> (bool, Seq<Seq<char>>) {
    match w {
        Workspaces::Globs(g) => (false, str_views(g)),
        Workspaces::Config { packages } => (true, str_views(packages)),
    }
}

pub open spec fn opt_workspaces_view(o: Option<Workspaces>) -> Option<(bool, Seq<Seq<char>>)> {
    match o {
        Some(w) => Some(workspaces_view(w)),
        None => None,
    }
}

pub open spec fn package_json_view(pj: PackageJson) -> (
    Option<Seq<char>>,
    Option<(bool, Seq<Seq<char>>)>,
) {
    (opt_str_view(pj.name), opt_workspaces_view(pj.workspaces))
}

/// What parsing a package manifest yields: `None` for text that is not a
/// well-formed manifest, else the declared name and the declared workspaces
/// field (with its shape).
pub uninterp spec fn package_json_of(text: Seq<char>) -> Option<
    (Option<Seq<char>>, Option<(bool, Seq<Seq<char>>)>),
>;

/// What parsing a dedicated workspace-list file yields: `None` for text
/// without a well-formed `packages` list, else the declared glob list.
pub uninterp spec fn pnpm_workspace_of(text: Seq<char>) -> Option<Seq<Seq<char>>>;

/// Relies on serde_json (`from_str` to a generic value, field lookup, and
/// `from_value` for the leaf shapes): the parse of a manifest is a function
/// of its text alone. A manifest whose fields do not fit the recognized
/// schema parses to `None`.
#[verifier::external_body]
pub(crate) fn parse_package_json(text: &str) -> (r: Option<PackageJson>)
    ensures
        match r {
            Some(pj) => package_json_of(text@) == Some(package_json_view(pj)),
            None => package_json_of(text@) is None,
        },
{
    let v: serde_json::Value = serde_json::from_str(text).ok()?;
    let name: Option<String> = match v.get("name") {
        None => None,
        Some(n) => serde_json::from_value(n.clone()).ok()?,
    };
    let workspaces: Option<Workspaces> = match v.get("workspaces") {
        None => None,
        Some(w) if w.is_null() => None,
        Some(w) if w.is_array() => Some(Workspaces::Globs(serde_json::from_value(w.clone()).ok()?)),
        Some(w) if w.is_object() => Some(Workspaces::Config {
            packages: serde_json::from_value(w.get("packages").cloned()?).ok()?,
        }),
        Some(_) => return None,
    };
    Some(PackageJson { name, workspaces })
}

/// Relies on serde_yaml (`from_str` to a generic value, field lookup, and
/// `from_value` for the glob list): the parse is a function of the text
/// alone. Text without a well-formed `packages` list parses to `None`.
#[verifier::external_body]
pub(crate) fn parse_pnpm_workspace_yaml(text: &str) -> (r: Option<PnpmWorkspaceYaml>)
    ensures
        match r {
            Some(y) => pnpm_workspace_of(text@) == Some(str_views(y.packages)),
            None => pnpm_workspace_of(text@) is None,
        },
{
    let v: serde_yaml::Value = serde_yaml::from_str(text).ok()?;
    let packages: Vec<String> = serde_yaml::from_value(v.get("packages")?.clone()).ok()?;
    Some(PnpmWorkspaceYaml { packages })
}

impl Workspaces {
    /// The declared glob list, whichever shape declared it: the two shapes
    /// normalize to one representation.
    pub fn globs(self) -> (r: Vec<String>)
        ensures
            str_views(r) == workspaces_view(self).1,
    {
        match self {
            Workspaces::Globs(g) => g,
            Workspaces::Config { packages } => packages,
        }
    }
}

} // verus!
