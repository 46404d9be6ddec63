//! The command model of the front end, and the manager-keyword extraction
//! rule: when the first token of a forwarded command names a package manager
//! (case-insensitively), that token selects the manager and is consumed.

use vstd::prelude::*;

use crate::detect::Manager;

verus! {

/// A parsed invocation of the tool.
pub struct Cli {
    pub command: Command,
}

/// The subcommands the tool answers to.
pub enum Command {
    /// Run a command in a workspace.
    Run(RunArgs),
    /// List available workspaces (used for shell completion).
    ListWorkspaces(ListWorkspacesArgs),
}

/// Arguments of the run subcommand.
pub struct RunArgs {
    /// Workspace name to execute the command in.
    pub workspace: String,
    /// Perform a dry run without executing the command.
    pub dry_run: bool,
    /// The command to run, optionally prefixed with a manager keyword.
    pub command_and_args: Vec<String>,
}

/// Arguments of the workspace-listing subcommand.
pub struct ListWorkspacesArgs {}

/// The code of a character after ASCII lowercasing; characters outside the
/// ASCII uppercase range are left as they are.
pub open spec fn lower_code(c: char) -> int {
    if 65 <= (c as u32) && (c as u32) <= 90 {
        (c as u32) + 32
    } else {
        (c as u32) as int
    }
}

/// ASCII-case-insensitive equality of two character sequences.
pub open spec fn eq_ignore_ascii_case_seq(a: Seq<char>, b: Seq<char>) -> bool {
    a.len() == b.len() && (forall|i: int| 0 <= i < a.len() ==> lower_code(a[i]) == lower_code(b[i]))
}

/// The manager a command token selects, if it is a manager keyword.
pub open spec fn manager_keyword(tok: Seq<char>) -> Option<Manager> {
    if eq_ignore_ascii_case_seq(tok, "pnpm"@) {
        Some(Manager::Pnpm)
    } else if eq_ignore_ascii_case_seq(tok, "yarn"@) {
        Some(Manager::Yarn)
    } else {
        None
    }
}

/// ASCII-case-insensitive equality of two string slices.
fn eq_ignore_ascii_case(a: &str, b: &str) -> (r: bool)
    ensures
        r == eq_ignore_ascii_case_seq(a@, b@),
{
    let alen = a.unicode_len();
    let blen = b.unicode_len();
    if alen != blen {
        return false;
    }
    let mut i: usize = 0;
    while i < alen
        invariant
            0 <= i <= alen,
            alen == a@.len(),
            alen == b@.len(),
            forall|j: int| 0 <= j < i ==> lower_code(a@[j]) == lower_code(b@[j]),
        decreases alen - i,
    {
        let ca = a.get_char(i) as u32;
        let cb = b.get_char(i) as u32;
        let la: u32 = if 65 <= ca && ca <= 90 {
            ca + 32
        } else {
            ca
        };
        let lb: u32 = if 65 <= cb && cb <= 90 {
            cb + 32
        } else {
            cb
        };
        if la != lb {
            return false;
        }
        i += 1;
    }
    true
}

/// Inspect the first token of a forwarded command; when it is a manager
/// keyword, return that manager and consume the token, else leave the
/// command untouched.
pub fn extract_manager_from_args(args: &mut Vec<String>) -> (r: Option<Manager>)
    ensures
        r == (if old(args)@.len() > 0 {
            manager_keyword(old(args)@[0]@)
        } else {
            None::<Manager>
        }),
        r is Some ==> final(args)@ == old(args)@.skip(1),
        r is None ==> final(args)@ == old(args)@,
{
    if args.len() == 0 {
        return None;
    }
    let r: Option<Manager> = if eq_ignore_ascii_case(args[0].as_str(), "pnpm") {
        Some(Manager::Pnpm)
    } else if eq_ignore_ascii_case(args[0].as_str(), "yarn") {
        Some(Manager::Yarn)
    } else {
        None
    };
    if r.is_some() {
        let _ = args.remove(0);
        proof {
            assert(args@ =~= old(args)@.skip(1));
        }
    }
    r
}

} // verus!
