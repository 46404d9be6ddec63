//! Planning the forwarded command line: the exact token sequence handed to
//! the package manager for a workspace-scoped command. Spawning the process
//! is the front end's business; the tokens are decided here.

use vstd::prelude::*;

use crate::detect::Manager;
use crate::snapshot::str_views;

verus! {

/// The full command line for running `cmd` in `workspace` under `manager`:
/// the manager binary, its workspace-scoping arguments, then the command
/// tokens unchanged.
pub open spec fn invocation_tokens(manager: Manager, workspace: Seq<char>, cmd: Seq<Seq<char>>) -> Seq<
    Seq<char>,
> {
    match manager {
        Manager::Pnpm => seq!["pnpm"@, "--filter"@, workspace] + cmd,
        Manager::Yarn => seq!["yarn"@, "workspace"@, workspace] + cmd,
    }
}

/// Build the command line to forward: pnpm scopes with `--filter`, yarn with
/// its `workspace` subcommand; the command tokens follow unchanged.
pub fn plan_invocation(workspace: &str, manager: Manager, cmd_tokens: &Vec<String>) -> (r: Vec<
    String,
>)
    ensures
        str_views(r) == invocation_tokens(manager, workspace@, str_views(*cmd_tokens)),
{
    let mut r: Vec<String> = Vec::new();
    match manager {
        Manager::Pnpm => {
            r.push(String::from_str("pnpm"));
            r.push(String::from_str("--filter"));
        },
        Manager::Yarn => {
            r.push(String::from_str("yarn"));
            r.push(String::from_str("workspace"));
        },
    }
    r.push(String::from_str(workspace));
    let mut i: usize = 0;
    while i < cmd_tokens.len()
        invariant
            0 <= i <= cmd_tokens.len(),
            str_views(r) =~= invocation_tokens(manager, workspace@, str_views(*cmd_tokens)).take(
                3 + i,
            ),
        decreases cmd_tokens.len() - i,
    {
        let tok = cmd_tokens[i].clone();
        r.push(tok);
        proof {
            let full = invocation_tokens(manager, workspace@, str_views(*cmd_tokens));
            assert(str_views(*cmd_tokens).len() == cmd_tokens@.len());
            assert(full.len() == 3 + cmd_tokens@.len());
            assert(full.take(3 + i).len() == 3 + i);
            assert(r@.len() == 3 + i + 1);
            assert(r@[3 + i as int] == cmd_tokens@[i as int]);
            assert(full[3 + i as int] == str_views(*cmd_tokens)[i as int]);
            assert(str_views(r) =~= full.take(3 + i + 1));
        }
        i += 1;
    }
    proof {
        let full = invocation_tokens(manager, workspace@, str_views(*cmd_tokens));
        assert(full.take(full.len() as int) =~= full);
    }
    r
}

} // verus!
