//! Manager-keyword extraction, command planning, and glob matching.

use monomana::{extract_manager_from_args, plan_invocation, Manager, Matcher};

fn tokens(segs: &[&str]) -> Vec<String> {
    segs.iter().map(|s| s.to_string()).collect()
}

#[test]
fn extracts_pnpm_keyword() {
    let mut args = tokens(&["pnpm", "install"]);
    assert_eq!(extract_manager_from_args(&mut args), Some(Manager::Pnpm));
    assert_eq!(args, tokens(&["install"]));
}

#[test]
fn extracts_yarn_keyword() {
    let mut args = tokens(&["yarn"]);
    assert_eq!(extract_manager_from_args(&mut args), Some(Manager::Yarn));
    assert!(args.is_empty());
}

#[test]
fn keyword_match_ignores_ascii_case() {
    let mut args = tokens(&["PNPM", "run", "build"]);
    assert_eq!(extract_manager_from_args(&mut args), Some(Manager::Pnpm));
    assert_eq!(args, tokens(&["run", "build"]));

    let mut args = tokens(&["Yarn", "test"]);
    assert_eq!(extract_manager_from_args(&mut args), Some(Manager::Yarn));
    assert_eq!(args, tokens(&["test"]));
}

#[test]
fn non_keyword_leaves_args_untouched() {
    let mut args = tokens(&["npm", "install"]);
    assert_eq!(extract_manager_from_args(&mut args), None);
    assert_eq!(args, tokens(&["npm", "install"]));

    let mut empty: Vec<String> = vec![];
    assert_eq!(extract_manager_from_args(&mut empty), None);
    assert!(empty.is_empty());
}

#[test]
fn plans_pnpm_invocation() {
    let argv = plan_invocation("web", Manager::Pnpm, &tokens(&["run", "build", "--watch"]));
    assert_eq!(argv, tokens(&["pnpm", "--filter", "web", "run", "build", "--watch"]));
}

#[test]
fn plans_yarn_invocation() {
    let argv = plan_invocation("web", Manager::Yarn, &tokens(&["test"]));
    assert_eq!(argv, tokens(&["yarn", "workspace", "web", "test"]));
}

#[test]
fn matcher_matches_any_pattern() {
    let m = Matcher::compile(&tokens(&["apps/*", "libs/core"])).unwrap();
    assert!(m.matches("apps/web"));
    assert!(m.matches("libs/core"));
    assert!(!m.matches("libs/extra"));
    assert!(!m.matches("apps"));
}

#[test]
fn matcher_recursive_wildcard_spans_segments() {
    let m = Matcher::compile(&tokens(&["packages/**"])).unwrap();
    assert!(m.matches("packages/a"));
    assert!(m.matches("packages/a/b/c"));
    assert!(!m.matches("elsewhere/a"));
}

#[test]
fn matcher_rejects_malformed_pattern() {
    assert!(Matcher::compile(&tokens(&["ok/*", "broken/["])).is_err());
}

#[test]
fn command_model_round_trip() {
    let cli = monomana::Cli {
        command: monomana::Command::Run(monomana::RunArgs {
            workspace: "web".to_string(),
            dry_run: true,
            command_and_args: tokens(&["yarn", "build"]),
        }),
    };
    match cli.command {
        monomana::Command::Run(mut args) => {
            assert_eq!(extract_manager_from_args(&mut args.command_and_args), Some(Manager::Yarn));
            assert_eq!(args.command_and_args, tokens(&["build"]));
            assert!(args.dry_run);
            assert_eq!(args.workspace, "web");
        }
        monomana::Command::ListWorkspaces(_) => panic!("expected the run command"),
    }
}
