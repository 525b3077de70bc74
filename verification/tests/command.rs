use codex_monitor::command::{
    branch_exists_args, failure_detail, git_unrunnable, interpret_git, interpret_probe,
    resolve_agent_binary, search_path, worktree_add_args, worktree_prune_args,
    worktree_remove_args, CommandOutput, ProbeOutcome,
};
use codex_monitor::ignore::ignore_rule_addition;

fn output(success: bool, stdout: &str, stderr: &str) -> CommandOutput {
    CommandOutput { success, stdout: stdout.to_string(), stderr: stderr.to_string() }
}

#[test]
fn agent_binary_defaults_to_codex() {
    let none = resolve_agent_binary(&None);
    assert_eq!(none.program, "codex");
    assert!(none.uses_default);
    let blank = resolve_agent_binary(&Some("   ".to_string()));
    assert_eq!(blank.program, "codex");
    assert!(blank.uses_default);
    let given = resolve_agent_binary(&Some(" /opt/codex ".to_string()));
    assert_eq!(given.program, " /opt/codex ");
    assert!(!given.uses_default);
}

#[test]
fn search_path_appends_missing_directories() {
    assert_eq!(
        search_path("/usr/bin:/custom", &None),
        "/usr/bin:/custom:/opt/homebrew/bin:/usr/local/bin:/bin:/usr/sbin:/sbin"
    );
    assert_eq!(
        search_path("", &None),
        "/opt/homebrew/bin:/usr/local/bin:/usr/bin:/bin:/usr/sbin:/sbin"
    );
    assert_eq!(
        search_path("::/bin::", &Some("/home/u".to_string())),
        "/bin:/opt/homebrew/bin:/usr/local/bin:/usr/bin:/usr/sbin:/sbin:/home/u/.local/bin:/home/u/.cargo/bin"
    );
    assert_eq!(
        search_path("/home/u/.cargo/bin", &Some("/home/u".to_string())),
        "/home/u/.cargo/bin:/opt/homebrew/bin:/usr/local/bin:/usr/bin:/bin:/usr/sbin:/sbin:/home/u/.local/bin"
    );
}

#[test]
fn probe_reports_the_version() {
    let r = interpret_probe(ProbeOutcome::Finished(output(true, " codex 1.2.3\n", "warn")));
    assert_eq!(r, Ok(Some("codex 1.2.3".to_string())));
    let empty = interpret_probe(ProbeOutcome::Finished(output(true, " \n", "")));
    assert_eq!(empty, Ok(None));
}

#[test]
fn probe_failures_are_user_actionable() {
    assert_eq!(
        interpret_probe(ProbeOutcome::NotFound),
        Err("Codex CLI not found. Install Codex and ensure `codex` is on your PATH.".to_string())
    );
    assert_eq!(
        interpret_probe(ProbeOutcome::Unrunnable("permission denied".to_string())),
        Err("permission denied".to_string())
    );
    assert_eq!(
        interpret_probe(ProbeOutcome::TimedOut),
        Err("Timed out while checking Codex CLI. Make sure `codex --version` runs in Terminal."
            .to_string())
    );
    assert_eq!(
        interpret_probe(ProbeOutcome::Finished(output(false, "out", " boom \n"))),
        Err("Codex CLI failed to start: boom. Try running `codex --version` in Terminal."
            .to_string())
    );
    assert_eq!(
        interpret_probe(ProbeOutcome::Finished(output(false, " out ", "  "))),
        Err("Codex CLI failed to start: out. Try running `codex --version` in Terminal."
            .to_string())
    );
    assert_eq!(
        interpret_probe(ProbeOutcome::Finished(output(false, "", ""))),
        Err("Codex CLI failed to start. Try running `codex --version` in Terminal.".to_string())
    );
}

#[test]
fn git_output_is_trimmed_and_failures_carry_the_tool_text() {
    assert_eq!(interpret_git(&output(true, " abc\n", "noise")), Ok("abc".to_string()));
    assert_eq!(interpret_git(&output(false, "x", "fatal: bad\n")), Err("fatal: bad".to_string()));
    assert_eq!(interpret_git(&output(false, " only out ", "")), Err("only out".to_string()));
    assert_eq!(interpret_git(&output(false, " ", "\n")), Err("Git command failed.".to_string()));
    assert_eq!(failure_detail(&output(false, "o", "e")), "e");
    assert_eq!(git_unrunnable("No such file"), "Failed to run git: No such file");
}

#[test]
fn worktree_commands_have_the_git_arguments() {
    assert_eq!(
        worktree_add_args(true, "/r/.codex-worktrees/f-x", "f/x"),
        vec!["worktree", "add", "/r/.codex-worktrees/f-x", "f/x"]
    );
    assert_eq!(
        worktree_add_args(false, "/r/.codex-worktrees/f-x", "f/x"),
        vec!["worktree", "add", "-b", "f/x", "/r/.codex-worktrees/f-x"]
    );
    assert_eq!(worktree_remove_args("/p"), vec!["worktree", "remove", "--force", "/p"]);
    assert_eq!(worktree_prune_args(), vec!["worktree", "prune", "--expire", "now"]);
    assert_eq!(branch_exists_args("f/x"), vec!["show-ref", "--verify", "refs/heads/f/x"]);
}

#[test]
fn ignore_rule_is_appended_once() {
    assert_eq!(ignore_rule_addition(""), Some(".codex-worktrees/\n".to_string()));
    assert_eq!(ignore_rule_addition("target\n"), Some(".codex-worktrees/\n".to_string()));
    assert_eq!(ignore_rule_addition("target"), Some("\n.codex-worktrees/\n".to_string()));
    assert_eq!(ignore_rule_addition("a\n  .codex-worktrees/  \nb"), None);
    assert_eq!(ignore_rule_addition("a\r\n.codex-worktrees/\r\n"), None);
    assert_eq!(ignore_rule_addition(".codex-worktrees/"), None);
    assert_eq!(
        ignore_rule_addition(".codex-worktrees"),
        Some("\n.codex-worktrees/\n".to_string())
    );
    for start in ["", "x", "x\n", "# .codex-worktrees/"] {
        let added = ignore_rule_addition(start).unwrap();
        let file = format!("{}{}", start, added);
        assert_eq!(ignore_rule_addition(&file), None, "{:?}", start);
    }
}
