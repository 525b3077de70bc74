use vstd::prelude::*;
use crate::text::{
    concat, holds_text, join, joined_with, option_text, pieces, result_texts, split, texts, trim,
    trimmed,
};

verus! {

/// The program that runs the agent, and whether it is the default one.
pub struct AgentBinary {
    pub program: String,
    pub uses_default: bool,
}

/// The program for an optional override: the override as it is written,
/// unless there is none or it is blank; then `codex`.
pub open spec fn program_for(codex_bin: Option<Seq<char>>) -> (Seq<char>, bool) {
    match codex_bin {
        Some(path) => if trimmed(path).len() == 0 {
            ("codex"@, true)
        } else {
            (path, false)
        },
        None => ("codex"@, true),
    }
}

/// Resolves the agent executable of a workspace.
pub fn resolve_agent_binary(codex_bin: &Option<String>) -> (r: AgentBinary)
    ensures
        (r.program@, r.uses_default) == program_for(option_text(*codex_bin)),
{
    match codex_bin {
        Some(path) => {
            if trim(path.as_str()).as_str().unicode_len() == 0 {
                AgentBinary { program: "codex".to_owned(), uses_default: true }
            } else {
                AgentBinary { program: path.clone(), uses_default: false }
            }
        },
        None => AgentBinary { program: "codex".to_owned(), uses_default: true },
    }
}

/// The directories that are searched for the default program besides those of `PATH`.
pub open spec fn extra_dirs(home: Option<Seq<char>>) -> Seq<Seq<char>> {
    let fixed = seq![
        "/opt/homebrew/bin"@,
        "/usr/local/bin"@,
        "/usr/bin"@,
        "/bin"@,
        "/usr/sbin"@,
        "/sbin"@,
    ];
    match home {
        Some(home) => fixed.push(home + "/.local/bin"@).push(home + "/.cargo/bin"@),
        None => fixed,
    }
}

/// The pieces that are not empty, in order.
pub open spec fn non_empty(parts: Seq<Seq<char>>) -> Seq<Seq<char>> {
    parts.filter(|p: Seq<char>| p.len() > 0)
}

/// `paths` followed by those of `extras` that are not yet in the list, in order.
pub open spec fn with_missing(paths: Seq<Seq<char>>, extras: Seq<Seq<char>>) -> Seq<Seq<char>>
    decreases extras.len(),
{
    if extras.len() == 0 {
        paths
    } else {
        let before = with_missing(paths, extras.drop_last());
        if before.contains(extras.last()) {
            before
        } else {
            before.push(extras.last())
        }
    }
}

/// The search path for the default program: the directories of `PATH`,
/// then each of the extra directories that is not yet in the list, with
/// `:` between them.
pub open spec fn search_path_of(path_var: Seq<char>, home: Option<Seq<char>>) -> Seq<char> {
    joined_with(with_missing(non_empty(pieces(path_var, ':')), extra_dirs(home)), ':')
}

/// The extra directories, as strings.
fn extra_dir_list(home: &Option<String>) -> (r: Vec<String>)
    ensures
        texts(r@) == extra_dirs(option_text(*home)),
{
    let mut r: Vec<String> = Vec::new();
    r.push("/opt/homebrew/bin".to_owned());
    r.push("/usr/local/bin".to_owned());
    r.push("/usr/bin".to_owned());
    r.push("/bin".to_owned());
    r.push("/usr/sbin".to_owned());
    r.push("/sbin".to_owned());
    proof {
        assert(texts(r@) =~= seq![
            "/opt/homebrew/bin"@,
            "/usr/local/bin"@,
            "/usr/bin"@,
            "/bin"@,
            "/usr/sbin"@,
            "/sbin"@,
        ]);
    }
    match home {
        Some(home) => {
            let ghost fixed = texts(r@);
            r.push(concat(home.as_str(), "/.local/bin"));
            r.push(concat(home.as_str(), "/.cargo/bin"));
            proof {
                assert(texts(r@) =~= fixed.push(home@ + "/.local/bin"@).push(
                    home@ + "/.cargo/bin"@,
                ));
            }
        },
        None => {},
    }
    r
}

/// The search path that the default program is started with.
pub fn search_path(path_var: &str, home: &Option<String>) -> (r: String)
    ensures
        r@ == search_path_of(path_var@, option_text(*home)),
{
    let parts = split(path_var, ':');
    let mut paths: Vec<String> = Vec::new();
    let mut i: usize = 0;
    proof {
        reveal(Seq::filter);
        assert(texts(parts@).take(0) =~= Seq::<Seq<char>>::empty());
        assert(texts(paths@) =~= Seq::<Seq<char>>::empty());
    }
    while i < parts.len()
        invariant
            i <= parts.len(),
            texts(paths@) == non_empty(texts(parts@).take(i as int)),
        decreases parts.len() - i,
    {
        let ghost kept = texts(paths@);
        proof {
            reveal(Seq::filter);
            assert(texts(parts@).take(i + 1).drop_last() =~= texts(parts@).take(i as int));
            assert(texts(parts@).take(i + 1).last() == parts@[i as int]@);
        }
        if parts[i].as_str().unicode_len() > 0 {
            paths.push(parts[i].clone());
            assert(texts(paths@) =~= kept.push(parts@[i as int]@));
        }
        i += 1;
    }
    proof {
        assert(texts(parts@).take(parts@.len() as int) =~= texts(parts@));
    }
    let extras = extra_dir_list(home);
    let ghost base = texts(paths@);
    let mut k: usize = 0;
    proof {
        assert(texts(extras@).take(0) =~= Seq::<Seq<char>>::empty());
    }
    while k < extras.len()
        invariant
            k <= extras.len(),
            texts(paths@) == with_missing(base, texts(extras@).take(k as int)),
        decreases extras.len() - k,
    {
        let ghost before = texts(paths@);
        proof {
            assert(texts(extras@).take(k + 1).drop_last() =~= texts(extras@).take(k as int));
            assert(texts(extras@).take(k + 1).last() == extras@[k as int]@);
        }
        if !holds_text(&paths, extras[k].as_str()) {
            paths.push(extras[k].clone());
            assert(texts(paths@) =~= before.push(extras@[k as int]@));
        }
        k += 1;
    }
    proof {
        assert(texts(extras@).take(extras@.len() as int) =~= texts(extras@));
    }
    join(&paths, ':')
}

/// How a command that was run to its end came out.
pub struct CommandOutput {
    pub success: bool,
    pub stdout: String,
    pub stderr: String,
}

/// How the version probe of the agent executable came out.
pub enum ProbeOutcome {
    /// The executable was not found.
    NotFound,
    /// The probe could not be run for another reason, which the text gives.
    Unrunnable(String),
    /// The probe did not end in time.
    TimedOut,
    /// The probe ran to its end.
    Finished(CommandOutput),
}

/// What a failed command said: its trimmed standard error, or, where that
/// is empty, its trimmed standard output.
pub open spec fn detail_of(stdout: Seq<char>, stderr: Seq<char>) -> Seq<char> {
    if trimmed(stderr).len() == 0 {
        trimmed(stdout)
    } else {
        trimmed(stderr)
    }
}

/// What a failed command said.
pub fn failure_detail(output: &CommandOutput) -> (r: String)
    ensures
        r@ == detail_of(output.stdout@, output.stderr@),
{
    let err = trim(output.stderr.as_str());
    if err.as_str().unicode_len() == 0 {
        trim(output.stdout.as_str())
    } else {
        err
    }
}

/// What the probe of the agent executable means: the version that it
/// printed, if any, or what the user is told when the executable cannot be used.
pub open spec fn probe_result(outcome: ProbeOutcome) -> Result<Option<Seq<char>>, Seq<char>> {
    match outcome {
        ProbeOutcome::NotFound => Err(
            "Codex CLI not found. Install Codex and ensure `codex` is on your PATH."@,
        ),
        ProbeOutcome::Unrunnable(reason) => Err(reason@),
        ProbeOutcome::TimedOut => Err(
            "Timed out while checking Codex CLI. Make sure `codex --version` runs in Terminal."@,
        ),
        ProbeOutcome::Finished(output) => if output.success {
            if trimmed(output.stdout@).len() == 0 {
                Ok(None)
            } else {
                Ok(Some(trimmed(output.stdout@)))
            }
        } else if detail_of(output.stdout@, output.stderr@).len() == 0 {
            Err("Codex CLI failed to start. Try running `codex --version` in Terminal."@)
        } else {
            Err(
                "Codex CLI failed to start: "@ + detail_of(output.stdout@, output.stderr@)
                    + ". Try running `codex --version` in Terminal."@,
            )
        },
    }
}

/// The characters of the result of a probe.
pub open spec fn probe_texts(r: Result<Option<String>, String>) -> Result<
    Option<Seq<char>>,
    Seq<char>,
> {
    match r {
        Ok(version) => Ok(option_text(version)),
        Err(text) => Err(text@),
    }
}

/// Says what the probe of the agent executable means.
pub fn interpret_probe(outcome: ProbeOutcome) -> (r: Result<Option<String>, String>)
    ensures
        probe_texts(r) == probe_result(outcome),
{
    match outcome {
        ProbeOutcome::NotFound => Err(
            "Codex CLI not found. Install Codex and ensure `codex` is on your PATH.".to_owned(),
        ),
        ProbeOutcome::Unrunnable(reason) => Err(reason),
        ProbeOutcome::TimedOut => Err(
            "Timed out while checking Codex CLI. Make sure `codex --version` runs in Terminal.".to_owned(),
        ),
        ProbeOutcome::Finished(output) => {
            if output.success {
                let version = trim(output.stdout.as_str());
                if version.as_str().unicode_len() == 0 {
                    Ok(None)
                } else {
                    Ok(Some(version))
                }
            } else {
                let detail = failure_detail(&output);
                if detail.as_str().unicode_len() == 0 {
                    Err(
                        "Codex CLI failed to start. Try running `codex --version` in Terminal.".to_owned(),
                    )
                } else {
                    let head = concat("Codex CLI failed to start: ", detail.as_str());
                    Err(concat(head.as_str(), ". Try running `codex --version` in Terminal."))
                }
            }
        },
    }
}

/// What a finished git command means: its trimmed output, or what it said
/// when it failed.
pub open spec fn git_result(output: CommandOutput) -> Result<Seq<char>, Seq<char>> {
    if output.success {
        Ok(trimmed(output.stdout@))
    } else if detail_of(output.stdout@, output.stderr@).len() == 0 {
        Err("Git command failed."@)
    } else {
        Err(detail_of(output.stdout@, output.stderr@))
    }
}

/// Says what a finished git command means.
pub fn interpret_git(output: &CommandOutput) -> (r: Result<String, String>)
    ensures
        result_texts(r) == git_result(*output),
{
    if output.success {
        Ok(trim(output.stdout.as_str()))
    } else {
        let detail = failure_detail(output);
        if detail.as_str().unicode_len() == 0 {
            Err("Git command failed.".to_owned())
        } else {
            Err(detail)
        }
    }
}

/// What is said when git could not be run at all.
pub fn git_unrunnable(reason: &str) -> (r: String)
    ensures
        r@ == "Failed to run git: "@ + reason@,
{
    concat("Failed to run git: ", reason)
}

/// The arguments that ask git whether a local branch exists.
pub fn branch_exists_args(branch: &str) -> (r: Vec<String>)
    ensures
        texts(r@) == seq!["show-ref"@, "--verify"@, "refs/heads/"@ + branch@],
{
    let mut r: Vec<String> = Vec::new();
    r.push("show-ref".to_owned());
    r.push("--verify".to_owned());
    r.push(concat("refs/heads/", branch));
    assert(texts(r@) =~= seq!["show-ref"@, "--verify"@, "refs/heads/"@ + branch@]);
    r
}

/// The arguments that make a worktree at `path`: for a branch that exists,
/// a checkout of it; for one that does not, a new branch.
pub open spec fn worktree_add(branch_exists: bool, path: Seq<char>, branch: Seq<char>) -> Seq<
    Seq<char>,
> {
    if branch_exists {
        seq!["worktree"@, "add"@, path, branch]
    } else {
        seq!["worktree"@, "add"@, "-b"@, branch, path]
    }
}

/// The arguments that make a worktree at `path` for `branch`.
pub fn worktree_add_args(branch_exists: bool, path: &str, branch: &str) -> (r: Vec<String>)
    ensures
        texts(r@) == worktree_add(branch_exists, path@, branch@),
{
    let mut r: Vec<String> = Vec::new();
    r.push("worktree".to_owned());
    r.push("add".to_owned());
    if branch_exists {
        r.push(path.to_owned());
        r.push(branch.to_owned());
        assert(texts(r@) =~= seq!["worktree"@, "add"@, path@, branch@]);
    } else {
        r.push("-b".to_owned());
        r.push(branch.to_owned());
        r.push(path.to_owned());
        assert(texts(r@) =~= seq!["worktree"@, "add"@, "-b"@, branch@, path@]);
    }
    r
}

/// The arguments that remove the worktree at `path`, by force.
pub fn worktree_remove_args(path: &str) -> (r: Vec<String>)
    ensures
        texts(r@) == seq!["worktree"@, "remove"@, "--force"@, path@],
{
    let mut r: Vec<String> = Vec::new();
    r.push("worktree".to_owned());
    r.push("remove".to_owned());
    r.push("--force".to_owned());
    r.push(path.to_owned());
    assert(texts(r@) =~= seq!["worktree"@, "remove"@, "--force"@, path@]);
    r
}

/// The arguments that prune the records of worktrees that are gone.
pub fn worktree_prune_args() -> (r: Vec<String>)
    ensures
        texts(r@) == seq!["worktree"@, "prune"@, "--expire"@, "now"@],
{
    let mut r: Vec<String> = Vec::new();
    r.push("worktree".to_owned());
    r.push("prune".to_owned());
    r.push("--expire".to_owned());
    r.push("now".to_owned());
    assert(texts(r@) =~= seq!["worktree"@, "prune"@, "--expire"@, "now"@]);
    r
}

} // verus!
