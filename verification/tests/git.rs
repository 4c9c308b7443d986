use git_history::git::{
    get_rev_short_sha, git_exec, git_pipe, reset, stash, unstash, GitCommand, GitCommandError,
    Outcome, Step,
};

fn strings(items: &[&str]) -> Vec<String> {
    items.iter().map(|s| s.to_string()).collect()
}

fn wrote(stdout: &str) -> Outcome {
    Outcome::Exited { success: true, code: Some(0), stdout: stdout.to_string(), stderr: String::new() }
}

fn failed(code: Option<i32>, stdout: &str, stderr: &str) -> Outcome {
    Outcome::Exited { success: false, code, stdout: stdout.to_string(), stderr: stderr.to_string() }
}

fn plain(dir: &str, args: &[&str]) -> GitCommand {
    GitCommand { dir: dir.to_string(), args: strings(args), pipe: None }
}

#[test]
fn git_exec_asks_for_the_command_first() {
    let step = git_exec("/repo", strings(&["status", "-s"]), &[]);
    assert_eq!(step, Step::Run(plain("/repo", &["status", "-s"])));
}

#[test]
fn git_exec_reads_the_output_of_a_success() {
    let step = git_exec("/repo", strings(&["status"]), &[wrote(" M a.rs\n")]);
    assert_eq!(step, Step::Done(Ok(" M a.rs\n".to_string())));
}

#[test]
fn git_exec_reports_exit_code_and_all_output() {
    let step = git_exec("/repo", strings(&["status"]), &[failed(Some(128), "out", "fatal: no")]);
    assert_eq!(step, Step::Done(Err(GitCommandError::ExitCode(128, "outfatal: no".to_string()))));
}

#[test]
fn git_exec_counts_a_missing_exit_code_as_minus_one() {
    let step = git_exec("/repo", strings(&["status"]), &[failed(None, "", "killed")]);
    assert_eq!(step, Step::Done(Err(GitCommandError::ExitCode(-1, "killed".to_string()))));
}

#[test]
fn git_exec_reports_a_failed_launch() {
    let step = git_exec("/repo", strings(&["status"]), &[Outcome::NotLaunched("No such file".to_string())]);
    assert_eq!(step, Step::Done(Err(GitCommandError::ExecCommand("No such file".to_string()))));
}

#[test]
fn git_exec_reads_only_the_first_outcome() {
    let step = git_exec("/repo", strings(&["status"]), &[wrote("first"), wrote("second")]);
    assert_eq!(step, Step::Done(Ok("first".to_string())));
}

#[test]
fn git_pipe_asks_for_the_piped_command() {
    let step = git_pipe(strings(&["wc", "-l"]), "/repo", strings(&["log"]), &[]);
    assert_eq!(
        step,
        Step::Run(GitCommand {
            dir: "/repo".to_string(),
            args: strings(&["log"]),
            pipe: Some(strings(&["wc", "-l"])),
        })
    );
}

#[test]
fn git_pipe_reads_the_outcome_like_git_exec() {
    let ok = git_pipe(strings(&["wc", "-l"]), "/repo", strings(&["log"]), &[wrote("3\n")]);
    assert_eq!(ok, Step::Done(Ok("3\n".to_string())));
    let bad = git_pipe(strings(&["wc", "-l"]), "/repo", strings(&["log"]), &[failed(Some(1), "a", "b")]);
    assert_eq!(bad, Step::Done(Err(GitCommandError::ExitCode(1, "ab".to_string()))));
}

#[test]
fn stash_includes_untracked_files() {
    assert_eq!(stash("/repo", &[]), Step::Run(plain("/repo", &["stash", "-u"])));
    assert_eq!(stash("/repo", &[wrote("Saved")]), Step::Done(Ok("Saved".to_string())));
}

#[test]
fn unstash_applies_without_dropping() {
    assert_eq!(unstash("/repo", &[]), Step::Run(plain("/repo", &["stash", "apply"])));
    assert_eq!(
        unstash("/repo", &[failed(Some(1), "", "No stash entries found.")]),
        Step::Done(Err(GitCommandError::ExitCode(1, "No stash entries found.".to_string())))
    );
}

#[test]
fn reset_is_hard_and_names_the_commit() {
    assert_eq!(reset("/repo", "abc123", &[]), Step::Run(plain("/repo", &["reset", "--hard", "abc123"])));
    assert_eq!(reset("/repo", "abc123", &[wrote("HEAD is now at abc123")]), Step::Done(Ok("HEAD is now at abc123".to_string())));
}

#[test]
fn get_rev_short_sha_asks_rev_parse() {
    assert_eq!(
        get_rev_short_sha("/repo", "HEAD", &[]),
        Step::Run(plain("/repo", &["rev-parse", "--short", "HEAD"]))
    );
}

#[test]
fn get_rev_short_sha_trims_the_hash() {
    assert_eq!(get_rev_short_sha("/repo", "HEAD", &[wrote("abc123\n")]), Step::Done(Ok("abc123".to_string())));
    assert_eq!(get_rev_short_sha("/repo", "HEAD", &[wrote("  abc123 \r\n")]), Step::Done(Ok("abc123".to_string())));
}

#[test]
fn get_rev_short_sha_hands_a_failure_on() {
    assert_eq!(
        get_rev_short_sha("/nowhere", "HEAD", &[failed(Some(128), "", "fatal: not a git repository\n")]),
        Step::Done(Err(GitCommandError::ExitCode(128, "fatal: not a git repository\n".to_string())))
    );
    assert_eq!(
        get_rev_short_sha("/nowhere", "HEAD", &[Outcome::NotLaunched("git: not found".to_string())]),
        Step::Done(Err(GitCommandError::ExecCommand("git: not found".to_string())))
    );
}

#[test]
fn outcome_read_gives_output_or_failure() {
    assert_eq!(wrote("x").read(), Ok("x".to_string()));
    assert_eq!(failed(Some(2), "o", "e").read(), Err(GitCommandError::ExitCode(2, "oe".to_string())));
}

#[test]
fn description_names_the_kind_of_failure() {
    assert_eq!(GitCommandError::ExitCode(1, "whatever".to_string()).description(), "Exit code indicated error");
    assert_eq!(GitCommandError::ExecCommand("No such file".to_string()).description(), "No such file");
}

#[test]
fn a_piped_outcome_fails_when_git_failed() {
    let outcome = Outcome::Piped {
        source_success: false,
        source_code: None,
        source_stderr: "fatal: not a git repository".to_string(),
        success: true,
        code: Some(0),
        stdout: "0\n".to_string(),
        stderr: String::new(),
    };
    let step = git_pipe(strings(&["wc", "-l"]), "/repo", strings(&["log"]), &[outcome]);
    assert_eq!(step, Step::Done(Err(GitCommandError::ExitCode(-1, "fatal: not a git repository".to_string()))));
}

#[test]
fn a_piped_outcome_gives_the_output_behind_the_pipe() {
    let outcome = Outcome::Piped {
        source_success: true,
        source_code: Some(0),
        source_stderr: "warning: ignored".to_string(),
        success: true,
        code: Some(0),
        stdout: "7\n".to_string(),
        stderr: String::new(),
    };
    let step = git_pipe(strings(&["wc", "-l"]), "/repo", strings(&["log"]), &[outcome]);
    assert_eq!(step, Step::Done(Ok("7\n".to_string())));
}

#[test]
fn a_piped_outcome_fails_when_the_command_behind_the_pipe_failed() {
    let outcome = Outcome::Piped {
        source_success: true,
        source_code: Some(0),
        source_stderr: String::new(),
        success: false,
        code: Some(2),
        stdout: "x".to_string(),
        stderr: "y".to_string(),
    };
    assert_eq!(outcome.read(), Err(GitCommandError::ExitCode(2, "xy".to_string())));
}
