//! The command layer: which `git` invocations the browser makes, and what it
//! reads from their outcome. Nothing here runs a process. A function that
//! needs `git` takes the outcomes obtained so far and answers with the next
//! invocation to run, or with its result once it has all it needs.

use crate::text::{trim, trimmed, views};
use vstd::prelude::*;
use vstd::string::StringExecFns;

verus! {

/// One invocation of `git`: the directory to run it in, its arguments, and
/// the command line that its standard output is piped through, if any.
#[derive(Debug, Clone, PartialEq, Eq)]
pub struct GitCommand {
    pub dir: String,
    pub args: Vec<String>,
    pub pipe: Option<Vec<String>>,
}

/// A `GitCommand` as plain sequences.
pub struct CommandModel {
    pub dir: Seq<char>,
    pub args: Seq<Seq<char>>,
    pub pipe: Option<Seq<Seq<char>>>,
}

impl View for GitCommand {
    type V = CommandModel;

    open spec fn view(&self) -> CommandModel {
        CommandModel {
            dir: self.dir@,
            args: views(self.args@),
            pipe: match self.pipe {
                Some(p) => Some(views(p@)),
                None => None,
            },
        }
    }
}

/// What running a `GitCommand` came to. It could not be launched; or it ran
/// alone and exited; or it ran with its standard output piped through
/// another command, and both exited. Of a piped command the `source_` fields
/// are the exit of `git`, whose standard output went into the pipe, and the
/// others the exit of the command behind the pipe.
#[derive(Debug, Clone, PartialEq, Eq)]
pub enum Outcome {
    NotLaunched(String),
    Exited { success: bool, code: Option<i32>, stdout: String, stderr: String },
    Piped {
        source_success: bool,
        source_code: Option<i32>,
        source_stderr: String,
        success: bool,
        code: Option<i32>,
        stdout: String,
        stderr: String,
    },
}

/// An `Outcome` as plain sequences.
pub enum OutcomeModel {
    NotLaunched(Seq<char>),
    Exited { success: bool, code: Option<i32>, stdout: Seq<char>, stderr: Seq<char> },
    Piped {
        source_success: bool,
        source_code: Option<i32>,
        source_stderr: Seq<char>,
        success: bool,
        code: Option<i32>,
        stdout: Seq<char>,
        stderr: Seq<char>,
    },
}

impl View for Outcome {
    type V = OutcomeModel;

    open spec fn view(&self) -> OutcomeModel {
        match *self {
            Outcome::NotLaunched(message) => OutcomeModel::NotLaunched(message@),
            Outcome::Exited { success, code, stdout, stderr } => OutcomeModel::Exited {
                success,
                code,
                stdout: stdout@,
                stderr: stderr@,
            },
            Outcome::Piped {
                source_success,
                source_code,
                source_stderr,
                success,
                code,
                stdout,
                stderr,
            } => OutcomeModel::Piped {
                source_success,
                source_code,
                source_stderr: source_stderr@,
                success,
                code,
                stdout: stdout@,
                stderr: stderr@,
            },
        }
    }
}

/// Why a command gave no output to read: it failed to launch, with the
/// system's message, or it exited with a failure, with its exit code and all
/// the text it wrote.
#[derive(Debug, Clone, PartialEq, Eq)]
pub enum GitCommandError {
    ExecCommand(String),
    ExitCode(i32, String),
}

/// A `GitCommandError` as plain sequences.
pub enum FailureModel {
    ExecCommand(Seq<char>),
    ExitCode(i32, Seq<char>),
}

impl View for GitCommandError {
    type V = FailureModel;

    open spec fn view(&self) -> FailureModel {
        match *self {
            GitCommandError::ExecCommand(message) => FailureModel::ExecCommand(message@),
            GitCommandError::ExitCode(code, output) => FailureModel::ExitCode(code, output@),
        }
    }
}

/// What a function that needs `git` answers: the invocation it needs run
/// next, or its result.
#[derive(Debug, Clone, PartialEq, Eq)]
pub enum Step<T> {
    Run(GitCommand),
    Done(T),
}

/// A `Step` with its invocation as plain sequences.
pub enum StepModel<T> {
    Run(CommandModel),
    Done(T),
}

impl<T> Step<T> {
    /// The step with its invocation as plain sequences and its result as it is.
    pub open spec fn model(self) -> StepModel<T> {
        match self {
            Step::Run(command) => StepModel::Run(command@),
            Step::Done(result) => StepModel::Done(result),
        }
    }
}

/// The outcomes obtained so far, as plain sequences.
pub open spec fn models(replies: Seq<Outcome>) -> Seq<OutcomeModel> {
    replies.map_values(|o: Outcome| o@)
}

/// The result of reading an outcome, as plain sequences.
pub open spec fn result_model(r: Result<String, GitCommandError>) -> Result<
    Seq<char>,
    FailureModel,
> {
    match r {
        Ok(text) => Ok(text@),
        Err(e) => Err(e@),
    }
}

/// The exit code that a failure reports: the one the process gave, or -1
/// where it gave none.
pub open spec fn exit_code(code: Option<i32>) -> i32 {
    match code {
        Some(c) => c,
        None => -1i32,
    }
}

/// What the exit of one process gives to read: its standard output if it
/// succeeded; else the failure, with its exit code and what it wrote to
/// standard output followed by what it wrote to standard error.
pub open spec fn read_exit(
    success: bool,
    code: Option<i32>,
    stdout: Seq<char>,
    stderr: Seq<char>,
) -> Result<Seq<char>, FailureModel> {
    if success {
        Ok(stdout)
    } else {
        Err(FailureModel::ExitCode(exit_code(code), stdout + stderr))
    }
}

/// What an outcome gives to read. A command that was not launched gives
/// that failure. A command that ran alone gives what its exit gives. A
/// piped command whose `git` failed gives that failure, with what `git`
/// wrote to standard error, whatever the command behind the pipe made of
/// its output; else it gives what the exit of the command behind the pipe
/// gives.
pub open spec fn read_output(o: OutcomeModel) -> Result<Seq<char>, FailureModel> {
    match o {
        OutcomeModel::NotLaunched(message) => Err(FailureModel::ExecCommand(message)),
        OutcomeModel::Exited { success, code, stdout, stderr } => read_exit(
            success,
            code,
            stdout,
            stderr,
        ),
        OutcomeModel::Piped {
            source_success,
            source_code,
            source_stderr,
            success,
            code,
            stdout,
            stderr,
        } => if source_success {
            read_exit(success, code, stdout, stderr)
        } else {
            Err(FailureModel::ExitCode(exit_code(source_code), source_stderr))
        },
    }
}

/// Whether an outcome gives output to read.
pub open spec fn succeeded(o: OutcomeModel) -> bool {
    read_output(o) is Ok
}

/// `git <args>` run in `dir`.
pub open spec fn exec_command(dir: Seq<char>, args: Seq<Seq<char>>) -> CommandModel {
    CommandModel { dir, args, pipe: None }
}

/// `git <args> | <pipe>` run in `dir`.
pub open spec fn pipe_command(
    pipe: Seq<Seq<char>>,
    dir: Seq<char>,
    args: Seq<Seq<char>>,
) -> CommandModel {
    CommandModel { dir, args, pipe: Some(pipe) }
}

pub open spec fn stash_args() -> Seq<Seq<char>> {
    seq!["stash"@, "-u"@]
}

pub open spec fn unstash_args() -> Seq<Seq<char>> {
    seq!["stash"@, "apply"@]
}

pub open spec fn reset_args(commit: Seq<char>) -> Seq<Seq<char>> {
    seq!["reset"@, "--hard"@, commit]
}

pub open spec fn rev_parse_args(rev: Seq<char>) -> Seq<Seq<char>> {
    seq!["rev-parse"@, "--short"@, rev]
}

/// The short hash that the outcome of `rev-parse` gives: its output without
/// the whitespace around it.
pub open spec fn read_short_sha(o: OutcomeModel) -> Result<Seq<char>, FailureModel> {
    match read_output(o) {
        Ok(text) => Ok(trimmed(text)),
        Err(e) => Err(e),
    }
}

impl GitCommandError {
    /// A short description of the failure.
    pub fn description(&self) -> (text: String)
        ensures
            text@ == match self@ {
                FailureModel::ExecCommand(message) => message,
                FailureModel::ExitCode(_, _) => "Exit code indicated error"@,
            },
    {
        match self {
            GitCommandError::ExecCommand(message) => message.clone(),
            GitCommandError::ExitCode(_, _) => "Exit code indicated error".to_owned(),
        }
    }
}

/// Reads the exit of one process.
fn read_one(success: bool, code: &Option<i32>, stdout: &String, stderr: &String) -> (r: Result<
    String,
    GitCommandError,
>)
    ensures
        result_model(r) == read_exit(success, *code, stdout@, stderr@),
{
    if success {
        Ok(stdout.clone())
    } else {
        let exit: i32 = match code {
            Some(c) => *c,
            None => -1,
        };
        let mut output = stdout.clone();
        output.append(stderr.as_str());
        Err(GitCommandError::ExitCode(exit, output))
    }
}

impl Outcome {
    /// Reads the outcome: the output of a command that succeeded, else the
    /// failure.
    pub fn read(&self) -> (r: Result<String, GitCommandError>)
        ensures
            result_model(r) == read_output(self@),
    {
        match self {
            Outcome::NotLaunched(message) => Err(GitCommandError::ExecCommand(message.clone())),
            Outcome::Exited { success, code, stdout, stderr } => read_one(
                *success,
                code,
                stdout,
                stderr,
            ),
            Outcome::Piped {
                source_success,
                source_code,
                source_stderr,
                success,
                code,
                stdout,
                stderr,
            } => {
                if *source_success {
                    read_one(*success, code, stdout, stderr)
                } else {
                    let exit: i32 = match source_code {
                        Some(c) => *c,
                        None => -1,
                    };
                    Err(GitCommandError::ExitCode(exit, source_stderr.clone()))
                }
            },
        }
    }
}

/// Runs `git <args>` in `dir` and reads its outcome.
pub fn git_exec(dir: &str, args: Vec<String>, replies: &[Outcome]) -> (step: Step<
    Result<String, GitCommandError>,
>)
    ensures
        match step {
            Step::Run(command) => replies@.len() == 0 && command@ == exec_command(
                dir@,
                views(args@),
            ),
            Step::Done(r) => replies@.len() > 0 && result_model(r) == read_output(replies@[0]@),
        },
{
    if replies.len() == 0 {
        Step::Run(GitCommand { dir: dir.to_owned(), args, pipe: None })
    } else {
        Step::Done(replies[0].read())
    }
}

/// Runs `git <args>` in `dir` with its standard output piped through the
/// command line `pipe`, and reads the outcome of the latter.
pub fn git_pipe(pipe: Vec<String>, dir: &str, args: Vec<String>, replies: &[Outcome]) -> (step:
    Step<Result<String, GitCommandError>>)
    ensures
        match step {
            Step::Run(command) => replies@.len() == 0 && command@ == pipe_command(
                views(pipe@),
                dir@,
                views(args@),
            ),
            Step::Done(r) => replies@.len() > 0 && result_model(r) == read_output(replies@[0]@),
        },
{
    if replies.len() == 0 {
        Step::Run(GitCommand { dir: dir.to_owned(), args, pipe: Some(pipe) })
    } else {
        Step::Done(replies[0].read())
    }
}

/// `git stash -u`: puts the pending changes away, untracked files included.
pub fn stash(dir: &str, replies: &[Outcome]) -> (step: Step<Result<String, GitCommandError>>)
    ensures
        match step {
            Step::Run(command) => replies@.len() == 0 && command@ == exec_command(
                dir@,
                stash_args(),
            ),
            Step::Done(r) => replies@.len() > 0 && result_model(r) == read_output(replies@[0]@),
        },
{
    let mut args: Vec<String> = Vec::new();
    args.push("stash".to_owned());
    args.push("-u".to_owned());
    assert(views(args@) == stash_args());
    git_exec(dir, args, replies)
}

/// `git stash apply`: brings the changes last put away back, and keeps them
/// in the stash.
pub fn unstash(dir: &str, replies: &[Outcome]) -> (step: Step<Result<String, GitCommandError>>)
    ensures
        match step {
            Step::Run(command) => replies@.len() == 0 && command@ == exec_command(
                dir@,
                unstash_args(),
            ),
            Step::Done(r) => replies@.len() > 0 && result_model(r) == read_output(replies@[0]@),
        },
{
    let mut args: Vec<String> = Vec::new();
    args.push("stash".to_owned());
    args.push("apply".to_owned());
    assert(views(args@) == unstash_args());
    git_exec(dir, args, replies)
}

/// `git reset --hard <commit>`: moves the working tree to `commit`.
pub fn reset(dir: &str, commit: &str, replies: &[Outcome]) -> (step: Step<
    Result<String, GitCommandError>,
>)
    ensures
        match step {
            Step::Run(command) => replies@.len() == 0 && command@ == exec_command(
                dir@,
                reset_args(commit@),
            ),
            Step::Done(r) => replies@.len() > 0 && result_model(r) == read_output(replies@[0]@),
        },
{
    let mut args: Vec<String> = Vec::new();
    args.push("reset".to_owned());
    args.push("--hard".to_owned());
    args.push(commit.to_owned());
    assert(views(args@) == reset_args(commit@));
    git_exec(dir, args, replies)
}

/// `git rev-parse --short <rev>`: the short hash of `rev`, without the
/// whitespace around it.
pub fn get_rev_short_sha(dir: &str, rev: &str, replies: &[Outcome]) -> (step: Step<
    Result<String, GitCommandError>,
>)
    ensures
        match step {
            Step::Run(command) => replies@.len() == 0 && command@ == exec_command(
                dir@,
                rev_parse_args(rev@),
            ),
            Step::Done(r) => replies@.len() > 0 && result_model(r) == read_short_sha(
                replies@[0]@,
            ),
        },
{
    let mut args: Vec<String> = Vec::new();
    args.push("rev-parse".to_owned());
    args.push("--short".to_owned());
    args.push(rev.to_owned());
    assert(views(args@) == rev_parse_args(rev@));
    match git_exec(dir, args, replies) {
        Step::Run(command) => Step::Run(command),
        Step::Done(Ok(text)) => Step::Done(Ok(trim(text.as_str()))),
        Step::Done(Err(e)) => Step::Done(Err(e)),
    }
}

} // verus!
