//! External commands: what to spawn, and what their outcome means.
//!
//! Nothing here spawns a process. [`run`] and its companions return a request
//! that holds the command; whoever spawns it hands the outcome back to `finish`.
//! [`pipe`] returns a [`Pipeline`], which says step by step what to do next.

use vstd::prelude::*;
use vstd::utf8::{decode_utf8, valid_utf8};

use crate::number::{decimal, decimal_int, decimal_text, signed_text};
use crate::text::{joined, lossy, lossy_text, strict, texts, trim, trimmed, utf8_fault};

verus! {

broadcast use vstd::string::group_string_axioms;

/// A program with its arguments, and the variables that are set on top of the
/// inherited environment.
#[derive(Debug)]
pub struct Command {
    pub program: String,
    pub args: Vec<String>,
    pub env: Vec<(String, String)>,
}

/// The text of a [`Command`].
#[verifier::ext_equal]
pub struct CommandView {
    pub program: Seq<char>,
    pub args: Seq<Seq<char>>,
    pub env: Seq<(Seq<char>, Seq<char>)>,
}

/// The text of a list of variables.
pub open spec fn env_texts(env: Seq<(String, String)>) -> Seq<(Seq<char>, Seq<char>)> {
    env.map_values(|p: (String, String)| (p.0@, p.1@))
}

/// The text of a list of borrowed arguments.
pub open spec fn arg_texts(args: Seq<&str>) -> Seq<Seq<char>> {
    args.map_values(|a: &str| a@)
}

/// The text of a list of borrowed variables.
pub open spec fn var_texts(env: Seq<(&str, &str)>) -> Seq<(Seq<char>, Seq<char>)> {
    env.map_values(|p: (&str, &str)| (p.0@, p.1@))
}

impl View for Command {
    type V = CommandView;

    open spec fn view(&self) -> CommandView {
        CommandView { program: self.program@, args: texts(self.args@), env: env_texts(self.env@) }
    }
}

impl Command {
    /// Puts a command together.
    pub fn new(program: &str, args: &[&str], env: &[(&str, &str)]) -> (r: Command)
        ensures
            r@ == (CommandView { program: program@, args: arg_texts(args@), env: var_texts(env@) }),
    {
        let mut own_args: Vec<String> = Vec::new();
        let mut i: usize = 0;
        while i < args.len()
            invariant
                i <= args@.len(),
                texts(own_args@) == arg_texts(args@).take(i as int),
            decreases args@.len() - i,
        {
            let arg = args[i].to_owned();
            assert(texts(own_args@.push(arg)) =~= texts(own_args@).push(arg@));
            own_args.push(arg);
            assert(arg_texts(args@).take(i + 1) =~= arg_texts(args@).take(i as int).push(args@[i as int]@));
            i += 1;
        }
        let mut own_env: Vec<(String, String)> = Vec::new();
        let mut k: usize = 0;
        while k < env.len()
            invariant
                k <= env@.len(),
                env_texts(own_env@) == var_texts(env@).take(k as int),
            decreases env@.len() - k,
        {
            let pair = (env[k].0.to_owned(), env[k].1.to_owned());
            assert(env_texts(own_env@.push(pair)) =~= env_texts(own_env@).push((pair.0@, pair.1@)));
            own_env.push(pair);
            assert(var_texts(env@).take(k + 1) =~= var_texts(env@).take(k as int).push(
                (env@[k as int].0@, env@[k as int].1@),
            ));
            k += 1;
        }
        assert(arg_texts(args@).take(i as int) =~= arg_texts(args@));
        assert(var_texts(env@).take(k as int) =~= var_texts(env@));
        Command { program: program.to_owned(), args: own_args, env: own_env }
    }
}

/// How a process ended: with a code of its own, or by a signal.
#[derive(Debug, PartialEq, Eq, Structural, Clone, Copy)]
pub struct ExitStatus {
    pub code: Option<i32>,
    pub signal: Option<i32>,
}

impl ExitStatus {
    /// Success is a zero exit code; a signal is never a success.
    pub open spec fn ok(self) -> bool {
        self.code == Some(0i32)
    }

    /// Whether the process succeeded.
    pub fn success(&self) -> (r: bool)
        ensures
            r == self.ok(),
            r == (self.code == Some(0i32)),
    {
        match self.code {
            Some(c) => c == 0,
            None => false,
        }
    }

    /// The status in words.
    pub open spec fn text(self) -> Seq<char> {
        match (self.code, self.signal) {
            (Some(code), _) => "status "@ + decimal_int(code as int),
            (None, Some(signal)) => "signal "@ + decimal_int(signal as int),
            (None, None) => "status -1"@,
        }
    }
}

/// Returns a human-readable exit status string.
///
/// If the process exited normally, returns `"status <code>"`.
/// If the process was terminated by a signal, returns `"signal <number>"`.
/// Falls back to `"status -1"` if neither is available.
pub fn exit_code_or_signal(status: &ExitStatus) -> (r: String)
    ensures
        r@ == status.text(),
{
    if let Some(code) = status.code {
        return joined("status ", signed_text(code).as_str());
    }
    if let Some(signal) = status.signal {
        return joined("signal ", signed_text(signal).as_str());
    }
    "status -1".to_owned()
}

/// What a finished process left behind.
#[derive(Debug)]
pub struct Output {
    pub status: ExitStatus,
    pub stdout: Vec<u8>,
    pub stderr: Vec<u8>,
}

/// The outcome of spawning a command and waiting for it.
#[derive(Debug)]
pub enum Outcome {
    /// The process could not be spawned, for the reason given.
    NotSpawned(String),
    /// The process ran to its end.
    Exited(Output),
}

/// Why a command or a pipeline failed.
#[derive(Debug)]
pub enum CommandError {
    /// The program could not be spawned.
    Spawn { program: String, cause: String },
    /// The program did not exit with status 0.
    Exit { program: String, status: ExitStatus, stderr: Vec<u8> },
    /// The program wrote something else than UTF-8.
    NotUtf8 { program: String, cause: String },
    /// A pipeline needs two steps.
    TooFewSteps { steps: usize },
    /// The output of this pipeline step was not there to be piped on.
    NoStdout { step: usize },
    /// A pipeline step could not be spawned.
    StepSpawn { program: String, step: usize, cause: String },
    /// A pipeline step could not be waited for.
    StepWait { program: String, step: usize, cause: String },
    /// A pipeline step did not exit with status 0.
    StepExit { program: String, step: usize, status: ExitStatus, stderr: Vec<u8> },
}

/// What the process wrote to stderr, as it is shown in a message.
pub open spec fn shown(stderr: Seq<u8>) -> Seq<char> {
    trim(lossy_text(stderr))
}

/// `program` between single quotes.
pub open spec fn in_quotes(program: Seq<char>) -> Seq<char> {
    "'"@ + program + "'"@
}

impl CommandError {
    /// The message of the error, with its cause behind a colon.
    pub open spec fn text(self) -> Seq<char> {
        match self {
            CommandError::Spawn { program, cause } => "failed to spawn "@ + in_quotes(program@) + ": "@ + cause@,
            CommandError::Exit { program, status, stderr } => in_quotes(program@) + " exited with "@
                + status.text() + ": "@ + shown(stderr@),
            CommandError::NotUtf8 { program, cause } => "stdout of "@ + in_quotes(program@) + " is not valid UTF-8: "@
                + cause@,
            CommandError::TooFewSteps { steps } => "pipe requires at least two steps, got "@ + decimal(
                steps as nat,
            ),
            CommandError::NoStdout { step } => "failed to obtain stdout from step "@ + decimal(step as nat),
            CommandError::StepSpawn { program, step, cause } => "failed to spawn "@ + in_quotes(program@)
                + " at pipeline step "@ + decimal(step as nat) + ": "@ + cause@,
            CommandError::StepWait { program, step, cause } => "failed to wait for "@ + in_quotes(program@)
                + " at pipeline step "@ + decimal(step as nat) + ": "@ + cause@,
            CommandError::StepExit { program, step, status, stderr } => "pipeline step "@ + decimal(step as nat)
                + " ("@ + in_quotes(program@) + ") exited with "@ + status.text() + ": "@ + shown(stderr@),
        }
    }

    /// Returns the message of the error.
    pub fn message(&self) -> (r: String)
        ensures
            r@ == self.text(),
    {
        let mut out = String::new();
        match self {
            CommandError::Spawn { program, cause } => {
                out.append("failed to spawn ");
                out.append(quote(program.as_str()).as_str());
                out.append(": ");
                out.append(cause.as_str());
            },
            CommandError::Exit { program, status, stderr } => {
                out.append(quote(program.as_str()).as_str());
                out.append(" exited with ");
                out.append(exit_code_or_signal(status).as_str());
                out.append(": ");
                out.append(show(stderr).as_str());
            },
            CommandError::NotUtf8 { program, cause } => {
                out.append("stdout of ");
                out.append(quote(program.as_str()).as_str());
                out.append(" is not valid UTF-8: ");
                out.append(cause.as_str());
            },
            CommandError::TooFewSteps { steps } => {
                out.append("pipe requires at least two steps, got ");
                out.append(decimal_text(*steps as u64).as_str());
            },
            CommandError::NoStdout { step } => {
                out.append("failed to obtain stdout from step ");
                out.append(decimal_text(*step as u64).as_str());
            },
            CommandError::StepSpawn { program, step, cause } => {
                out.append("failed to spawn ");
                out.append(quote(program.as_str()).as_str());
                out.append(" at pipeline step ");
                out.append(decimal_text(*step as u64).as_str());
                out.append(": ");
                out.append(cause.as_str());
            },
            CommandError::StepWait { program, step, cause } => {
                out.append("failed to wait for ");
                out.append(quote(program.as_str()).as_str());
                out.append(" at pipeline step ");
                out.append(decimal_text(*step as u64).as_str());
                out.append(": ");
                out.append(cause.as_str());
            },
            CommandError::StepExit { program, step, status, stderr } => {
                out.append("pipeline step ");
                out.append(decimal_text(*step as u64).as_str());
                out.append(" (");
                out.append(quote(program.as_str()).as_str());
                out.append(") exited with ");
                out.append(exit_code_or_signal(status).as_str());
                out.append(": ");
                out.append(show(stderr).as_str());
            },
        }
        assert(out@ =~= self.text());
        out
    }
}

fn quote(program: &str) -> (r: String)
    ensures
        r@ == in_quotes(program@),
{
    joined(joined("'", program).as_str(), "'")
}

pub(crate) fn show(stderr: &Vec<u8>) -> (r: String)
    ensures
        r@ == shown(stderr@),
{
    trimmed(lossy(stderr.as_slice()).as_str())
}

/// A command that is to be run for its effect.
#[derive(Debug)]
pub struct Execution {
    pub command: Command,
}

/// What the outcome of a command that is run for its effect amounts to.
pub open spec fn run_verdict(program: String, outcome: Outcome) -> Result<(), CommandError> {
    match outcome {
        Outcome::NotSpawned(cause) => Err(CommandError::Spawn { program, cause }),
        Outcome::Exited(output) => if output.status.ok() {
            Ok(())
        } else {
            Err(CommandError::Exit { program, status: output.status, stderr: output.stderr })
        },
    }
}

impl Execution {
    /// Judges the outcome: `Ok(())` if the command exited with status 0, `Err` if
    /// it failed to spawn or exited otherwise.
    pub fn finish(self, outcome: Outcome) -> (r: Result<(), CommandError>)
        ensures
            r == run_verdict(self.command.program, outcome),
            r is Ok <==> (outcome matches Outcome::Exited(o) && o.status.code == Some(0i32)),
    {
        let program = self.command.program;
        match outcome {
            Outcome::NotSpawned(cause) => Err(CommandError::Spawn { program, cause }),
            Outcome::Exited(output) => if output.status.success() {
                Ok(())
            } else {
                Err(CommandError::Exit { program, status: output.status, stderr: output.stderr })
            },
        }
    }
}

/// A command that is to be run for what it writes to stdout.
#[derive(Debug)]
pub struct Capture {
    pub command: Command,
}

/// Whether `r` is what the outcome of a command that is run for its stdout
/// amounts to.
pub open spec fn capture_verdict(program: String, outcome: Outcome, r: Result<String, CommandError>) -> bool {
    match outcome {
        Outcome::NotSpawned(cause) => r == Err::<String, _>(CommandError::Spawn { program, cause }),
        Outcome::Exited(output) => if !output.status.ok() {
            r == Err::<String, _>(
                CommandError::Exit { program, status: output.status, stderr: output.stderr },
            )
        } else if valid_utf8(output.stdout@) {
            r matches Ok(s) && s@ == decode_utf8(output.stdout@)
        } else {
            r matches Err(CommandError::NotUtf8 { program: p, cause }) && p == program && cause@ == utf8_fault(
                output.stdout@,
            )
        },
    }
}

impl Capture {
    /// Judges the outcome: `Ok(stdout)` if the command exited with status 0, `Err`
    /// if it failed to spawn, exited otherwise, or wrote something else than UTF-8.
    pub fn finish(self, outcome: Outcome) -> (r: Result<String, CommandError>)
        ensures
            capture_verdict(self.command.program, outcome, r),
            r is Ok <==> (outcome matches Outcome::Exited(o) && o.status.code == Some(0i32) && valid_utf8(o.stdout@)),
    {
        let program = self.command.program;
        match outcome {
            Outcome::NotSpawned(cause) => Err(CommandError::Spawn { program, cause }),
            Outcome::Exited(output) => if output.status.success() {
                match strict(output.stdout) {
                    Ok(s) => Ok(s),
                    Err(cause) => Err(CommandError::NotUtf8 { program, cause }),
                }
            } else {
                Err(CommandError::Exit { program, status: output.status, stderr: output.stderr })
            },
        }
    }
}

/// Runs a single external command: the command, without extra variables.
pub fn run(program: &str, args: &[&str]) -> (r: Execution)
    ensures
        r.command@ == (CommandView { program: program@, args: arg_texts(args@), env: seq![] }),
{
    let r = run_with_env(program, args, &[]);
    assert(r.command@.env =~= seq![]);
    r
}

/// Runs a single external command for what it writes to stdout: the command,
/// without extra variables.
pub fn run_with_output(program: &str, args: &[&str]) -> (r: Capture)
    ensures
        r.command@ == (CommandView { program: program@, args: arg_texts(args@), env: seq![] }),
{
    let r = run_with_output_env(program, args, &[]);
    assert(r.command@.env =~= seq![]);
    r
}

/// Like [`run_with_output`] but also sets additional environment variables on
/// the spawned process.
///
/// `env_vars` is a slice of `(name, value)` pairs.
pub fn run_with_output_env(program: &str, args: &[&str], env_vars: &[(&str, &str)]) -> (r: Capture)
    ensures
        r.command@ == (CommandView { program: program@, args: arg_texts(args@), env: var_texts(env_vars@) }),
{
    Capture { command: Command::new(program, args, env_vars) }
}

/// Like [`run`] but also sets additional environment variables on the spawned
/// process.
///
/// `env_vars` is a slice of `(name, value)` pairs.
pub fn run_with_env(program: &str, args: &[&str], env_vars: &[(&str, &str)]) -> (r: Execution)
    ensures
        r.command@ == (CommandView { program: program@, args: arg_texts(args@), env: var_texts(env_vars@) }),
{
    Execution { command: Command::new(program, args, env_vars) }
}

/// What a [`Pipeline`] waits for.
#[derive(Debug, PartialEq, Eq, Structural, Clone, Copy)]
pub enum PipeStage {
    /// That this step is spawned, its stdin connected to the stdout of the step
    /// before it, or to nothing for the first step.
    Spawn(usize),
    /// That the first so many steps are killed and reaped.
    Kill(usize),
    /// That this step has ended.
    Wait(usize),
    /// Nothing more.
    Done,
}

/// What waiting for a pipeline step gave: its output, or the reason why it could
/// not be waited for.
pub type Waited = Result<Output, String>;

/// What came of the last thing that a [`Pipeline`] waited for.
#[derive(Debug)]
pub enum PipeReply {
    /// The step was spawned.
    Spawned,
    /// The step could not be spawned, for the reason given.
    NotSpawned(String),
    /// The stdout of the step before was not there to be connected.
    NoStdout,
    /// The steps were killed and reaped.
    Killed,
    /// The step has ended, or could not be waited for.
    Waited(Waited),
}

/// Two or more commands, each of which reads what the one before it writes.
///
/// All steps are spawned before any is waited for. The steps are waited for from
/// the last to the first.
#[derive(Debug)]
pub struct Pipeline {
    steps: Vec<Command>,
    stage: PipeStage,
    failure: Option<CommandError>,
}

/// The state of a [`Pipeline`].
#[verifier::ext_equal]
pub struct PipelineView {
    pub steps: Seq<Command>,
    pub stage: PipeStage,
    pub failure: Option<CommandError>,
}

impl View for Pipeline {
    type V = PipelineView;

    closed spec fn view(&self) -> PipelineView {
        PipelineView { steps: self.steps@, stage: self.stage, failure: self.failure }
    }
}

impl PipelineView {
    /// There are two steps at least, and the pipeline is at one of them.
    pub open spec fn well_formed(self) -> bool {
        &&& 2 <= self.steps.len() <= usize::MAX
        &&& match self.stage {
            PipeStage::Spawn(i) => i < self.steps.len(),
            PipeStage::Kill(i) => i < self.steps.len(),
            PipeStage::Wait(i) => i < self.steps.len(),
            PipeStage::Done => true,
        }
    }
}

/// What is wrong with the end of step `i`, if anything.
pub open spec fn step_failure(program: String, i: usize, w: Waited) -> Option<CommandError> {
    match w {
        Err(cause) => Some(CommandError::StepWait { program, step: i, cause }),
        Ok(output) => if output.status.ok() {
            None
        } else {
            Some(CommandError::StepExit { program, step: i, status: output.status, stderr: output.stderr })
        },
    }
}

/// How a reply moves a pipeline on. A reply that does not belong to what the
/// pipeline waits for leaves it as it is.
pub open spec fn pipe_next(v: PipelineView, reply: PipeReply) -> PipelineView {
    match (v.stage, reply) {
        (PipeStage::Spawn(i), PipeReply::Spawned) => PipelineView {
            stage: if i + 1 < v.steps.len() {
                PipeStage::Spawn((i + 1) as usize)
            } else {
                PipeStage::Wait(i)
            },
            ..v
        },
        (PipeStage::Spawn(i), PipeReply::NotSpawned(cause)) => PipelineView {
            stage: if i > 0 {
                PipeStage::Kill(i)
            } else {
                PipeStage::Done
            },
            failure: Some(CommandError::StepSpawn { program: v.steps[i as int].program, step: i, cause }),
            ..v
        },
        (PipeStage::Spawn(i), PipeReply::NoStdout) => if i > 0 {
            PipelineView {
                stage: PipeStage::Done,
                failure: Some(CommandError::NoStdout { step: (i - 1) as usize }),
                ..v
            }
        } else {
            v
        },
        (PipeStage::Kill(_), PipeReply::Killed) => PipelineView { stage: PipeStage::Done, ..v },
        (PipeStage::Wait(i), PipeReply::Waited(w)) => PipelineView {
            stage: if i > 0 {
                PipeStage::Wait((i - 1) as usize)
            } else {
                PipeStage::Done
            },
            failure: match step_failure(v.steps[i as int].program, i, w) {
                Some(e) => Some(e),
                None => v.failure,
            },
            ..v
        },
        _ => v,
    }
}

impl Pipeline {
    #[verifier::type_invariant]
    spec fn type_inv(self) -> bool {
        self@.well_formed()
    }

    /// What the pipeline waits for.
    pub fn stage(&self) -> (r: PipeStage)
        ensures
            r == self@.stage,
            self@.well_formed(),
    {
        proof {
            use_type_invariant(self);
        }
        self.stage
    }

    /// The command of step `i`.
    pub fn command(&self, i: usize) -> (r: &Command)
        requires
            i < self@.steps.len(),
        ensures
            *r == self@.steps[i as int],
    {
        &self.steps[i]
    }

    /// Takes note of what came of the last thing that the pipeline waited for.
    pub fn advance(&mut self, reply: PipeReply)
        ensures
            final(self)@ == pipe_next(old(self)@, reply),
            final(self)@.well_formed(),
    {
        proof {
            use_type_invariant(&*self);
        }
        match (self.stage, reply) {
            (PipeStage::Spawn(i), PipeReply::Spawned) => {
                if i + 1 < self.steps.len() {
                    self.stage = PipeStage::Spawn(i + 1);
                } else {
                    self.stage = PipeStage::Wait(i);
                }
            },
            (PipeStage::Spawn(i), PipeReply::NotSpawned(cause)) => {
                let program = self.steps[i].program.clone();
                self.failure = Some(CommandError::StepSpawn { program, step: i, cause });
                if i > 0 {
                    self.stage = PipeStage::Kill(i);
                } else {
                    self.stage = PipeStage::Done;
                }
            },
            (PipeStage::Spawn(i), PipeReply::NoStdout) => {
                if i > 0 {
                    self.failure = Some(CommandError::NoStdout { step: i - 1 });
                    self.stage = PipeStage::Done;
                }
            },
            (PipeStage::Kill(_), PipeReply::Killed) => {
                self.stage = PipeStage::Done;
            },
            (PipeStage::Wait(i), PipeReply::Waited(w)) => {
                let program = self.steps[i].program.clone();
                match w {
                    Err(cause) => {
                        self.failure = Some(CommandError::StepWait { program, step: i, cause });
                    },
                    Ok(output) => {
                        if !output.status.success() {
                            self.failure = Some(
                                CommandError::StepExit {
                                    program,
                                    step: i,
                                    status: output.status,
                                    stderr: output.stderr,
                                },
                            );
                        }
                    },
                }
                if i > 0 {
                    self.stage = PipeStage::Wait(i - 1);
                } else {
                    self.stage = PipeStage::Done;
                }
            },
            _ => {},
        }
        proof {
            use_type_invariant(&*self);
        }
    }

    /// The result of a pipeline that waits for nothing more.
    pub fn finish(self) -> (r: Result<(), CommandError>)
        requires
            self@.stage == PipeStage::Done,
        ensures
            match self@.failure {
                Some(e) => r == Err::<(), _>(e),
                None => r is Ok,
            },
    {
        match self.failure {
            Some(e) => Err(e),
            None => Ok(()),
        }
    }
}

/// Chains two or more commands with stdout of step N piped to stdin of step N+1.
///
/// Each step is `(program, args)`. Returns `Err` if `steps` is empty or contains
/// only one entry: a meaningful pipeline requires at least two steps.
pub fn pipe(steps: &[(&str, &[&str])]) -> (r: Result<Pipeline, CommandError>)
    ensures
        is_pipeline_of(r, steps@, seq![]),
{
    let r = pipe_with_env(steps, &[]);
    proof {
        let none: [(&str, &str); 0] = [];
        assert(var_texts(none@) =~= seq![]);
    }
    r
}

/// Whether `r` is a fresh pipeline of `steps` with the variables `env`, or the
/// error for there being too few steps.
pub open spec fn is_pipeline_of(
    r: Result<Pipeline, CommandError>,
    steps: Seq<(&str, &[&str])>,
    env: Seq<(Seq<char>, Seq<char>)>,
) -> bool {
    if steps.len() < 2 {
        r == Err::<Pipeline, _>(CommandError::TooFewSteps { steps: steps.len() as usize })
    } else {
        &&& r matches Ok(p)
        &&& p@.well_formed()
        &&& p@.stage == PipeStage::Spawn(0)
        &&& p@.failure is None
        &&& p@.steps.len() == steps.len()
        &&& forall|i: int|
            0 <= i < steps.len() ==> (#[trigger] p@.steps[i])@ == (CommandView {
                program: steps[i].0@,
                args: arg_texts(steps[i].1@),
                env,
            })
    }
}

/// Chains two or more commands with stdout to stdin piping and optional extra
/// environment variables applied to every step.
///
/// `env_vars` is a slice of `(name, value)` pairs set on every spawned
/// process in addition to the inherited environment.
pub fn pipe_with_env(steps: &[(&str, &[&str])], env_vars: &[(&str, &str)]) -> (r: Result<
    Pipeline,
    CommandError,
>)
    ensures
        is_pipeline_of(r, steps@, var_texts(env_vars@)),
{
    if steps.len() < 2 {
        return Err(CommandError::TooFewSteps { steps: steps.len() });
    }
    let mut commands: Vec<Command> = Vec::new();
    let mut i: usize = 0;
    while i < steps.len()
        invariant
            i <= steps@.len(),
            commands@.len() == i,
            forall|k: int|
                0 <= k < i ==> (#[trigger] commands@[k])@ == (CommandView {
                    program: steps@[k].0@,
                    args: arg_texts(steps@[k].1@),
                    env: var_texts(env_vars@),
                }),
        decreases steps@.len() - i,
    {
        commands.push(Command::new(steps[i].0, steps[i].1, env_vars));
        i += 1;
    }
    Ok(Pipeline { steps: commands, stage: PipeStage::Spawn(0), failure: None })
}

} // verus!
