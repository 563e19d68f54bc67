//! What the end of a process means: for a command, for a pipeline, and for the
//! disk that the command was asked about.

use vstd::prelude::*;
use vstd::utf8::{decode_utf8, valid_utf8};

use crate::backup::action::command_views;
use crate::cmd::{
    arg_texts, capture_verdict, env_texts, is_pipeline_of, pipe_next, run_verdict, step_failure, var_texts, Command,
    CommandError, CommandView, ExitStatus, Outcome, PipeReply, PipeStage, Pipeline, PipelineView, Waited,
};
use crate::number::{decimal, decimal_int};
use crate::piping::{
    fresh_pipeline, lowest_failure, lowest_failure_is_the_lowest, orderly_replies, pipe_run,
    pipeline_reports_the_lowest_failure,
};
use crate::text::{lossy_text, texts, trim, utf8_fault};
use crate::validation::{source_verdict, ValidationError};

verus! {

/// A command that is run for its effect succeeds exactly where its process exits
/// with code 0. Every other code, a signal and a process that could not be spawned
/// are errors that tell what happened.
pub proof fn run_succeeds_with_code_zero_only(program: String, outcome: Outcome)
    ensures
        run_verdict(program, outcome) is Ok <==> (outcome matches Outcome::Exited(o) && o.status.code == Some(0i32)),
        match outcome {
            Outcome::NotSpawned(cause) => run_verdict(program, outcome) == Err::<(), _>(
                CommandError::Spawn { program, cause },
            ),
            Outcome::Exited(o) => o.status.code != Some(0i32) ==> run_verdict(program, outcome) == Err::<(), _>(
                CommandError::Exit { program, status: o.status, stderr: o.stderr },
            ),
        },
{
}

/// A command that is run for its output gives the whole output exactly where its
/// process exits with code 0 and has written UTF-8.
pub proof fn capture_succeeds_with_code_zero_only(program: String, outcome: Outcome, r: Result<String, CommandError>)
    requires
        capture_verdict(program, outcome, r),
    ensures
        r is Ok <==> (outcome matches Outcome::Exited(o) && o.status.code == Some(0i32) && valid_utf8(o.stdout@)),
        match outcome {
            Outcome::NotSpawned(cause) => r == Err::<String, _>(CommandError::Spawn { program, cause }),
            Outcome::Exited(o) => {
                &&& o.status.code != Some(0i32) ==> r == Err::<String, _>(
                    CommandError::Exit { program, status: o.status, stderr: o.stderr },
                )
                &&& o.status.code == Some(0i32) && valid_utf8(o.stdout@) ==> (r matches Ok(s) && s@ == decode_utf8(
                    o.stdout@,
                ))
                &&& o.status.code == Some(0i32) && !valid_utf8(o.stdout@) ==> (r matches Err(
                    CommandError::NotUtf8 { program: p, cause },
                ) && p == program && cause@ == utf8_fault(o.stdout@))
            },
        },
{
}

/// The source is accepted exactly where `btrfs subvolume show` exits with code 0.
/// Any other end tells the path and the code, which is -1 for a signal.
pub proof fn source_is_accepted_with_code_zero_only(path: String, outcome: Outcome)
    ensures
        source_verdict(path, outcome) is Ok <==> (outcome matches Outcome::Exited(o) && o.status.code == Some(0i32)),
        match outcome {
            Outcome::NotSpawned(cause) => source_verdict(path, outcome) == Err::<(), _>(
                ValidationError::SourceSpawn { path, cause },
            ),
            Outcome::Exited(o) => match o.status.code {
                Some(code) => code != 0 ==> source_verdict(path, outcome) == Err::<(), _>(
                    ValidationError::NotSubvolume { path, code, stderr: o.stderr },
                ),
                None => source_verdict(path, outcome) == Err::<(), _>(
                    ValidationError::NotSubvolume { path, code: -1i32, stderr: o.stderr },
                ),
            },
        },
{
}

/// Whether a step that was waited for is known to have exited with code 0.
pub open spec fn ended_well(w: Waited) -> bool {
    w matches Ok(o) && o.status.code == Some(0i32)
}

/// A pipeline whose steps are all spawned succeeds exactly where every step exits
/// with code 0. Otherwise it reports the first step that did not, by its program
/// and its position, with the status and the stderr of that step, or with the
/// reason why it could not be waited for.
pub proof fn pipeline_reports_the_first_bad_step(steps: Seq<Command>, outs: Seq<Waited>)
    requires
        2 <= steps.len() <= usize::MAX,
        outs.len() == steps.len(),
    ensures
        ({
            let end = pipe_run(fresh_pipeline(steps), orderly_replies(outs));
            &&& end.stage == PipeStage::Done
            &&& end.failure is None <==> forall|i: int| 0 <= i < outs.len() ==> ended_well(#[trigger] outs[i])
            &&& forall|i: int|
                {
                    &&& 0 <= i < outs.len()
                    &&& !ended_well(#[trigger] outs[i])
                    &&& forall|k: int| 0 <= k < i ==> ended_well(#[trigger] outs[k])
                } ==> end.failure == Some(
                    match outs[i] {
                        Err(cause) => CommandError::StepWait { program: steps[i].program, step: i as usize, cause },
                        Ok(o) => CommandError::StepExit {
                            program: steps[i].program,
                            step: i as usize,
                            status: o.status,
                            stderr: o.stderr,
                        },
                    },
                )
        }),
{
    pipeline_reports_the_lowest_failure(steps, outs);
    lowest_failure_is_the_lowest(steps, outs, 0);
    assert forall|i: int| 0 <= i < outs.len() implies (step_failure(
        steps[i].program,
        i as usize,
        #[trigger] outs[i],
    ) is None <==> ended_well(outs[i])) by {}
    let end = pipe_run(fresh_pipeline(steps), orderly_replies(outs));
    match lowest_failure(steps, outs, 0) {
        Some(e) => {
            let j = choose|j: int|
                {
                    &&& 0 <= j < steps.len()
                    &&& #[trigger] step_failure(steps[j].program, j as usize, outs[j]) == Some(e)
                    &&& forall|k: int|
                        0 <= k < j ==> (#[trigger] step_failure(steps[k].program, k as usize, outs[k])) is None
                };
            assert(!ended_well(outs[j]));
            assert forall|k: int| 0 <= k < j implies ended_well(#[trigger] outs[k]) by {
                assert(step_failure(steps[k].program, k as usize, outs[k]) is None);
            }
            assert forall|i: int|
                {
                    &&& 0 <= i < outs.len()
                    &&& !ended_well(#[trigger] outs[i])
                    &&& forall|k: int| 0 <= k < i ==> ended_well(#[trigger] outs[k])
                } implies i == j by {}
        },
        None => {
            assert forall|i: int| 0 <= i < outs.len() implies ended_well(#[trigger] outs[i]) by {
                assert(step_failure(steps[i].program, i as usize, outs[i]) is None);
            }
        },
    }
}

/// So many replies that a step was spawned.
pub open spec fn spawned(n: nat) -> Seq<PipeReply> {
    Seq::new(n, |k: int| PipeReply::Spawned)
}

proof fn spawned_prefix(steps: Seq<Command>, n: nat)
    requires
        2 <= steps.len() <= usize::MAX,
        n < steps.len(),
    ensures
        pipe_run(fresh_pipeline(steps), spawned(n)) == (PipelineView {
            steps,
            stage: PipeStage::Spawn(n as usize),
            failure: None,
        }),
    decreases n,
{
    if n > 0 {
        let m = (n - 1) as nat;
        spawned_prefix(steps, m);
        assert(spawned(n).drop_last() =~= spawned(m));
        assert(spawned(n).last() == PipeReply::Spawned);
    }
}

/// A pipeline with a step that cannot be spawned has the steps before it killed,
/// as far as there are any, and reports that step, by its program and its position,
/// with the reason.
pub proof fn pipeline_reports_the_step_that_is_not_spawned(steps: Seq<Command>, n: nat, cause: String)
    requires
        2 <= steps.len() <= usize::MAX,
        n < steps.len(),
    ensures
        ({
            let end = pipe_run(fresh_pipeline(steps), spawned(n).push(PipeReply::NotSpawned(cause)));
            &&& end.stage == if n > 0 {
                PipeStage::Kill(n as usize)
            } else {
                PipeStage::Done
            }
            &&& end.failure == Some(
                CommandError::StepSpawn { program: steps[n as int].program, step: n as usize, cause },
            )
            &&& pipe_next(end, PipeReply::Killed) == (PipelineView { stage: PipeStage::Done, ..end })
        }),
{
    spawned_prefix(steps, n);
    assert(spawned(n).push(PipeReply::NotSpawned(cause)).drop_last() =~= spawned(n));
}

/// A pipeline with a step whose output is not there to be piped on reports that
/// step.
pub proof fn pipeline_reports_the_step_without_output(steps: Seq<Command>, n: nat)
    requires
        2 <= steps.len() <= usize::MAX,
        0 < n < steps.len(),
    ensures
        pipe_run(fresh_pipeline(steps), spawned(n).push(PipeReply::NoStdout)) == (PipelineView {
            steps,
            stage: PipeStage::Done,
            failure: Some(CommandError::NoStdout { step: (n - 1) as usize }),
        }),
{
    spawned_prefix(steps, n);
    assert(spawned(n).push(PipeReply::NoStdout).drop_last() =~= spawned(n));
}

/// A status reads as its code where there is one, else as its signal.
pub proof fn status_reads_as_code_or_signal(status: ExitStatus, n: i32)
    ensures
        status.code == Some(n) ==> status.text() == "status "@ + decimal_int(n as int),
        status.code is None && status.signal == Some(n) ==> status.text() == "signal "@ + decimal_int(n as int),
        status.code is None && status.signal is None ==> status.text() == "status -1"@,
{
}

/// Whether `part` stands somewhere in `text`.
pub open spec fn mentions(text: Seq<char>, part: Seq<char>) -> bool {
    exists|before: Seq<char>, after: Seq<char>| text == #[trigger] (before + part + after)
}

/// The message of a command that failed names the program between single quotes
/// and ends with the cause, which for a process that ended is the status and what
/// it wrote to stderr, trimmed. That of a pipeline step tells the position too.
pub proof fn command_messages_tell_program_and_cause(e: CommandError)
    ensures
        match e {
            CommandError::Spawn { program, cause } | CommandError::NotUtf8 { program, cause } => {
                &&& mentions(e.text(), "'"@ + program@ + "'"@)
                &&& (": "@ + cause@).is_suffix_of(e.text())
            },
            CommandError::Exit { program, status, stderr } => {
                &&& mentions(e.text(), "'"@ + program@ + "'"@)
                &&& (" exited with "@ + status.text() + ": "@ + trim(lossy_text(stderr@))).is_suffix_of(e.text())
            },
            CommandError::StepSpawn { program, step, cause } | CommandError::StepWait { program, step, cause } => {
                &&& mentions(e.text(), "'"@ + program@ + "'"@)
                &&& (" at pipeline step "@ + decimal(step as nat) + ": "@ + cause@).is_suffix_of(e.text())
            },
            CommandError::StepExit { program, step, status, stderr } => {
                &&& mentions(e.text(), "pipeline step "@ + decimal(step as nat) + " ('"@ + program@ + "')"@)
                &&& (" exited with "@ + status.text() + ": "@ + trim(lossy_text(stderr@))).is_suffix_of(e.text())
            },
            CommandError::TooFewSteps { steps } => decimal(steps as nat).is_suffix_of(e.text()),
            CommandError::NoStdout { step } => decimal(step as nat).is_suffix_of(e.text()),
        },
{
    let t = e.text();
    match e {
        CommandError::Spawn { program, cause } => {
            assert(t =~= "failed to spawn "@ + ("'"@ + program@ + "'"@) + (": "@ + cause@));
            ends_with("failed to spawn "@ + ("'"@ + program@ + "'"@), ": "@ + cause@, t);
        },
        CommandError::NotUtf8 { program, cause } => {
            reveal_strlit(" is not valid UTF-8: ");
            reveal_strlit(" is not valid UTF-8");
            reveal_strlit(": ");
            assert(" is not valid UTF-8: "@ =~= " is not valid UTF-8"@ + ": "@);
            assert(t =~= "stdout of "@ + ("'"@ + program@ + "'"@) + (" is not valid UTF-8"@ + (": "@ + cause@)));
            ends_with("stdout of "@ + ("'"@ + program@ + "'"@) + " is not valid UTF-8"@, ": "@ + cause@, t);
        },
        CommandError::Exit { program, status, stderr } => {
            let tail = " exited with "@ + status.text() + ": "@ + trim(lossy_text(stderr@));
            assert(t =~= Seq::<char>::empty() + ("'"@ + program@ + "'"@) + tail);
            ends_with("'"@ + program@ + "'"@, tail, t);
        },
        CommandError::StepSpawn { program, step, cause } => {
            let tail = " at pipeline step "@ + decimal(step as nat) + ": "@ + cause@;
            assert(t =~= "failed to spawn "@ + ("'"@ + program@ + "'"@) + tail);
            ends_with("failed to spawn "@ + ("'"@ + program@ + "'"@), tail, t);
        },
        CommandError::StepWait { program, step, cause } => {
            let tail = " at pipeline step "@ + decimal(step as nat) + ": "@ + cause@;
            assert(t =~= "failed to wait for "@ + ("'"@ + program@ + "'"@) + tail);
            ends_with("failed to wait for "@ + ("'"@ + program@ + "'"@), tail, t);
        },
        CommandError::StepExit { program, step, status, stderr } => {
            reveal_strlit(" (");
            reveal_strlit("'");
            reveal_strlit(" ('");
            reveal_strlit("')");
            reveal_strlit(") exited with ");
            reveal_strlit(" exited with ");
            let tail = " exited with "@ + status.text() + ": "@ + trim(lossy_text(stderr@));
            let start = "pipeline step "@ + decimal(step as nat) + " ('"@ + program@ + "')"@;
            assert(" ("@ + "'"@ =~= " ('"@);
            assert("'"@ + ") exited with "@ =~= "')"@ + " exited with "@);
            assert(t =~= "pipeline step "@ + decimal(step as nat) + (" ("@ + "'"@) + program@ + ("'"@
                + ") exited with "@) + status.text() + ": "@ + trim(lossy_text(stderr@)));
            assert(t =~= Seq::<char>::empty() + start + tail);
            ends_with(start, tail, t);
        },
        CommandError::TooFewSteps { steps } => {
            ends_with("pipe requires at least two steps, got "@, decimal(steps as nat), t);
        },
        CommandError::NoStdout { step } => {
            ends_with("failed to obtain stdout from step "@, decimal(step as nat), t);
        },
    }
}

/// What is put behind something is its end.
pub proof fn ends_with(head: Seq<char>, tail: Seq<char>, whole: Seq<char>)
    requires
        whole =~= head + tail,
    ensures
        tail.is_suffix_of(whole),
{
    assert(whole.subrange(whole.len() - tail.len(), whole.len() as int) =~= tail);
}

/// The text of a list is that of its items, one for one.
pub proof fn texts_are_item_by_item(
    strings: Seq<String>,
    args: Seq<&str>,
    vars: Seq<(&str, &str)>,
    env: Seq<(String, String)>,
    commands: Seq<Command>,
)
    ensures
        texts(strings).len() == strings.len(),
        arg_texts(args).len() == args.len(),
        var_texts(vars).len() == vars.len(),
        env_texts(env).len() == env.len(),
        command_views(commands).len() == commands.len(),
        forall|i: int| 0 <= i < strings.len() ==> #[trigger] texts(strings)[i] == strings[i]@,
        forall|i: int| 0 <= i < args.len() ==> #[trigger] arg_texts(args)[i] == args[i]@,
        forall|i: int| 0 <= i < vars.len() ==> #[trigger] var_texts(vars)[i] == (vars[i].0@, vars[i].1@),
        forall|i: int| 0 <= i < env.len() ==> #[trigger] env_texts(env)[i] == (env[i].0@, env[i].1@),
        forall|i: int| 0 <= i < commands.len() ==> #[trigger] command_views(commands)[i] == (CommandView {
            program: commands[i].program@,
            args: texts(commands[i].args@),
            env: env_texts(commands[i].env@),
        }),
{
}

/// A pipeline runs the steps that it is made of, each with its own arguments and
/// all with the same variables, from the first one on. Fewer than two are no
/// pipeline.
pub proof fn pipeline_runs_its_steps(
    r: Result<Pipeline, CommandError>,
    steps: Seq<(&str, &[&str])>,
    env: Seq<(Seq<char>, Seq<char>)>,
)
    requires
        is_pipeline_of(r, steps, env),
    ensures
        r is Ok <==> steps.len() >= 2,
        steps.len() < 2 ==> r == Err::<Pipeline, _>(CommandError::TooFewSteps { steps: steps.len() as usize }),
        r matches Ok(p) ==> {
            &&& p@.stage == PipeStage::Spawn(0)
            &&& p@.failure is None
            &&& p@.steps.len() == steps.len()
            &&& forall|i: int|
                0 <= i < steps.len() ==> {
                    &&& (#[trigger] p@.steps[i])@.program == steps[i].0@
                    &&& p@.steps[i]@.args == arg_texts(steps[i].1@)
                    &&& p@.steps[i]@.env == env
                }
        },
{
}

} // verus!
