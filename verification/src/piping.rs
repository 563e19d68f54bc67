//! What a pipeline does whatever its steps do, and what it reports.

use vstd::prelude::*;

use crate::cmd::{pipe_next, step_failure, Command, CommandError, PipeReply, PipeStage, PipelineView, Waited};

verus! {

/// A pipeline of `steps` before its first step is spawned.
pub open spec fn fresh_pipeline(steps: Seq<Command>) -> PipelineView {
    PipelineView { steps, stage: PipeStage::Spawn(0), failure: None }
}

/// Where a pipeline gets to on a sequence of replies.
pub open spec fn pipe_run(v: PipelineView, replies: Seq<PipeReply>) -> PipelineView
    decreases replies.len(),
{
    if replies.len() == 0 {
        v
    } else {
        pipe_next(pipe_run(v, replies.drop_last()), replies.last())
    }
}

/// The failure of the lowest step, from step `from` on, that did not succeed.
pub open spec fn lowest_failure(steps: Seq<Command>, outs: Seq<Waited>, from: int) -> Option<CommandError>
    decreases steps.len() - from,
{
    if from < 0 || from >= steps.len() {
        None
    } else {
        match step_failure(steps[from].program, from as usize, outs[from]) {
            Some(e) => Some(e),
            None => lowest_failure(steps, outs, from + 1),
        }
    }
}

/// `lowest_failure` is the failure of a step before which every step succeeded,
/// and there is none exactly where every step succeeded.
pub proof fn lowest_failure_is_the_lowest(steps: Seq<Command>, outs: Seq<Waited>, from: int)
    requires
        0 <= from <= steps.len(),
    ensures
        match lowest_failure(steps, outs, from) {
            Some(e) => exists|i: int|
                {
                    &&& from <= i < steps.len()
                    &&& #[trigger] step_failure(steps[i].program, i as usize, outs[i]) == Some(e)
                    &&& forall|k: int|
                        from <= k < i ==> (#[trigger] step_failure(steps[k].program, k as usize, outs[k])) is None
                },
            None => forall|k: int|
                from <= k < steps.len() ==> (#[trigger] step_failure(
                    steps[k].program,
                    k as usize,
                    outs[k],
                )) is None,
        },
    decreases steps.len() - from,
{
    if from < steps.len() {
        match step_failure(steps[from].program, from as usize, outs[from]) {
            Some(e) => {
                assert(step_failure(steps[from].program, from as usize, outs[from]) == Some(e));
            },
            None => {
                lowest_failure_is_the_lowest(steps, outs, from + 1);
                match lowest_failure(steps, outs, from + 1) {
                    Some(e) => {
                        let i = choose|i: int|
                            {
                                &&& from + 1 <= i < steps.len()
                                &&& #[trigger] step_failure(steps[i].program, i as usize, outs[i]) == Some(e)
                                &&& forall|k: int|
                                    from + 1 <= k < i ==> (#[trigger] step_failure(
                                        steps[k].program,
                                        k as usize,
                                        outs[k],
                                    )) is None
                            };
                        assert(from <= i < steps.len());
                        assert(forall|k: int|
                            from <= k < i ==> (#[trigger] step_failure(
                                steps[k].program,
                                k as usize,
                                outs[k],
                            )) is None);
                    },
                    None => {},
                }
            },
        }
    }
}

/// The replies of a pipeline of `n` steps that are all spawned and then end as
/// `outs` says, the last one first.
pub open spec fn orderly_replies(outs: Seq<Waited>) -> Seq<PipeReply> {
    Seq::new(
        2 * outs.len(),
        |k: int|
            if k < outs.len() {
                PipeReply::Spawned
            } else {
                PipeReply::Waited(outs[2 * outs.len() - 1 - k])
            },
    )
}

/// A pipeline whose steps are all spawned ends with the failure of the
/// lowest-numbered step that did not succeed, and with success where every step
/// succeeded.
pub proof fn pipeline_reports_the_lowest_failure(steps: Seq<Command>, outs: Seq<Waited>)
    requires
        2 <= steps.len() <= usize::MAX,
        outs.len() == steps.len(),
    ensures
        pipe_run(fresh_pipeline(steps), orderly_replies(outs)) == (PipelineView {
            steps,
            stage: PipeStage::Done,
            failure: lowest_failure(steps, outs, 0),
        }),
{
    let replies = orderly_replies(outs);
    orderly_prefix(steps, outs, 2 * outs.len() as int);
    assert(replies.take(2 * outs.len() as int) =~= replies);
}

/// Where an orderly pipeline is after `k` replies.
proof fn orderly_prefix(steps: Seq<Command>, outs: Seq<Waited>, k: int)
    requires
        2 <= steps.len() <= usize::MAX,
        outs.len() == steps.len(),
        0 <= k <= 2 * steps.len(),
    ensures
        pipe_run(fresh_pipeline(steps), orderly_replies(outs).take(k)) == (PipelineView {
            steps,
            stage: if k < steps.len() {
                PipeStage::Spawn(k as usize)
            } else if k < 2 * steps.len() {
                PipeStage::Wait((2 * steps.len() - 1 - k) as usize)
            } else {
                PipeStage::Done
            },
            failure: if k < steps.len() {
                None
            } else {
                lowest_failure(steps, outs, 2 * steps.len() - k)
            },
        }),
    decreases k,
{
    let replies = orderly_replies(outs);
    if k > 0 {
        orderly_prefix(steps, outs, k - 1);
        assert(replies.take(k).drop_last() =~= replies.take(k - 1));
        assert(replies.take(k).last() == replies[k - 1]);
        if k > steps.len() {
            let i = 2 * steps.len() - k;
            assert(replies[k - 1] == PipeReply::Waited(outs[i]));
        }
    }
}

/// Whether the replies show step `i` ending with success.
pub open spec fn seen_to_succeed(v: PipelineView, replies: Seq<PipeReply>, i: int) -> bool {
    exists|k: int|
        {
            &&& 0 <= k < replies.len()
            &&& (#[trigger] pipe_run(v, replies.take(k))).stage == PipeStage::Wait(i as usize)
            &&& replies[k] matches PipeReply::Waited(Ok(output))
            &&& output.status.code == Some(0i32)
        }
}

/// Whatever the replies were: a pipeline that ends without a failure has seen
/// each of its steps end with success.
pub proof fn pipeline_success_means_every_step_succeeded(steps: Seq<Command>, replies: Seq<PipeReply>, i: int)
    requires
        2 <= steps.len() <= usize::MAX,
        0 <= i < steps.len(),
        pipe_run(fresh_pipeline(steps), replies).stage == PipeStage::Done,
        pipe_run(fresh_pipeline(steps), replies).failure is None,
    ensures
        seen_to_succeed(fresh_pipeline(steps), replies, i),
{
    waited_steps_succeeded(steps, replies, i);
}

/// While no failure is on record, every step that was waited for has succeeded.
proof fn waited_steps_succeeded(steps: Seq<Command>, replies: Seq<PipeReply>, i: int)
    requires
        2 <= steps.len() <= usize::MAX,
        0 <= i < steps.len(),
        pipe_run(fresh_pipeline(steps), replies).failure is None,
    ensures
        ({
            let v = pipe_run(fresh_pipeline(steps), replies);
            &&& v.well_formed()
            &&& v.steps == steps
            &&& v.stage !is Kill
            &&& (match v.stage {
                PipeStage::Wait(w) => w < i,
                PipeStage::Done => true,
                _ => false,
            }) ==> seen_to_succeed(fresh_pipeline(steps), replies, i)
        }),
    decreases replies.len(),
{
    let start = fresh_pipeline(steps);
    if replies.len() > 0 {
        let before = replies.drop_last();
        let u = pipe_run(start, before);
        let v = pipe_run(start, replies);
        let k = replies.len() - 1;
        assert(replies.take(k) =~= before);
        assert(u.failure is None);
        waited_steps_succeeded(steps, before, i);
        if seen_to_succeed(start, before, i) {
            let j = choose|j: int|
                {
                    &&& 0 <= j < before.len()
                    &&& (#[trigger] pipe_run(start, before.take(j))).stage == PipeStage::Wait(i as usize)
                    &&& before[j] matches PipeReply::Waited(Ok(output))
                    &&& output.status.code == Some(0i32)
                };
            assert(replies.take(j) =~= before.take(j));
            assert(pipe_run(start, replies.take(j)).stage == PipeStage::Wait(i as usize));
            assert(seen_to_succeed(start, replies, i));
        } else if u.stage == PipeStage::Wait(i as usize) {
            assert(pipe_run(start, replies.take(k)).stage == PipeStage::Wait(i as usize));
        }
    }
}

/// Whether the replies show step `i` being spawned.
pub open spec fn seen_to_spawn(v: PipelineView, replies: Seq<PipeReply>, i: int) -> bool {
    exists|k: int|
        {
            &&& 0 <= k < replies.len()
            &&& (#[trigger] pipe_run(v, replies.take(k))).stage == PipeStage::Spawn(i as usize)
            &&& replies[k] is Spawned
        }
}

/// All steps are spawned before any is waited for.
pub proof fn pipeline_spawns_all_before_it_waits(steps: Seq<Command>, replies: Seq<PipeReply>, i: int)
    requires
        2 <= steps.len() <= usize::MAX,
        0 <= i < steps.len(),
        pipe_run(fresh_pipeline(steps), replies).stage is Wait,
    ensures
        seen_to_spawn(fresh_pipeline(steps), replies, i),
{
    passed_steps_are_spawned(steps, replies, i);
}

/// Every step before the one that is being spawned is spawned.
proof fn passed_steps_are_spawned(steps: Seq<Command>, replies: Seq<PipeReply>, i: int)
    requires
        2 <= steps.len() <= usize::MAX,
        0 <= i < steps.len(),
    ensures
        ({
            let v = pipe_run(fresh_pipeline(steps), replies);
            &&& v.well_formed()
            &&& v.steps == steps
            &&& (match v.stage {
                PipeStage::Spawn(s) => i < s,
                PipeStage::Wait(_) => true,
                _ => false,
            }) ==> seen_to_spawn(fresh_pipeline(steps), replies, i)
        }),
    decreases replies.len(),
{
    let start = fresh_pipeline(steps);
    if replies.len() > 0 {
        let before = replies.drop_last();
        let u = pipe_run(start, before);
        let k = replies.len() - 1;
        assert(replies.take(k) =~= before);
        passed_steps_are_spawned(steps, before, i);
        if seen_to_spawn(start, before, i) {
            let j = choose|j: int|
                {
                    &&& 0 <= j < before.len()
                    &&& (#[trigger] pipe_run(start, before.take(j))).stage == PipeStage::Spawn(i as usize)
                    &&& before[j] is Spawned
                };
            assert(replies.take(j) =~= before.take(j));
            assert(pipe_run(start, replies.take(j)).stage == PipeStage::Spawn(i as usize));
        } else if u.stage == PipeStage::Spawn(i as usize) {
            assert(pipe_run(start, replies.take(k)).stage == PipeStage::Spawn(i as usize));
        }
    }
}

/// Whether the replies show the first `n` steps being killed.
pub open spec fn seen_to_kill(v: PipelineView, replies: Seq<PipeReply>, n: usize) -> bool {
    exists|k: int|
        {
            &&& 0 <= k < replies.len()
            &&& (#[trigger] pipe_run(v, replies.take(k))).stage == PipeStage::Kill(n)
            &&& replies[k] is Killed
        }
}

/// A pipeline that ends because a step could not be spawned has killed every step
/// before it.
pub proof fn pipeline_kills_what_it_has_spawned(steps: Seq<Command>, replies: Seq<PipeReply>, n: usize)
    requires
        2 <= steps.len() <= usize::MAX,
        n > 0,
        pipe_run(fresh_pipeline(steps), replies).stage == PipeStage::Done,
        pipe_run(fresh_pipeline(steps), replies).failure matches Some(CommandError::StepSpawn { step, .. }) && step
            == n,
    ensures
        seen_to_kill(fresh_pipeline(steps), replies, n),
{
    unspawned_step_is_fatal(steps, replies, n);
}

/// The failure to spawn a step is followed by nothing but killing.
proof fn unspawned_step_is_fatal(steps: Seq<Command>, replies: Seq<PipeReply>, n: usize)
    requires
        n > 0,
        pipe_run(fresh_pipeline(steps), replies).failure matches Some(CommandError::StepSpawn { step, .. }) && step
            == n,
    ensures
        pipe_run(fresh_pipeline(steps), replies).stage == PipeStage::Kill(n) || (pipe_run(
            fresh_pipeline(steps),
            replies,
        ).stage == PipeStage::Done && seen_to_kill(fresh_pipeline(steps), replies, n)),
    decreases replies.len(),
{
    let start = fresh_pipeline(steps);
    if replies.len() > 0 {
        let before = replies.drop_last();
        let u = pipe_run(start, before);
        let k = replies.len() - 1;
        assert(replies.take(k) =~= before);
        if u.failure matches Some(CommandError::StepSpawn { step, .. }) && step == n {
            unspawned_step_is_fatal(steps, before, n);
            if u.stage == PipeStage::Done {
                let j = choose|j: int|
                    {
                        &&& 0 <= j < before.len()
                        &&& (#[trigger] pipe_run(start, before.take(j))).stage == PipeStage::Kill(n)
                        &&& before[j] is Killed
                    };
                assert(replies.take(j) =~= before.take(j));
                assert(pipe_run(start, replies.take(j)).stage == PipeStage::Kill(n));
            } else {
                assert(pipe_run(start, replies.take(k)).stage == PipeStage::Kill(n));
            }
        }
    }
}

} // verus!
