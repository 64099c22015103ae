//! Driving a pipeline to completion.
//!
//! `Pipeline::process` runs every task in order and hands back the
//! final message.  Its contract ties the result to the machine itself:
//! the result is what a maximal chain of `step` transitions from the
//! fresh machine yields.  `process` can serve every command but the
//! HTTP exchange, which needs a transport: a host with one drives
//! `PipelineRun` directly, performing each exchange the machine asks
//! for.

use vstd::prelude::*;

use crate::error::ErrorView;
use crate::error::VermanSchemaError;
use crate::models::CommonContent;
use crate::models::Pipeline;
use crate::models::Task;
use crate::task::step_post;
use crate::task::PipelineRun;
use crate::task::RunPhase;
use crate::task::StepResult;

verus! {

/// How many tasks are still to begin.
pub open spec fn tasks_remaining(s: PipelineRun) -> int {
    match s.pipeline.tasks {
        Some(ref ts) => ts@.len() - s.task_idx,
        None => 0,
    }
}

/// A rank that orders the phases within one task index.
pub open spec fn phase_rank(s: PipelineRun) -> int {
    match s.phase {
        RunPhase::BetweenTasks => 2,
        RunPhase::InTask => 1,
        _ => 0,
    }
}

/// How many commands of the current task are still to run.
pub open spec fn cmds_remaining(s: PipelineRun) -> int {
    if s.phase is InTask && s.pipeline.tasks is Some && s.task_idx
        < s.pipeline.tasks->Some_0@.len() {
        s.pipeline.tasks->Some_0@[s.task_idx as int].1.commands@.len() - s.cmd_idx
    } else {
        0
    }
}

/// A machine as `PipelineRun::new` hands it out for `p`.
pub open spec fn initial_run(p: Pipeline, s: PipelineRun) -> bool {
    &&& s.pipeline == p
    &&& s.task_idx == 0
    &&& s.cmd_idx == 0
    &&& s.shared_tasks_env@ == Seq::<(Seq<char>, crate::json::JsonView)>::empty()
    &&& s.shared_cmds_env@ == Seq::<(Seq<char>, crate::json::JsonView)>::empty()
    &&& s.last is None
    &&& s.phase == RunPhase::BetweenTasks
    &&& s.outcome is None
    &&& s.wf()
}

/// One internal transition of the machine: a `step`, taken from a
/// steppable phase, that made progress.
pub open spec fn quiet_step(a: PipelineRun, b: PipelineRun) -> bool {
    &&& a.wf()
    &&& b.wf()
    &&& a.phase == RunPhase::BetweenTasks || a.phase == RunPhase::InTask
    &&& b.pipeline == a.pipeline
    &&& exists|lines: Vec<String>| #[trigger] step_post(a, b, StepResult::Progress(lines))
}

/// Whether the step answer `sr` closes a driven run with result `r`:
/// the run's own success or failure, or — for a driver without a
/// transport — the request for an exchange, reported as the missing
/// capability.
pub open spec fn closing_matches(
    sr: StepResult,
    r: Result<CommonContent, VermanSchemaError>,
) -> bool {
    match sr {
        StepResult::Finished(c) => r matches Ok(c2) && c2 == c,
        StepResult::Failed(e) => r matches Err(e2) && e2 == e,
        StepResult::NeedHttp(_) => r matches Err(e2) && e2@ == ErrorView::NotInstalled(
            "an HTTP transport; drive `PipelineRun` directly"@,
        ),
        StepResult::Progress(_) => false,
    }
}

/// The state `a` has a step that closes the run with result `r`.
pub open spec fn closing_step(a: PipelineRun, r: Result<CommonContent, VermanSchemaError>) -> bool {
    exists|b: PipelineRun, sr: StepResult| #[trigger] step_post(a, b, sr) && closing_matches(
        sr,
        r,
    )
}

/// `r` is the outcome of a maximal chain of machine steps for `p`:
/// the trace starts at the fresh machine, every state before the last
/// stepped quietly — so the first step that fails ends the run — and
/// the last state's step closes the run with `r`.
pub open spec fn pure_run_yields(
    p: Pipeline,
    trace: Seq<PipelineRun>,
    r: Result<CommonContent, VermanSchemaError>,
) -> bool {
    &&& trace.len() >= 1
    &&& initial_run(p, trace[0])
    &&& forall|i: int| 0 <= i < trace.len() - 1 ==> quiet_step(#[trigger] trace[i], trace[i + 1])
    &&& closing_step(trace.last(), r)
}

impl Pipeline {
    /// Runs the pipeline's tasks in order and returns the final
    /// message: no content, and the accumulated environment (none at
    /// all when the pipeline has no task map).  The result is exactly
    /// what stepping a fresh machine to its end yields.  An HTTP
    /// command cannot be served here — it needs a transport, so a host
    /// drives `PipelineRun` itself for that — and fails the run.
    pub fn process(self) -> (r: Result<CommonContent, VermanSchemaError>)
        ensures
            exists|trace: Seq<PipelineRun>| #[trigger] pure_run_yields(self, trace, r),
            self.tasks is None ==> (r matches Ok(c) && c@.content is None && c@.env is None),
            (self.tasks matches Some(ts) && ts@.len() == 0) ==> (r matches Ok(c)
                && c@.content is None && c@.env == Some(
                Seq::<(Seq<char>, crate::json::JsonView)>::empty(),
            )),
            (self.tasks matches Some(ts) && ts@.len() > 0 && ts@[0].1.commands@.len() == 0)
                ==> (r matches Err(e) && e@ == crate::error::ErrorView::NotFound(
                "`Command`s"@,
            )),
            r matches Ok(c) ==> c@.content is None,
            self.tasks is Some ==> (r matches Err(_) || (r matches Ok(c) && c@.env is Some)),
    {
        let ghost document = self;
        let ghost first_task_empty = document.tasks matches Some(ts) && ts@.len() > 0
            && ts@[0].1.commands@.len() == 0;
        let mut run = PipelineRun::new(self);
        let ghost mut trace: Seq<PipelineRun> = seq![run];
        loop
            invariant
                run.wf(),
                run.pipeline == document,
                run.phase == RunPhase::BetweenTasks || run.phase == RunPhase::InTask,
                trace.len() >= 1,
                initial_run(document, trace[0]),
                forall|i: int|
                    0 <= i < trace.len() - 1 ==> quiet_step(#[trigger] trace[i], trace[i + 1]),
                trace.last() == run,
                (document.tasks matches Some(ts) && ts@.len() == 0)
                    ==> run.shared_tasks_env@ =~= Seq::<
                    (Seq<char>, crate::json::JsonView),
                >::empty(),
                first_task_empty ==> run.task_idx == 0 && (run.phase == RunPhase::InTask
                    ==> run.last is None),
            decreases tasks_remaining(run), phase_rank(run), cmds_remaining(run),
        {
            let ghost pre = run;
            match run.step() {
                StepResult::Progress(lines) => {
                    proof {
                        assert(step_post(pre, run, StepResult::Progress(lines)));
                        assert(quiet_step(pre, run));
                        trace = trace.push(run);
                        if pre.phase == RunPhase::BetweenTasks {
                            assert(tasks_remaining(run) == tasks_remaining(pre));
                            assert(phase_rank(run) < phase_rank(pre));
                        }
                    }
                },
                StepResult::NeedHttp(plan) => {
                    let failure = VermanSchemaError::NotInstalled(
                        String::from_str("an HTTP transport; drive `PipelineRun` directly"),
                    );
                    proof {
                        assert(step_post(pre, run, StepResult::NeedHttp(plan)));
                    }
                    let ghost rr: Result<CommonContent, VermanSchemaError> = Err(failure);
                    proof {
                        assert(closing_matches(StepResult::NeedHttp(plan), rr));
                        assert(closing_step(pre, rr));
                        assert(pure_run_yields(document, trace, rr));
                    }
                    return Err(failure);
                },
                StepResult::Finished(c) => {
                    let ghost rr: Result<CommonContent, VermanSchemaError> = Ok(c);
                    proof {
                        assert(step_post(pre, run, StepResult::Finished(c)));
                        assert(closing_matches(StepResult::Finished(c), rr));
                        assert(closing_step(pre, rr));
                        assert(pure_run_yields(document, trace, rr));
                    }
                    return Ok(c);
                },
                StepResult::Failed(e) => {
                    let ghost rr: Result<CommonContent, VermanSchemaError> = Err(e);
                    proof {
                        assert(step_post(pre, run, StepResult::Failed(e)));
                        assert(closing_matches(StepResult::Failed(e), rr));
                        assert(closing_step(pre, rr));
                        assert(pure_run_yields(document, trace, rr));
                    }
                    return Err(e);
                },
            }
        }
    }
}

/// Runs the named tasks in order under the given pipeline name, with
/// no pipeline-level environment, and returns the final message: the
/// outcome of stepping a fresh machine over that pipeline to its end.
pub fn process_tasks_serially(pipeline_name: String, tasks: Vec<(String, Task)>) -> (r: Result<
    CommonContent,
    VermanSchemaError,
>)
    ensures
        exists|p: Pipeline, trace: Seq<PipelineRun>|
            {
                &&& p.name == pipeline_name
                &&& p.tasks == Some(tasks)
                &&& p.env is None
                &&& #[trigger] pure_run_yields(p, trace, r)
            },
        tasks@.len() == 0 ==> (r matches Ok(c) && c@.content is None && c@.env == Some(
            Seq::<(Seq<char>, crate::json::JsonView)>::empty(),
        )),
        r matches Ok(c) ==> c@.content is None,
{
    let mut pipeline = Pipeline::default();
    pipeline.name = pipeline_name;
    pipeline.tasks = Some(tasks);
    let ghost p = pipeline;
    let r = pipeline.process();
    proof {
        let tr = choose|t: Seq<PipelineRun>| pure_run_yields(p, t, r);
        assert(pure_run_yields(p, tr, r));
    }
    r
}

} // verus!
