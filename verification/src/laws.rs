//! Engine-wide guarantees, stated once and proved from the
//! transition and cache contracts.

use vstd::prelude::*;

use crate::command::cache_env_spec;
use crate::command::cached_value;
use crate::command::mirror_key_indexed;
use crate::command::mirror_key_task;
use crate::env::env_extend;
use crate::env::env_get;
use crate::env::env_has;
use crate::env::env_upsert;
use crate::env::lemma_env_first_index;
use crate::env::lemma_env_get_extend;
use crate::env::lemma_env_get_upsert_other;
use crate::env::lemma_env_get_upsert_same;
use crate::error::ErrorView;
use crate::http_client::http_classify_spec;
use crate::json::JsonView;
use crate::models::CommonContentView;
use crate::models::Expectation;
use crate::shared::prev_content_key;
use crate::task::step_post;
use crate::task::PipelineRun;
use crate::task::RunPhase;
use crate::task::StepResult;
use crate::task::task_start_env_spec;

verus! {

/// A key that occurs somewhere also occurs in the reversed
/// environment.
proof fn lemma_env_has_reverse(e: Seq<(Seq<char>, JsonView)>, k: Seq<char>)
    requires
        env_has(e, k),
    ensures
        env_has(e.reverse(), k),
{
    lemma_env_first_index(e, k);
    let i = crate::env::env_first_index(e, k);
    assert(e.reverse()[e.len() - 1 - i] == e[i]);
    lemma_env_first_index(e.reverse(), k);
    if crate::env::env_first_index(e.reverse(), k) == -1 {
        assert(e.reverse()[e.len() - 1 - i].0 != k);
    }
}

/// The mirror keys a command's cache step writes never collide with
/// the previous-content key.
proof fn lemma_mirror_keys_differ(pipeline: Seq<char>, task: Seq<char>, idx: nat)
    ensures
        mirror_key_indexed(pipeline, task, idx) != prev_content_key(),
        mirror_key_task(pipeline, task) != prev_content_key(),
{
    reveal_strlit("CMD_PREVIOUS_CONTENT");
    reveal_strlit("_CMD_CONTENT");
    reveal_strlit("]_CMD_CONTENT");
    let prev = prev_content_key();
    assert(prev.len() == 20);
    let mt = mirror_key_task(pipeline, task);
    let head_t = pipeline + "__"@ + task;
    assert(mt == head_t + "_CMD_CONTENT"@);
    assert("_CMD_CONTENT"@.len() == 12);
    if mt == prev {
        assert(head_t.len() == 8);
        assert(mt[8] == "_CMD_CONTENT"@[0]);
        assert("_CMD_CONTENT"@[0] == '_');
        assert(prev[8] == 'I');
    }
    let mi = mirror_key_indexed(pipeline, task, idx);
    let head_i = pipeline + "__"@ + task + "["@ + crate::json::dec_digits(idx);
    assert(mi == head_i + "]_CMD_CONTENT"@);
    assert("]_CMD_CONTENT"@.len() == 13);
    if mi == prev {
        assert(head_i.len() == 7);
        assert(mi[7] == "]_CMD_CONTENT"@[0]);
        assert("]_CMD_CONTENT"@[0] == ']');
        assert(prev[7] == 'V');
    }
}

/// After any command completes successfully, the previous-content key
/// holds exactly that command's output, in its cached form (a string
/// that is itself a JSON text is cached as the parsed value).  The
/// same equation says that the value the next command observes under
/// the key is exactly the cached output of its predecessor.
pub proof fn lemma_previous_content_after_cache(
    pipeline: Seq<char>,
    task: Seq<char>,
    idx: nat,
    shared: Seq<(Seq<char>, JsonView)>,
    common: CommonContentView,
)
    requires
        common.content is Some,
    ensures
        env_get(cache_env_spec(pipeline, task, idx, shared, common), prev_content_key())
            == Some(cached_value(common.content->Some_0)),
{
    lemma_mirror_keys_differ(pipeline, task, idx);
    let merged = match common.env {
        Some(e) => env_extend(shared, e),
        None => shared,
    };
    let val = cached_value(common.content->Some_0);
    let s1 = env_upsert(merged, prev_content_key(), val);
    let s2 = env_upsert(s1, mirror_key_indexed(pipeline, task, idx), val);
    lemma_env_get_upsert_same(merged, prev_content_key(), val);
    lemma_env_get_upsert_other(s1, mirror_key_indexed(pipeline, task, idx), val,
        prev_content_key());
    lemma_env_get_upsert_other(s2, mirror_key_task(pipeline, task), val, prev_content_key());
}

/// The pipeline-level environment is visible to every task's first
/// command: a key it defines, and which the task's own environment
/// does not override, reads in the task's starting environment as its
/// latest pipeline-level value.
pub proof fn lemma_pipeline_env_visible(
    shared: Seq<(Seq<char>, JsonView)>,
    pipeline_env: Seq<(Seq<char>, JsonView)>,
    task_env: Seq<(Seq<char>, JsonView)>,
    task_name: Seq<char>,
    k: Seq<char>,
)
    requires
        env_has(pipeline_env, k),
        !env_has(task_env, k),
    ensures
        env_get(task_start_env_spec(shared, pipeline_env, task_env, task_name), k) == env_get(
            pipeline_env.reverse(),
            k,
        ),
        env_has(task_start_env_spec(shared, pipeline_env, task_env, task_name), k),
{
    let base = env_upsert(shared, "TASK_CURRENT_NAME"@, JsonView::Str(task_name));
    lemma_env_get_extend(env_extend(base, pipeline_env), task_env, k);
    lemma_env_get_extend(base, pipeline_env, k);
    lemma_env_has_reverse(pipeline_env, k);
    lemma_env_first_index(pipeline_env.reverse(), k);
    lemma_env_first_index(
        task_start_env_spec(shared, pipeline_env, task_env, task_name),
        k,
    );
}

/// Applying a set-env command leaves the content alone (its own
/// contract says so) and leaves every key of the command's environment
/// present in the shared scope, at its latest value.
pub proof fn lemma_set_env_keys_kept(
    shared: Seq<(Seq<char>, JsonView)>,
    arg_env: Seq<(Seq<char>, JsonView)>,
    k: Seq<char>,
)
    requires
        env_has(arg_env, k),
    ensures
        env_get(env_extend(shared, arg_env), k) == env_get(arg_env.reverse(), k),
        env_has(env_extend(shared, arg_env), k),
{
    lemma_env_get_extend(shared, arg_env, k);
    lemma_env_has_reverse(arg_env, k);
    lemma_env_first_index(arg_env.reverse(), k);
    lemma_env_first_index(env_extend(shared, arg_env), k);
}

/// A response whose status differs from the expected one classifies as
/// exactly the error carrying that status.
pub proof fn lemma_status_mismatch_is_http_error(
    expectation: Expectation,
    status: u16,
    content_type: Option<Seq<char>>,
    body: Seq<char>,
)
    requires
        status != expectation.status_code,
    ensures
        http_classify_spec(expectation, status, content_type, body) == Err::<
            CommonContentView,
            ErrorView,
        >(ErrorView::HttpError(status)),
{
}

/// A task whose command list is empty fails the run with
/// `NotFound("`Command`s")`: beginning such a task and then stepping
/// once more can only fail that way.
pub proof fn lemma_empty_command_list_fails(
    pre: PipelineRun,
    mid: PipelineRun,
    fin: PipelineRun,
    r1: StepResult,
    r2: StepResult,
)
    requires
        pre.wf(),
        pre.phase == RunPhase::BetweenTasks,
        pre.pipeline.tasks is Some,
        pre.task_idx < pre.pipeline.tasks->Some_0@.len(),
        pre.pipeline.tasks->Some_0@[pre.task_idx as int].1.commands@.len() == 0,
        step_post(pre, mid, r1),
        mid.wf(),
        mid.pipeline == pre.pipeline,
        step_post(mid, fin, r2),
    ensures
        r2 matches StepResult::Failed(e) && e@ == ErrorView::NotFound("`Command`s"@),
{
}

/// A quiet step never goes back to an earlier task and never touches
/// the pipeline.
pub proof fn lemma_quiet_step_advances(a: PipelineRun, b: PipelineRun)
    requires
        crate::pipeline::quiet_step(a, b),
    ensures
        a.task_idx <= b.task_idx,
        b.pipeline == a.pipeline,
{
    let lines = choose|lines: Vec<String>|
        step_post(a, b, crate::task::StepResult::Progress(lines));
    assert(step_post(a, b, crate::task::StepResult::Progress(lines)));
}

/// Along any run of the machine, tasks go strictly in order: the task
/// index never decreases from one state to a later one.
pub proof fn lemma_run_tasks_in_order(
    p: crate::models::Pipeline,
    trace: Seq<PipelineRun>,
    r: Result<crate::models::CommonContent, crate::error::VermanSchemaError>,
    i: int,
    j: int,
)
    requires
        crate::pipeline::pure_run_yields(p, trace, r),
        0 <= i <= j < trace.len(),
    ensures
        trace[i].task_idx <= trace[j].task_idx,
    decreases j - i,
{
    if i < j {
        lemma_run_tasks_in_order(p, trace, r, i, j - 1);
        lemma_quiet_step_advances(trace[j - 1], trace[j]);
    }
}

/// A quiet step out of the between-tasks phase begins the next task:
/// the commands start from the shared environment with the task's
/// name published, the pipeline environment seeded and the task's own
/// environment merged on top.
pub proof fn lemma_run_task_start(a: PipelineRun, b: PipelineRun)
    requires
        crate::pipeline::quiet_step(a, b),
        a.phase == RunPhase::BetweenTasks,
        b.phase == RunPhase::InTask,
    ensures
        a.pipeline.tasks is Some,
        a.task_idx < a.pipeline.tasks->Some_0@.len(),
        b.task_idx == a.task_idx,
        b.cmd_idx == 0,
        b.shared_cmds_env@ == task_start_env_spec(
            a.shared_tasks_env@,
            crate::task::opt_env_view(a.pipeline.env),
            crate::task::opt_env_view(
                a.pipeline.tasks->Some_0@[a.task_idx as int].1.env,
            ),
            a.pipeline.tasks->Some_0@[a.task_idx as int].0@,
        ),
{
    let lines = choose|lines: Vec<String>|
        step_post(a, b, crate::task::StepResult::Progress(lines));
    assert(step_post(a, b, crate::task::StepResult::Progress(lines)));
}

/// A quiet step back into the between-tasks phase ends the task: its
/// last command's message is published into the shared environment as
/// `end_task_env_spec` describes, and the next task is up.
pub proof fn lemma_run_task_end(a: PipelineRun, b: PipelineRun)
    requires
        crate::pipeline::quiet_step(a, b),
        a.phase == RunPhase::InTask,
        b.phase == RunPhase::BetweenTasks,
    ensures
        a.pipeline.tasks is Some,
        a.last is Some,
        b.task_idx == a.task_idx + 1,
        b.shared_tasks_env@ == crate::task::end_task_env_spec(
            a.shared_tasks_env@,
            a.last->Some_0@,
            a.pipeline.name@,
            a.pipeline.tasks->Some_0@[a.task_idx as int].0@,
            a.task_idx as nat,
        ),
{
    let lines = choose|lines: Vec<String>|
        step_post(a, b, crate::task::StepResult::Progress(lines));
    assert(step_post(a, b, crate::task::StepResult::Progress(lines)));
}

/// The task mirror keys never collide with the previous-task-name
/// key.
proof fn lemma_task_keys_differ(pipeline: Seq<char>, task: Seq<char>, idx: nat)
    ensures
        crate::task::task_content_key(pipeline, task) != "TASK_PREVIOUS_NAME"@,
        crate::task::task_content_key_indexed(pipeline, task, idx) != "TASK_PREVIOUS_NAME"@,
        prev_content_key() != "TASK_PREVIOUS_NAME"@,
{
    reveal_strlit("TASK_PREVIOUS_NAME");
    reveal_strlit("CMD_PREVIOUS_CONTENT");
    reveal_strlit("_TASK_CONTENT");
    reveal_strlit("]_TASK_CONTENT");
    let tpn = "TASK_PREVIOUS_NAME"@;
    assert(tpn.len() == 18);
    assert(prev_content_key().len() == 20);
    let mt = crate::task::task_content_key(pipeline, task);
    let head_t = pipeline + "__"@ + task;
    assert(mt == head_t + "_TASK_CONTENT"@);
    assert("_TASK_CONTENT"@.len() == 13);
    if mt == tpn {
        assert(head_t.len() == 5);
        assert(mt[5] == "_TASK_CONTENT"@[0]);
        assert("_TASK_CONTENT"@[0] == '_');
        assert(tpn[5] == 'P');
    }
    let mi = crate::task::task_content_key_indexed(pipeline, task, idx);
    let head_i = pipeline + "__"@ + task + "["@ + crate::json::dec_digits(idx);
    assert(mi == head_i + "]_TASK_CONTENT"@);
    assert("]_TASK_CONTENT"@.len() == 14);
    if mi == tpn {
        assert(head_i.len() == 4);
        assert(mi[4] == "]_TASK_CONTENT"@[0]);
        assert("]_TASK_CONTENT"@[0] == ']');
        assert(tpn[4] == '_');
    }
}

/// After a task ends, the shared environment names it as the previous
/// task.
pub proof fn lemma_task_previous_after_end(
    shared: Seq<(Seq<char>, JsonView)>,
    common: CommonContentView,
    pipeline_name: Seq<char>,
    task_name: Seq<char>,
    task_idx: nat,
)
    ensures
        env_get(
            crate::task::end_task_env_spec(shared, common, pipeline_name, task_name, task_idx),
            "TASK_PREVIOUS_NAME"@,
        ) == Some(JsonView::Str(task_name)),
{
    lemma_task_keys_differ(pipeline_name, task_name, task_idx);
    let s1 = crate::env::env_remove(shared, "TASK_CURRENT_NAME"@);
    let s2 = crate::env::env_remove(s1, "CMD_CURRENT_CONTENT"@);
    let s3 = match common.env {
        Some(e) => env_extend(s2, e),
        None => s2,
    };
    let s4 = env_upsert(s3, "TASK_PREVIOUS_NAME"@, JsonView::Str(task_name));
    lemma_env_get_upsert_same(s3, "TASK_PREVIOUS_NAME"@, JsonView::Str(task_name));
    match common.content {
        Some(cv) => {
            let s5 = env_upsert(s4, prev_content_key(), cv);
            let s6 = env_upsert(
                s5,
                crate::task::task_content_key_indexed(pipeline_name, task_name, task_idx),
                cv,
            );
            lemma_env_get_upsert_other(s4, prev_content_key(), cv, "TASK_PREVIOUS_NAME"@);
            lemma_env_get_upsert_other(
                s5,
                crate::task::task_content_key_indexed(pipeline_name, task_name, task_idx),
                cv,
                "TASK_PREVIOUS_NAME"@,
            );
            lemma_env_get_upsert_other(
                s6,
                crate::task::task_content_key(pipeline_name, task_name),
                cv,
                "TASK_PREVIOUS_NAME"@,
            );
        },
        None => {},
    }
}

} // verus!
