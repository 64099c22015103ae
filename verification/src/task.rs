//! The two-level runner, as a state machine.
//!
//! Tasks run in order; within a task, commands run in order.  The only
//! work the engine cannot do itself is the HTTP exchange: when an HTTP
//! command comes up, the machine hands the prepared request to the
//! host and pauses until the host feeds the response back.  The first
//! failing command ends the run.

use vstd::prelude::*;

use crate::command::cache_env_spec;
use crate::command::echo_spec;
use crate::command::env_dump_lines_spec;
use crate::command::env_spec;
use crate::command::interpolate_spec;
use crate::command::Command;
use crate::env::env_extend;
use crate::env::env_remove;
use crate::env::env_upsert;
use crate::env::Env;
use crate::error::ErrorView;
use crate::error::VermanSchemaError;
use crate::http_client::http_prepare_view_spec;
use crate::http_client::headers_view;
use crate::http_client::http_classify_spec;
use crate::http_client::HttpRequestPlan;
use crate::json::dec_digits;
use crate::json::str_form;
use crate::json::JsonValue;
use crate::json::JsonView;
use crate::models::CommonContent;
use crate::models::CommonContentView;
use crate::models::Expectation;
use crate::models::HttpCommandArgs;
use crate::models::Pipeline;
use crate::shared::prev_content_key;

verus! {

/// The environment keys the engine manages around tasks.
#[derive(Debug, PartialEq, Eq, Structural, Clone, Copy)]
pub enum TaskKey {
    CurrentName,
    PreviousName,
}

impl TaskKey {
    /// The key's name in the environment.
    pub fn key_string(&self) -> (r: String)
        ensures
            *self == TaskKey::CurrentName ==> r@ == "TASK_CURRENT_NAME"@,
            *self == TaskKey::PreviousName ==> r@ == "TASK_PREVIOUS_NAME"@,
    {
        match self {
            TaskKey::CurrentName => String::from_str("TASK_CURRENT_NAME"),
            TaskKey::PreviousName => String::from_str("TASK_PREVIOUS_NAME"),
        }
    }
}

/// The scoped mirror key naming a task's result.
pub open spec fn task_content_key(pipeline: Seq<char>, task: Seq<char>) -> Seq<char> {
    pipeline + "__"@ + task + "_TASK_CONTENT"@
}

/// The scoped mirror key naming a task's result by the task's index.
pub open spec fn task_content_key_indexed(
    pipeline: Seq<char>,
    task: Seq<char>,
    idx: nat,
) -> Seq<char> {
    pipeline + "__"@ + task + "["@ + dec_digits(idx) + "]_TASK_CONTENT"@
}

/// The mirror index of a command: the task's index plus the command's,
/// saturating at the machine limit.
pub open spec fn mirror_index(task_idx: nat, cmd_idx: nat) -> nat {
    if task_idx + cmd_idx <= usize::MAX {
        task_idx + cmd_idx
    } else {
        usize::MAX as nat
    }
}

/// Where the machine stands.
#[derive(Debug, PartialEq, Eq, Structural, Clone, Copy)]
pub enum RunPhase {
    /// The next step begins a task, or finishes the run.
    BetweenTasks,
    /// The next step runs a command, or ends the task.
    InTask,
    /// An HTTP request is out; the stored expectation classifies the
    /// response.
    AwaitingHttp(Expectation),
    /// The run is over; `outcome` holds the result.
    Done,
}

/// What one step of the machine produced.
#[derive(Debug)]
pub enum StepResult {
    /// The machine advanced; the host prints the lines.
    Progress(Vec<String>),
    /// The host must perform this exchange and call `resume_http`.
    NeedHttp(HttpRequestPlan),
    /// The run succeeded.
    Finished(CommonContent),
    /// The run failed.
    Failed(VermanSchemaError),
}

/// A paused or running pipeline execution.
#[derive(Debug)]
pub struct PipelineRun {
    /// The document under execution; never changed.
    pub pipeline: Pipeline,
    /// Which task is up.
    pub task_idx: usize,
    /// Which command of the current task is up.
    pub cmd_idx: usize,
    /// The environment threaded between tasks.
    pub shared_tasks_env: Env,
    /// The environment threaded between the current task's commands.
    pub shared_cmds_env: Env,
    /// The last command's result within the current task.
    pub last: Option<CommonContent>,
    /// Where the machine stands.
    pub phase: RunPhase,
    /// The run's result, once the phase is `Done`.
    pub outcome: Option<Result<CommonContent, VermanSchemaError>>,
}

/// The environment view of an optional environment.
pub open spec fn opt_env_view(e: Option<Env>) -> Seq<(Seq<char>, JsonView)> {
    match e {
        Some(en) => en@,
        None => Seq::empty(),
    }
}

/// The content view of an optional content.
pub open spec fn opt_content_view(c: Option<JsonValue>) -> Option<JsonView> {
    match c {
        Some(v) => Some(v@),
        None => None,
    }
}

/// The environment a task's commands start from: the task's name is
/// published, then the pipeline environment seeds the scope, then the
/// task's own environment overrides.
pub open spec fn task_start_env_spec(
    shared: Seq<(Seq<char>, JsonView)>,
    pipeline_env: Seq<(Seq<char>, JsonView)>,
    task_env: Seq<(Seq<char>, JsonView)>,
    task_name: Seq<char>,
) -> Seq<(Seq<char>, JsonView)> {
    env_extend(
        env_extend(
            env_upsert(shared, "TASK_CURRENT_NAME"@, JsonView::Str(task_name)),
            pipeline_env,
        ),
        task_env,
    )
}

/// The shared environment after a task ends well: the bookkeeping keys
/// leave, the task's final environment merges in, the task's name is
/// published as previous, and its content (when any) is published
/// under the previous-content key and the task mirrors.
pub open spec fn end_task_env_spec(
    shared: Seq<(Seq<char>, JsonView)>,
    common: CommonContentView,
    pipeline_name: Seq<char>,
    task_name: Seq<char>,
    task_idx: nat,
) -> Seq<(Seq<char>, JsonView)> {
    let s1 = env_remove(shared, "TASK_CURRENT_NAME"@);
    let s2 = env_remove(s1, "CMD_CURRENT_CONTENT"@);
    let s3 = match common.env {
        Some(e) => env_extend(s2, e),
        None => s2,
    };
    let s4 = env_upsert(s3, "TASK_PREVIOUS_NAME"@, JsonView::Str(task_name));
    match common.content {
        Some(cv) => env_upsert(
            env_upsert(
                env_upsert(s4, prev_content_key(), cv),
                task_content_key_indexed(pipeline_name, task_name, task_idx),
                cv,
            ),
            task_content_key(pipeline_name, task_name),
            cv,
        ),
        None => s4,
    }
}

/// The lines the echo command prints.
pub open spec fn echo_lines_spec(c: CommonContentView) -> Seq<Seq<char>> {
    match c.content {
        Some(v) => seq![str_form(v)],
        None => Seq::empty(),
    }
}

/// The lines the env-dump command prints.
pub open spec fn env_lines_spec(c: CommonContentView) -> Seq<Seq<char>> {
    match c.env {
        Some(e) => env_dump_lines_spec(e),
        None => Seq::empty(),
    }
}

/// Whether `out` is a possible success of the command on the resolved
/// argument `arg`.  The first four kinds are deterministic; the jq
/// command admits one success for each non-empty oracle answer.
pub open spec fn command_ok_rel(cmd: Command, arg: CommonContentView, out: CommonContentView) -> bool {
    match cmd {
        Command::Echo(_) => echo_spec(arg) == Ok::<CommonContentView, ErrorView>(out),
        Command::Env(_) => env_spec(arg) == Ok::<CommonContentView, ErrorView>(out),
        Command::Interpolate(_) => interpolate_spec(arg) == Ok::<
            CommonContentView,
            ErrorView,
        >(out),
        Command::Jaq(_) => crate::jaq::jaq_input_spec(arg) is Ok && (exists|
            answer: Option<Seq<char>>,
        |
            #[trigger] crate::jaq::jaq_output_spec(answer) == Ok::<
                CommonContentView,
                ErrorView,
            >(out)),
        Command::SetEnv(_) => out == arg,
        Command::HttpClient(_) => false,
    }
}

/// Whether `e` is a possible failure of the command on the resolved
/// argument `arg`.
pub open spec fn command_err_rel(cmd: Command, arg: CommonContentView, e: ErrorView) -> bool {
    match cmd {
        Command::Echo(_) => echo_spec(arg) == Err::<CommonContentView, ErrorView>(e),
        Command::Env(_) => env_spec(arg) == Err::<CommonContentView, ErrorView>(e),
        Command::Interpolate(_) => interpolate_spec(arg) == Err::<
            CommonContentView,
            ErrorView,
        >(e),
        Command::Jaq(_) => crate::jaq::jaq_input_spec(arg) == Err::<
            (Seq<char>, JsonView),
            ErrorView,
        >(e) || (crate::jaq::jaq_input_spec(arg) is Ok && (exists|
            answer: Option<Seq<char>>,
        |
            #[trigger] crate::jaq::jaq_output_spec(answer) == Err::<
                CommonContentView,
                ErrorView,
            >(e))),
        Command::SetEnv(_) => false,
        Command::HttpClient(_) => false,
    }
}

/// What a command prints, given its successful result.
pub open spec fn command_lines_spec(cmd: Command, out: CommonContentView) -> Seq<Seq<char>> {
    match cmd {
        Command::Echo(_) => echo_lines_spec(out),
        Command::Env(_) => env_lines_spec(out),
        _ => Seq::empty(),
    }
}

impl PipelineRun {
    /// The machine's bookkeeping is sound: indices stay in range and
    /// the outcome exists exactly once the run is over.
    pub open spec fn wf(self) -> bool {
        &&& ((self.phase is InTask || self.phase is AwaitingHttp) ==> (
        self.pipeline.tasks matches Some(ts) && self.task_idx < ts@.len()))
        &&& (self.phase is AwaitingHttp ==> (self.pipeline.tasks matches Some(ts)
            && self.cmd_idx < ts@[self.task_idx as int].1.commands@.len()))
        &&& ((self.outcome is Some) <==> (self.phase is Done))
    }

    /// The argument message a command at the current position is
    /// resolved with: its own environment merged into the shared one.
    pub open spec fn merged_arg_env(self, arg_env: Option<Env>) -> Seq<(Seq<char>, JsonView)> {
        env_extend(self.shared_cmds_env@, opt_env_view(arg_env))
    }

    /// A fresh machine at the start of the pipeline.
    pub fn new(pipeline: Pipeline) -> (r: PipelineRun)
        ensures
            r.pipeline == pipeline,
            r.task_idx == 0,
            r.cmd_idx == 0,
            r.shared_tasks_env@ == Seq::<(Seq<char>, JsonView)>::empty(),
            r.shared_cmds_env@ == Seq::<(Seq<char>, JsonView)>::empty(),
            r.last is None,
            r.phase == RunPhase::BetweenTasks,
            r.outcome is None,
            r.wf(),
    {
        PipelineRun {
            pipeline,
            task_idx: 0,
            cmd_idx: 0,
            shared_tasks_env: Env::new(),
            shared_cmds_env: Env::new(),
            last: None,
            phase: RunPhase::BetweenTasks,
            outcome: None,
        }
    }

    /// One step of the machine; callable while it is not waiting and
    /// not done.
    pub fn step(&mut self) -> (r: StepResult)
        requires
            old(self).wf(),
            old(self).phase == RunPhase::BetweenTasks || old(self).phase == RunPhase::InTask,
        ensures
            final (self).wf(),
            final (self).pipeline == old(self).pipeline,
            step_post(*old(self), *final (self), r),
    {
        let ghost pre = *self;
        match self.phase {
            RunPhase::BetweenTasks => {
                match &self.pipeline.tasks {
                    None => {
                        let result = CommonContent::new();
                        self.outcome = Some(Ok(result.duplicate()));
                        self.phase = RunPhase::Done;
                        StepResult::Finished(result)
                    },
                    Some(ts) => {
                        if self.task_idx >= ts.len() {
                            let result = CommonContent {
                                content: None,
                                env: Some(self.shared_tasks_env.duplicate()),
                            };
                            self.outcome = Some(Ok(result.duplicate()));
                            self.phase = RunPhase::Done;
                            StepResult::Finished(result)
                        } else {
                            let task_name = ts[self.task_idx].0.clone();
                            let current_key = TaskKey::CurrentName.key_string();
                            self.shared_tasks_env.insert(
                                current_key,
                                JsonValue::Str(task_name),
                            );
                            let penv = match &self.pipeline.env {
                                Some(e) => Some(e.duplicate()),
                                None => None,
                            };
                            crate::shared::merge_env(&mut self.shared_tasks_env, &penv);
                            let tenv = match &self.pipeline.tasks {
                                Some(ts2) => {
                                    match &ts2[self.task_idx].1.env {
                                        Some(e) => Some(e.duplicate()),
                                        None => None,
                                    }
                                },
                                None => None,
                            };
                            crate::shared::merge_env(&mut self.shared_tasks_env, &tenv);
                            self.shared_cmds_env = self.shared_tasks_env.duplicate();
                            self.cmd_idx = 0;
                            self.last = None;
                            self.phase = RunPhase::InTask;
                            StepResult::Progress(Vec::new())
                        }
                    },
                }
            },
            RunPhase::InTask => self.step_in_task(),
            _ => {
                proof {
                    assert(false);
                }
                StepResult::Progress(Vec::new())
            },
        }
    }

    /// One in-task step: run the next command, or end the task.
    fn step_in_task(&mut self) -> (r: StepResult)
        requires
            old(self).wf(),
            old(self).phase == RunPhase::InTask,
        ensures
            final (self).wf(),
            final (self).pipeline == old(self).pipeline,
            step_post(*old(self), *final (self), r),
    {
        let task_len = match &self.pipeline.tasks {
            Some(ts) => ts[self.task_idx].1.commands.len(),
            None => 0,
        };
        if self.cmd_idx >= task_len {
            self.end_task()
        } else {
            self.run_command()
        }
    }

    /// Ends the current task: fails an empty task, else publishes the
    /// task's result into the shared environment.
    #[verifier::rlimit(100)]
    fn end_task(&mut self) -> (r: StepResult)
        requires
            old(self).wf(),
            old(self).phase == RunPhase::InTask,
            old(self).pipeline.tasks is Some,
            old(self).cmd_idx >= old(self).pipeline.tasks->Some_0@[
                old(self).task_idx as int].1.commands@.len(),
        ensures
            final (self).wf(),
            final (self).pipeline == old(self).pipeline,
            step_post(*old(self), *final (self), r),
    {
        let _task_count: usize = match &self.pipeline.tasks {
            Some(ts) => ts.len(),
            None => 0,
        };
        {
            // End of the task.
            match self.last.take() {
                None => {
                    let err = VermanSchemaError::NotFound(String::from_str("`Command`s"));
                    self.outcome = Some(Err(err.duplicate()));
                    self.phase = RunPhase::Done;
                    return StepResult::Failed(err);
                },
                Some(common) => {
                    let current_key = TaskKey::CurrentName.key_string();
                    self.shared_tasks_env.remove(&current_key);
                    let current_content_key =
                        crate::command::CommandKey::CurrentContent.key_string();
                    self.shared_tasks_env.remove(&current_content_key);
                    match &common.env {
                        Some(e) => self.shared_tasks_env.extend_from(e),
                        None => {},
                    }
                    let task_name = match &self.pipeline.tasks {
                        Some(ts) => ts[self.task_idx].0.clone(),
                        None => String::new(),
                    };
                    let previous_key = TaskKey::PreviousName.key_string();
                    self.shared_tasks_env.insert(
                        previous_key,
                        JsonValue::Str(task_name.clone()),
                    );
                    match &common.content {
                        Some(value) => {
                            let prev_key = crate::shared::prev_content_key_string();
                            self.shared_tasks_env.insert(prev_key, value.duplicate());
                            let key_i = task_content_key_indexed_string(
                                &self.pipeline.name,
                                &task_name,
                                self.task_idx,
                            );
                            self.shared_tasks_env.insert(key_i, value.duplicate());
                            let key_t = task_content_key_string(
                                &self.pipeline.name,
                                &task_name,
                            );
                            self.shared_tasks_env.insert(key_t, value.duplicate());
                        },
                        None => {},
                    }
                    self.task_idx = self.task_idx + 1;
                    self.phase = RunPhase::BetweenTasks;
                    return StepResult::Progress(Vec::new());
                },
            }
        }
    }

    /// Runs the command the machine stands at.
    #[verifier::rlimit(100)]
    fn run_command(&mut self) -> (r: StepResult)
        requires
            old(self).wf(),
            old(self).phase == RunPhase::InTask,
            old(self).pipeline.tasks is Some,
            old(self).cmd_idx < old(self).pipeline.tasks->Some_0@[
                old(self).task_idx as int].1.commands@.len(),
        ensures
            final (self).wf(),
            final (self).pipeline == old(self).pipeline,
            step_post(*old(self), *final (self), r),
    {
        let _cmd_count: usize = match &self.pipeline.tasks {
            Some(ts) => ts[self.task_idx].1.commands.len(),
            None => 0,
        };
        let (arg_content, arg_env, is_http): (Option<JsonValue>, Option<Env>, bool) = {
            let cmd = match &self.pipeline.tasks {
                Some(ts) => &ts[self.task_idx].1.commands[self.cmd_idx],
                None => {
                    proof {
                        assert(false);
                    }
                    return StepResult::Progress(Vec::new());
                },
            };
            match cmd {
                Command::Echo(arg) | Command::Env(arg) | Command::Interpolate(arg)
                    | Command::Jaq(arg) | Command::SetEnv(arg) => (
                    match &arg.content {
                        Some(v) => Some(v.duplicate()),
                        None => None,
                    },
                    match &arg.env {
                        Some(e) => Some(e.duplicate()),
                        None => None,
                    },
                    false,
                ),
                Command::HttpClient(h) => (
                    match &h.common_content.content {
                        Some(v) => Some(v.duplicate()),
                        None => None,
                    },
                    match &h.common_content.env {
                        Some(e) => Some(e.duplicate()),
                        None => None,
                    },
                    true,
                ),
            }
        };
        crate::shared::merge_env(&mut self.shared_cmds_env, &arg_env);
        let arg2 = CommonContent { content: arg_content, env: Some(
            self.shared_cmds_env.duplicate(),
        ) };
        if is_http {
            let (http_args, expectation): (crate::models::HttpArgs, Expectation) = {
                let cmd = match &self.pipeline.tasks {
                    Some(ts) => &ts[self.task_idx].1.commands[self.cmd_idx],
                    None => {
                        proof {
                            assert(false);
                        }
                        return StepResult::Progress(Vec::new());
                    },
                };
                match cmd {
                    Command::HttpClient(h) => (h.args.duplicate(), h.expectation),
                    _ => {
                        proof {
                            assert(false);
                        }
                        return StepResult::Progress(Vec::new());
                    },
                }
            };
            let full = HttpCommandArgs {
                args: http_args,
                common_content: arg2,
                expectation,
            };
            match crate::http_client::http_prepare(&full) {
                Ok(plan) => {
                    self.phase = RunPhase::AwaitingHttp(expectation);
                    StepResult::NeedHttp(plan)
                },
                Err(e) => {
                    self.outcome = Some(Err(e.duplicate()));
                    self.phase = RunPhase::Done;
                    StepResult::Failed(e)
                },
            }
        } else {
            let kind: u8 = {
                let cmd = match &self.pipeline.tasks {
                    Some(ts) => &ts[self.task_idx].1.commands[self.cmd_idx],
                    None => {
                        proof {
                            assert(false);
                        }
                        return StepResult::Progress(Vec::new());
                    },
                };
                match cmd {
                    Command::Echo(_) => 0,
                    Command::Env(_) => 1,
                    Command::Interpolate(_) => 2,
                    Command::Jaq(_) => 3,
                    Command::SetEnv(_) => 4,
                    Command::HttpClient(_) => 5,
                }
            };
            let result: Result<CommonContent, VermanSchemaError> = if kind == 0 {
                crate::command::echo(&arg2)
            } else if kind == 1 {
                crate::command::env(&arg2)
            } else if kind == 2 {
                crate::command::interpolate(&arg2)
            } else if kind == 3 {
                crate::jaq::jaq(&arg2)
            } else {
                crate::command::set_env(&arg2)
            };
            match result {
                Ok(common) => {
                    let lines: Vec<String> = if kind == 0 {
                        match &common.content {
                            Some(v) => {
                                let mut ls: Vec<String> = Vec::new();
                                ls.push(crate::env::string_form(v));
                                proof {
                                    assert(ls@.drop_last() =~= Seq::<String>::empty());
                                    assert(crate::chars::strs_view(ls@)
                                        == crate::chars::strs_view(ls@.drop_last()).push(
                                        ls@.last()@));
                                    assert(crate::chars::strs_view(ls@) =~= seq![
                                        str_form(common@.content->Some_0),
                                    ]);
                                }
                                ls
                            },
                            None => Vec::new(),
                        }
                    } else if kind == 1 {
                        match &common.env {
                            Some(e) => crate::command::env_dump_lines(e),
                            None => Vec::new(),
                        }
                    } else {
                        Vec::new()
                    };
                    self.finish_command(common, lines)
                },
                Err(e) => {
                    self.outcome = Some(Err(e.duplicate()));
                    self.phase = RunPhase::Done;
                    StepResult::Failed(e)
                },
            }
        }
    }

    /// Publishes a finished command's output and moves to the next
    /// command.
    fn finish_command(&mut self, common: CommonContent, lines: Vec<String>) -> (r: StepResult)
        requires
            old(self).wf(),
            old(self).phase == RunPhase::InTask || old(self).phase is AwaitingHttp,
            old(self).pipeline.tasks is Some,
            old(self).task_idx < old(self).pipeline.tasks->Some_0@.len(),
            old(self).cmd_idx < usize::MAX,
        ensures
            final (self).wf(),
            final (self).pipeline == old(self).pipeline,
            final (self).phase == RunPhase::InTask,
            final (self).task_idx == old(self).task_idx,
            final (self).cmd_idx == old(self).cmd_idx + 1,
            final (self).shared_tasks_env == old(self).shared_tasks_env,
            final (self).shared_cmds_env@ == cache_env_spec(
                old(self).pipeline.name@,
                old(self).pipeline.tasks->Some_0@[old(self).task_idx as int].0@,
                mirror_index(old(self).task_idx as nat, old(self).cmd_idx as nat),
                old(self).shared_cmds_env@,
                common@,
            ),
            final (self).last matches Some(l) && l@ == common@,
            r matches StepResult::Progress(ls) && ls == lines,
    {
        let task_name = match &self.pipeline.tasks {
            Some(ts) => ts[self.task_idx].0.clone(),
            None => String::new(),
        };
        let midx: usize = if usize::MAX - self.task_idx >= self.cmd_idx {
            self.task_idx + self.cmd_idx
        } else {
            usize::MAX
        };
        let held: Result<CommonContent, VermanSchemaError> = Ok(common);
        let cached = Command::cache(
            &self.pipeline.name,
            &task_name,
            midx,
            &mut self.shared_cmds_env,
            &held,
        );
        match cached {
            Ok(_) => {},
            Err(_) => {
                proof {
                    assert(false);
                }
            },
        }
        match held {
            Ok(c) => {
                self.last = Some(c);
            },
            Err(_) => {
                proof {
                    assert(false);
                }
            },
        }
        self.cmd_idx = self.cmd_idx + 1;
        self.phase = RunPhase::InTask;
        StepResult::Progress(lines)
    }

    /// Feeds the response of the outstanding HTTP exchange back into
    /// the machine.
    pub fn resume_http(
        &mut self,
        status: u16,
        content_type: Option<String>,
        body: String,
    ) -> (r: StepResult)
        requires
            old(self).wf(),
            old(self).phase is AwaitingHttp,
        ensures
            final (self).wf(),
            final (self).pipeline == old(self).pipeline,
            resume_post(
                *old(self),
                *final (self),
                r,
                status,
                match content_type {
                    Some(ref t) => Some(t@),
                    None => None,
                },
                body@,
            ),
    {
        let expectation: Expectation = match self.phase {
            RunPhase::AwaitingHttp(e) => e,
            _ => {
                proof {
                    assert(false);
                }
                Expectation { status_code: 0, exit_code: 0 }
            },
        };
        let _cmds_len: usize = match &self.pipeline.tasks {
            Some(ts) => ts[self.task_idx].1.commands.len(),
            None => 0,
        };
        match crate::http_client::http_classify(&expectation, status, content_type, body) {
            Ok(common) => self.finish_command(common, Vec::new()),
            Err(e) => {
                self.outcome = Some(Err(e.duplicate()));
                self.phase = RunPhase::Done;
                StepResult::Failed(e)
            },
        }
    }
}

/// Builds the per-task mirror key.
fn task_content_key_string(pipeline: &String, task: &String) -> (r: String)
    ensures
        r@ == task_content_key(pipeline@, task@),
{
    let mut r = pipeline.clone();
    r.append("__");
    r.append(task.as_str());
    r.append("_TASK_CONTENT");
    r
}

/// Builds the indexed per-task mirror key.
fn task_content_key_indexed_string(pipeline: &String, task: &String, idx: usize) -> (r: String)
    ensures
        r@ == task_content_key_indexed(pipeline@, task@, idx as nat),
{
    let mut r = pipeline.clone();
    r.append("__");
    r.append(task.as_str());
    r.append("[");
    let mut digits: Vec<char> = Vec::new();
    crate::json::write_u64(&mut digits, idx as u64);
    let d = crate::chars::chars_to_string(&digits);
    r.append(d.as_str());
    r.append("]_TASK_CONTENT");
    r
}

/// How the machine may change in one `step`, and what the step hands
/// back.
pub open spec fn step_post(pre: PipelineRun, post: PipelineRun, r: StepResult) -> bool {
    &&& (pre.phase == RunPhase::BetweenTasks && pre.pipeline.tasks is None ==> {
        &&& post.phase == RunPhase::Done
        &&& r matches StepResult::Finished(c) && c@.content is None && c@.env is None
        &&& post.outcome matches Some(o) && o matches Ok(c2) && c2@.content is None
            && c2@.env is None
    })
    &&& (pre.pipeline.tasks is Some && pre.phase == RunPhase::BetweenTasks
        && pre.task_idx >= pre.pipeline.tasks->Some_0@.len() ==> {
        &&& post.phase == RunPhase::Done
        &&& r matches StepResult::Finished(c) && c@.content is None && c@.env == Some(
            pre.shared_tasks_env@,
        )
    })
    &&& (pre.pipeline.tasks is Some && pre.phase == RunPhase::BetweenTasks
        && pre.task_idx < pre.pipeline.tasks->Some_0@.len() ==> {
        let ts = pre.pipeline.tasks->Some_0@;
        &&& post.phase == RunPhase::InTask
        &&& post.task_idx == pre.task_idx
        &&& post.cmd_idx == 0
        &&& post.last is None
        &&& post.shared_tasks_env@ == task_start_env_spec(
            pre.shared_tasks_env@,
            opt_env_view(pre.pipeline.env),
            opt_env_view(ts[pre.task_idx as int].1.env),
            ts[pre.task_idx as int].0@,
        )
        &&& post.shared_cmds_env@ == post.shared_tasks_env@
        &&& r matches StepResult::Progress(ls) && ls@.len() == 0
    })
    &&& (pre.pipeline.tasks is Some && pre.phase == RunPhase::InTask && pre.task_idx
        < pre.pipeline.tasks->Some_0@.len() && pre.cmd_idx >= pre.pipeline.tasks->Some_0@[
        pre.task_idx as int].1.commands@.len() ==> {
        let ts = pre.pipeline.tasks->Some_0@;
        let task_name = ts[pre.task_idx as int].0@;
        match pre.last {
            None => {
                &&& post.phase == RunPhase::Done
                &&& r matches StepResult::Failed(e) && e@ == ErrorView::NotFound("`Command`s"@)
                &&& post.outcome matches Some(o) && o matches Err(e2) && e2@
                    == ErrorView::NotFound("`Command`s"@)
            },
            Some(common) => {
                &&& post.phase == RunPhase::BetweenTasks
                &&& post.task_idx == pre.task_idx + 1
                &&& post.shared_tasks_env@ == end_task_env_spec(
                    pre.shared_tasks_env@,
                    common@,
                    pre.pipeline.name@,
                    task_name,
                    pre.task_idx as nat,
                )
                &&& r matches StepResult::Progress(ls) && ls@.len() == 0
            },
        }
    })
    &&& (pre.pipeline.tasks is Some && pre.phase == RunPhase::InTask && pre.task_idx
        < pre.pipeline.tasks->Some_0@.len() && pre.cmd_idx < pre.pipeline.tasks->Some_0@[
        pre.task_idx as int].1.commands@.len() ==> {
        let ts = pre.pipeline.tasks->Some_0@;
        let cmd = ts[pre.task_idx as int].1.commands@[pre.cmd_idx as int];
        let task_name = ts[pre.task_idx as int].0@;
        match cmd {
            Command::HttpClient(h) => {
                let merged = pre.merged_arg_env(h.common_content.env);
                let prep = http_prepare_view_spec(
                    h.args.method@,
                    h.args.url@,
                    match h.args.headers {
                        Some(v) => headers_view(v@),
                        None => Seq::empty(),
                    },
                    opt_content_view(h.common_content.content),
                    merged,
                );
                &&& post.shared_cmds_env@ == merged
                &&& match prep {
                    Ok(plan) => {
                        &&& post.phase == RunPhase::AwaitingHttp(h.expectation)
                        &&& post.task_idx == pre.task_idx
                        &&& post.cmd_idx == pre.cmd_idx
                        &&& r matches StepResult::NeedHttp(p) && p@ == plan
                    },
                    Err(e) => {
                        &&& post.phase == RunPhase::Done
                        &&& r matches StepResult::Failed(e2) && e2@ == e
                        &&& failed_outcome_recorded(post, r)
                    },
                }
            },
            _ => {
                let arg_env = command_arg_env(cmd);
                let merged = pre.merged_arg_env(arg_env);
                let arg2 = CommonContentView {
                    content: opt_content_view(command_arg_content(cmd)),
                    env: Some(merged),
                };
                {
                    ||| {
                        &&& r matches StepResult::Progress(ls) && post.last matches Some(l)
                            && command_ok_rel(cmd, arg2, l@) && crate::chars::strs_view(ls@)
                            == command_lines_spec(cmd, l@)
                        &&& post.phase == RunPhase::InTask
                        &&& post.task_idx == pre.task_idx
                        &&& post.cmd_idx == pre.cmd_idx + 1
                        &&& post.last matches Some(l2) && post.shared_cmds_env@
                            == cache_env_spec(
                            pre.pipeline.name@,
                            task_name,
                            mirror_index(pre.task_idx as nat, pre.cmd_idx as nat),
                            merged,
                            l2@,
                        )
                    }
                    ||| {
                        &&& r matches StepResult::Failed(e2) && command_err_rel(cmd, arg2, e2@)
                        &&& failed_outcome_recorded(post, r)
                        &&& post.phase == RunPhase::Done
                        &&& post.shared_cmds_env@ == merged
                    }
                }
            },
        }
    })
}

/// A failed step leaves its error as the recorded outcome.
pub open spec fn failed_outcome_recorded(post: PipelineRun, r: StepResult) -> bool {
    match r {
        StepResult::Failed(e) => match post.outcome {
            Some(o) => match o {
                Err(eo) => eo@ == e@,
                _ => false,
            },
            None => false,
        },
        _ => false,
    }
}

/// The content a command's argument carries.
pub open spec fn command_arg_content(cmd: Command) -> Option<JsonValue> {
    match cmd {
        Command::Echo(a) => a.content,
        Command::Env(a) => a.content,
        Command::Interpolate(a) => a.content,
        Command::Jaq(a) => a.content,
        Command::SetEnv(a) => a.content,
        Command::HttpClient(h) => h.common_content.content,
    }
}

/// The environment a command's argument carries.
pub open spec fn command_arg_env(cmd: Command) -> Option<Env> {
    match cmd {
        Command::Echo(a) => a.env,
        Command::Env(a) => a.env,
        Command::Interpolate(a) => a.env,
        Command::Jaq(a) => a.env,
        Command::SetEnv(a) => a.env,
        Command::HttpClient(h) => h.common_content.env,
    }
}

/// How the machine may change when an HTTP response comes back.
pub open spec fn resume_post(
    pre: PipelineRun,
    post: PipelineRun,
    r: StepResult,
    status: u16,
    content_type: Option<Seq<char>>,
    body: Seq<char>,
) -> bool {
    pre.phase matches RunPhase::AwaitingHttp(exp) ==> {
        match http_classify_spec(exp, status, content_type, body) {
            Ok(common) => {
                &&& post.phase == RunPhase::InTask
                &&& post.task_idx == pre.task_idx
                &&& post.cmd_idx == pre.cmd_idx + 1
                &&& post.shared_cmds_env@ == cache_env_spec(
                    pre.pipeline.name@,
                    pre.pipeline.tasks->Some_0@[pre.task_idx as int].0@,
                    mirror_index(pre.task_idx as nat, pre.cmd_idx as nat),
                    pre.shared_cmds_env@,
                    common,
                )
                &&& post.last matches Some(l) && l@ == common
                &&& r matches StepResult::Progress(ls) && ls@.len() == 0
            },
            Err(e) => {
                &&& post.phase == RunPhase::Done
                &&& r matches StepResult::Failed(e2) && e2@ == e
                &&& failed_outcome_recorded(post, r)
                &&& post.shared_cmds_env == pre.shared_cmds_env
            },
        }
    }
}

} // verus!
