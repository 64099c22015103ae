//! The command set: the tagged union of the six command kinds, the
//! well-known environment keys, and the cache step that publishes a
//! command's output.

use vstd::prelude::*;

use crate::env::env_extend;
use crate::env::env_upsert;
use crate::env::subst_map_view;
use crate::env::Env;
use crate::error::ErrorView;
use crate::error::VermanSchemaError;
use crate::interp::subst_err_text;
use crate::interp::subst_passes;
use crate::json::dec_digits;
use crate::json::json_text;
use crate::json::JsonValue;
use crate::json::JsonView;
use crate::models::CommonContent;
use crate::models::CommonContentView;
use crate::models::HttpCommandArgs;
use crate::parse::parse_json_spec;
use crate::shared::interpolate_input_else_get_prior_output;
use crate::shared::interpolate_input_else_get_prior_output_spec;
use crate::shared::prev_content_key;

verus! {

/// The environment keys the engine manages around commands.
#[derive(Debug, PartialEq, Eq, Structural, Clone, Copy)]
pub enum CommandKey {
    CurrentContent,
    PreviousContent,
    PreviousType,
}

impl CommandKey {
    /// The key's name in the environment.
    pub fn key_string(&self) -> (r: String)
        ensures
            *self == CommandKey::CurrentContent ==> r@ == "CMD_CURRENT_CONTENT"@,
            *self == CommandKey::PreviousContent ==> r@ == "CMD_PREVIOUS_CONTENT"@,
            *self == CommandKey::PreviousType ==> r@ == "CMD_PREVIOUS_TYPE"@,
    {
        match self {
            CommandKey::CurrentContent => String::from_str("CMD_CURRENT_CONTENT"),
            CommandKey::PreviousContent => String::from_str("CMD_PREVIOUS_CONTENT"),
            CommandKey::PreviousType => String::from_str("CMD_PREVIOUS_TYPE"),
        }
    }
}

/// One unit of work in a task.
#[derive(Debug, PartialEq)]
pub enum Command {
    Echo(CommonContent),
    Env(CommonContent),
    HttpClient(HttpCommandArgs),
    Interpolate(CommonContent),
    Jaq(CommonContent),
    SetEnv(CommonContent),
}

impl Default for Command {
    /// An echo of nothing.
    fn default() -> (r: Self)
        ensures
            r matches Command::Echo(c) && c@.content is None && c@.env is None,
    {
        Command::Echo(CommonContent::new())
    }
}

/// What the echo command computes: its resolved input, which is also
/// what it prints (a string as itself, any other value as compact
/// JSON).
pub open spec fn echo_spec(c: CommonContentView) -> Result<CommonContentView, ErrorView> {
    interpolate_input_else_get_prior_output_spec(c, true)
}

/// Resolves the input as the echo command does.  The host prints the
/// string form of the resulting content.
pub fn echo(common_content: &CommonContent) -> (r: Result<CommonContent, VermanSchemaError>)
    ensures
        r matches Ok(v) ==> echo_spec(common_content@) == Ok::<CommonContentView, ErrorView>(v@),
        r matches Err(e) ==> echo_spec(common_content@) == Err::<CommonContentView, ErrorView>(
            e@,
        ),
{
    interpolate_input_else_get_prior_output(common_content, true)
}

/// What the env-dump command computes: the same resolution as echo;
/// the host prints one `KEY=value` line per environment entry.
pub open spec fn env_spec(c: CommonContentView) -> Result<CommonContentView, ErrorView> {
    interpolate_input_else_get_prior_output_spec(c, true)
}

/// Resolves the input as the env-dump command does.
pub fn env(common_content: &CommonContent) -> (r: Result<CommonContent, VermanSchemaError>)
    ensures
        r matches Ok(v) ==> env_spec(common_content@) == Ok::<CommonContentView, ErrorView>(v@),
        r matches Err(e) ==> env_spec(common_content@) == Err::<CommonContentView, ErrorView>(
            e@,
        ),
{
    interpolate_input_else_get_prior_output(common_content, true)
}

/// The lines the env dump prints: each entry's key, `=`, and the
/// entry's compact JSON text, in insertion order.
pub open spec fn env_dump_lines_spec(e: Seq<(Seq<char>, JsonView)>) -> Seq<Seq<char>>
    decreases e.len(),
{
    if e.len() == 0 {
        Seq::empty()
    } else {
        env_dump_lines_spec(e.drop_last()).push(e.last().0 + "="@ + json_text(e.last().1))
    }
}

/// `env_dump_lines_spec` keeps the length.
pub broadcast proof fn lemma_env_dump_lines_len(e: Seq<(Seq<char>, JsonView)>)
    ensures
        #[trigger] env_dump_lines_spec(e).len() == e.len(),
    decreases e.len(),
{
    if e.len() > 0 {
        lemma_env_dump_lines_len(e.drop_last());
    }
}

/// `env_dump_lines_spec` maps each entry to its line.
pub broadcast proof fn lemma_env_dump_lines_index(e: Seq<(Seq<char>, JsonView)>, i: int)
    requires
        0 <= i < e.len(),
    ensures
        #[trigger] env_dump_lines_spec(e)[i] == e[i].0 + "="@ + json_text(e[i].1),
    decreases e.len(),
{
    lemma_env_dump_lines_len(e);
    lemma_env_dump_lines_len(e.drop_last());
    if i < e.len() - 1 {
        lemma_env_dump_lines_index(e.drop_last(), i);
        assert(e.drop_last()[i] == e[i]);
    }
}

/// The lines the env-dump command prints, as `env_dump_lines_spec`
/// describes them.
pub fn env_dump_lines(env: &Env) -> (r: Vec<String>)
    ensures
        crate::chars::strs_view(r@) == env_dump_lines_spec(env@),
{
    broadcast use {
        lemma_env_dump_lines_len,
        lemma_env_dump_lines_index,
        crate::chars::lemma_strs_view_len,
        crate::chars::lemma_strs_view_index,
    };

    broadcast use crate::json::group_json_view_lemmas;

    let entries = env.entries();
    let n = entries.len();
    let mut r: Vec<String> = Vec::new();
    let mut i: usize = 0;
    while i < n
        invariant
            n == entries@.len(),
            crate::json::obj_view(entries@) == env@,
            env@.len() == n,
            i <= n,
            r@.len() == i,
            forall|j: int|
                0 <= j < i ==> (#[trigger] r@[j])@ == env@[j].0 + "="@ + json_text(env@[j].1),
        decreases n - i,
    {
        let mut line = entries[i].0.clone();
        line.append("=");
        let text = crate::json::to_json_string(&entries[i].1);
        line.append(text.as_str());
        r.push(line);
        i = i + 1;
    }
    proof {
        assert(crate::chars::strs_view(r@) =~= env_dump_lines_spec(env@));
    }
    r
}

/// What the set-env command does to content: nothing.  The caller's
/// environment merge has already applied the new keys.
pub fn set_env(common_content: &CommonContent) -> (r: Result<CommonContent, VermanSchemaError>)
    ensures
        r matches Ok(v) && v@ == common_content@,
{
    Ok(common_content.duplicate())
}

/// How many passes the interpolate command makes to reach a fixed
/// point.
pub open spec fn interpolate_pass_count() -> nat {
    10
}

/// What the interpolate command computes: the resolved input is run
/// through ten substitution passes against the message's own
/// environment; a name missing from it fails the command.  A
/// non-string content travels as its JSON text and is read back
/// afterwards.  Without content or without an environment the message
/// passes through unchanged.
pub open spec fn interpolate_spec(c: CommonContentView) -> Result<
    CommonContentView,
    ErrorView,
> {
    match interpolate_input_else_get_prior_output_spec(c, true) {
        Ok(out) => match out.content {
            Some(contentv) => match c.env {
                Some(env) => {
                    let source = match contentv {
                        JsonView::Str(s) => s,
                        _ => json_text(contentv),
                    };
                    let was_str = contentv is Str;
                    match subst_passes(
                        source,
                        subst_map_view(env),
                        false,
                        interpolate_pass_count(),
                    ) {
                        Ok(t) => if was_str {
                            Ok(
                                CommonContentView {
                                    content: Some(JsonView::Str(t)),
                                    env: Some(env),
                                },
                            )
                        } else {
                            match parse_json_spec(t) {
                                Some(v) => Ok(
                                    CommonContentView { content: Some(v), env: Some(env) },
                                ),
                                None => Err(
                                    ErrorView::SerdeJsonError(
                                        "the interpolated text is not a JSON text"@,
                                    ),
                                ),
                            }
                        },
                        Err(e) => Err(ErrorView::SubstError(subst_err_text(e))),
                    }
                },
                None => Ok(c),
            },
            None => Ok(c),
        },
        Err(e) => Err(e),
    }
}

/// Runs the fixed-point substitution, as `interpolate_spec` describes.
pub fn interpolate(common_content: &CommonContent) -> (r: Result<
    CommonContent,
    VermanSchemaError,
>)
    ensures
        r matches Ok(v) ==> interpolate_spec(common_content@) == Ok::<
            CommonContentView,
            ErrorView,
        >(v@),
        r matches Err(e) ==> interpolate_spec(common_content@) == Err::<
            CommonContentView,
            ErrorView,
        >(e@),
{
    let resolved = interpolate_input_else_get_prior_output(common_content, true)?;
    let content: &JsonValue = match &resolved.content {
        Some(v) => v,
        None => {
            return Ok(common_content.duplicate());
        },
    };
    let env: &Env = match &common_content.env {
        Some(e) => e,
        None => {
            return Ok(common_content.duplicate());
        },
    };
    let variables = crate::env::make_subst_map(env);
    let ghost mm = subst_map_view(env@);
    let was_str = content.is_string();
    let mut content_s: String = match content {
        JsonValue::Str(s) => s.clone(),
        v => crate::json::to_json_string(v),
    };
    let ghost source = content_s@;
    let mut pass: usize = 0;
    while pass < 10
        invariant
            pass <= 10,
            subst_passes(source, mm, false, pass as nat) == Ok::<
                Seq<char>,
                crate::interp::SubstErr,
            >(content_s@),
        decreases 10 - pass,
    {
        match crate::interp::substitute(&content_s, &variables, false) {
            Ok(t) => {
                content_s = t;
            },
            Err(f) => {
                proof {
                    assert(subst_passes(source, mm, false, (pass + 1) as nat) == Err::<
                        Seq<char>,
                        crate::interp::SubstErr,
                    >(f@));
                    lemma_subst_passes_err(source, mm, (pass + 1) as nat, 10);
                }
                return Err(VermanSchemaError::SubstError(f.describe()));
            },
        }
        pass = pass + 1;
    }
    if was_str {
        Ok(
            CommonContent {
                content: Some(JsonValue::Str(content_s)),
                env: Some(env.duplicate()),
            },
        )
    } else {
        match crate::parse::parse_json(&content_s) {
            Some(v) => Ok(CommonContent { content: Some(v), env: Some(env.duplicate()) }),
            None => Err(
                VermanSchemaError::SerdeJsonError(
                    String::from_str("the interpolated text is not a JSON text"),
                ),
            ),
        }
    }
}

/// Once a pass fails, later pass counts fail the same way.
proof fn lemma_subst_passes_err(
    s: Seq<char>,
    m: Seq<(Seq<char>, Seq<char>)>,
    from: nat,
    to: nat,
)
    requires
        from <= to,
        subst_passes(s, m, false, from) is Err,
    ensures
        subst_passes(s, m, false, to) == subst_passes(s, m, false, from),
    decreases to - from,
{
    if from < to {
        lemma_subst_passes_err(s, m, from, (to - 1) as nat);
    }
}

/// The value a successful command output is cached as: a string that
/// is itself a JSON text is cached as the parsed value, anything else
/// verbatim.
pub open spec fn cached_value(v: JsonView) -> JsonView {
    match v {
        JsonView::Str(s) => match parse_json_spec(s) {
            Some(p) => p,
            None => v,
        },
        _ => v,
    }
}

/// The scoped mirror key naming one command's output.
pub open spec fn mirror_key_indexed(pipeline: Seq<char>, task: Seq<char>, idx: nat) -> Seq<
    char,
> {
    pipeline + "__"@ + task + "["@ + dec_digits(idx) + "]_CMD_CONTENT"@
}

/// The scoped mirror key naming a task's latest command output.
pub open spec fn mirror_key_task(pipeline: Seq<char>, task: Seq<char>) -> Seq<char> {
    pipeline + "__"@ + task + "_CMD_CONTENT"@
}

/// The shared environment after the cache step: the command's output
/// environment is merged in, and its content (in cached form) is
/// published under the previous-content key and both scoped mirrors.
pub open spec fn cache_env_spec(
    pipeline: Seq<char>,
    task: Seq<char>,
    idx: nat,
    shared: Seq<(Seq<char>, JsonView)>,
    common: CommonContentView,
) -> Seq<(Seq<char>, JsonView)> {
    let merged = match common.env {
        Some(e) => env_extend(shared, e),
        None => shared,
    };
    match common.content {
        Some(cv) => {
            let val = cached_value(cv);
            env_upsert(
                env_upsert(
                    env_upsert(merged, prev_content_key(), val),
                    mirror_key_indexed(pipeline, task, idx),
                    val,
                ),
                mirror_key_task(pipeline, task),
                val,
            )
        },
        None => merged,
    }
}

/// The message the cache step hands back: the command's environment as
/// it was, and the cached form of its content.
pub open spec fn cache_result_spec(common: CommonContentView) -> CommonContentView {
    CommonContentView {
        env: common.env,
        content: match common.content {
            Some(cv) => Some(cached_value(cv)),
            None => None,
        },
    }
}

/// The decimal text of `n`.
fn usize_dec_string(n: usize) -> (r: String)
    ensures
        r@ == dec_digits(n as nat),
{
    let mut out: Vec<char> = Vec::new();
    crate::json::write_u64(&mut out, n as u64);
    crate::chars::chars_to_string(&out)
}

/// Builds the indexed mirror key.
fn mirror_key_indexed_string(pipeline: &String, task: &String, idx: usize) -> (r: String)
    ensures
        r@ == mirror_key_indexed(pipeline@, task@, idx as nat),
{
    let mut r = pipeline.clone();
    r.append("__");
    r.append(task.as_str());
    r.append("[");
    let d = usize_dec_string(idx);
    r.append(d.as_str());
    r.append("]_CMD_CONTENT");
    r
}

/// Builds the per-task mirror key.
fn mirror_key_task_string(pipeline: &String, task: &String) -> (r: String)
    ensures
        r@ == mirror_key_task(pipeline@, task@),
{
    let mut r = pipeline.clone();
    r.append("__");
    r.append(task.as_str());
    r.append("_CMD_CONTENT");
    r
}

/// Whether `out` is a possible success of `Command::process` on the
/// merged environment: the command's own behaviour, applied to a
/// message holding the merged environment.
pub open spec fn process_ok_rel(
    cmd: Command,
    merged: Seq<(Seq<char>, JsonView)>,
    out: CommonContentView,
) -> bool {
    crate::task::command_ok_rel(
        cmd,
        CommonContentView {
            content: match crate::task::command_arg_content(cmd) {
                Some(v) => Some(v@),
                None => None,
            },
            env: Some(merged),
        },
        out,
    )
}

/// Whether `e` is a possible failure of `Command::process`.  The HTTP
/// command is the one kind that cannot run here, for want of a
/// transport, and always reports that.
pub open spec fn process_err_rel(
    cmd: Command,
    merged: Seq<(Seq<char>, JsonView)>,
    e: ErrorView,
) -> bool {
    match cmd {
        Command::HttpClient(_) => e == ErrorView::NotInstalled(
            "an HTTP transport; drive `PipelineRun` directly"@,
        ),
        _ => crate::task::command_err_rel(
            cmd,
            CommonContentView {
                content: match crate::task::command_arg_content(cmd) {
                    Some(v) => Some(v@),
                    None => None,
                },
                env: Some(merged),
            },
            e,
        ),
    }
}

impl Command {
    /// Merges the command's own environment into the shared one, then
    /// runs the command's behaviour on the merged message.  The HTTP
    /// command needs a transport and cannot run here: a host drives
    /// `PipelineRun`, which pauses at the exchange.
    pub fn process(&self, shared_env_for_cmds: &mut Env) -> (r: Result<
        CommonContent,
        VermanSchemaError,
    >)
        ensures
            final (shared_env_for_cmds)@ == env_extend(
                old(shared_env_for_cmds)@,
                crate::task::opt_env_view(crate::task::command_arg_env(*self)),
            ),
            r matches Ok(v) ==> process_ok_rel(*self, final (shared_env_for_cmds)@, v@),
            r matches Err(e) ==> process_err_rel(*self, final (shared_env_for_cmds)@, e@),
    {
        let arg_env: Option<Env> = match self {
            Command::Echo(a) | Command::Env(a) | Command::Interpolate(a) | Command::Jaq(a)
                | Command::SetEnv(a) => match &a.env {
                Some(e) => Some(e.duplicate()),
                None => None,
            },
            Command::HttpClient(h) => match &h.common_content.env {
                Some(e) => Some(e.duplicate()),
                None => None,
            },
        };
        crate::shared::merge_env(shared_env_for_cmds, &arg_env);
        let arg_content: Option<JsonValue> = match self {
            Command::Echo(a) | Command::Env(a) | Command::Interpolate(a) | Command::Jaq(a)
                | Command::SetEnv(a) => match &a.content {
                Some(v) => Some(v.duplicate()),
                None => None,
            },
            Command::HttpClient(h) => match &h.common_content.content {
                Some(v) => Some(v.duplicate()),
                None => None,
            },
        };
        let arg2 = CommonContent {
            content: arg_content,
            env: Some(shared_env_for_cmds.duplicate()),
        };
        match self {
            Command::Echo(_) => echo(&arg2),
            Command::Env(_) => env(&arg2),
            Command::Interpolate(_) => interpolate(&arg2),
            Command::Jaq(_) => crate::jaq::jaq(&arg2),
            Command::SetEnv(_) => set_env(&arg2),
            Command::HttpClient(_) => Err(
                VermanSchemaError::NotInstalled(
                    String::from_str("an HTTP transport; drive `PipelineRun` directly"),
                ),
            ),
        }
    }

    /// The cache step.  On a successful result it merges the command's
    /// environment into the shared one, publishes the cached content
    /// under the previous-content key and the scoped mirrors, and
    /// hands the cached message back; on a failed result it changes
    /// nothing.
    pub fn cache(
        pipeline_name: &String,
        task_name: &String,
        idx: usize,
        shared_env_for_cmds: &mut Env,
        last_result: &Result<CommonContent, VermanSchemaError>,
    ) -> (r: Result<CommonContent, VermanSchemaError>)
        ensures
            last_result matches Ok(common) ==> {
                &&& final (shared_env_for_cmds)@ == cache_env_spec(
                    pipeline_name@,
                    task_name@,
                    idx as nat,
                    old(shared_env_for_cmds)@,
                    common@,
                )
                &&& r matches Ok(out) && out@ == cache_result_spec(common@)
            },
            last_result matches Err(_) ==> {
                &&& final (shared_env_for_cmds)@ == old(shared_env_for_cmds)@
                &&& r matches Err(e) && e@ == ErrorView::NotFound("Nothing to cache"@)
            },
    {
        match last_result {
            Ok(common) => {
                let out_env: Option<Env> = match &common.env {
                    Some(env_for_merge) => {
                        shared_env_for_cmds.extend_from(env_for_merge);
                        Some(env_for_merge.duplicate())
                    },
                    None => None,
                };
                let out_content: Option<JsonValue> = match &common.content {
                    Some(content_val) => {
                        let val: JsonValue = match content_val {
                            JsonValue::Str(s) => {
                                match crate::parse::parse_json(s) {
                                    Some(v) => v,
                                    None => JsonValue::Str(s.clone()),
                                }
                            },
                            x => x.duplicate(),
                        };
                        let prev_key = CommandKey::PreviousContent.key_string();
                        shared_env_for_cmds.insert(prev_key, val.duplicate());
                        let key_i = mirror_key_indexed_string(pipeline_name, task_name, idx);
                        shared_env_for_cmds.insert(key_i, val.duplicate());
                        let key_t = mirror_key_task_string(pipeline_name, task_name);
                        shared_env_for_cmds.insert(key_t, val.duplicate());
                        Some(val)
                    },
                    None => None,
                };
                Ok(CommonContent { env: out_env, content: out_content })
            },
            Err(_) => Err(VermanSchemaError::NotFound(String::from_str("Nothing to cache"))),
        }
    }
}

} // verus!
