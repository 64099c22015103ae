//! Input resolution shared by most commands: merge environments,
//! substitute variables in the content, and fall back to the previous
//! command's output.

use vstd::prelude::*;

use crate::env::env_extend;
use crate::env::env_get;
use crate::env::subst_map_view;
use crate::env::Env;
use crate::error::ErrorView;
use crate::error::VermanSchemaError;
use crate::interp::subst_err_text;
use crate::interp::subst_pass;
use crate::json::JsonValue;
use crate::json::JsonView;
use crate::models::CommonContent;
use crate::models::CommonContentView;

verus! {

/// The key under which the engine keeps the most recent command
/// output.
pub open spec fn prev_content_key() -> Seq<char> {
    "CMD_PREVIOUS_CONTENT"@
}

/// The key under which the engine keeps the most recent command
/// output.
pub fn prev_content_key_string() -> (r: String)
    ensures
        r@ == prev_content_key(),
{
    String::from_str("CMD_PREVIOUS_CONTENT")
}

/// What substituting the string form of `input` against `env` yields:
/// a non-string input and an empty string are rejected; a failing pass
/// is an error, unless errors are ignored, in which case the input
/// stands unchanged.
pub open spec fn substitute_success_spec(
    input: JsonView,
    env: Seq<(Seq<char>, JsonView)>,
    ignore: bool,
) -> Result<CommonContentView, ErrorView> {
    match input {
        JsonView::Str(s) => {
            if s.len() == 0 {
                Err(ErrorView::NotFound("input to provide"@))
            } else {
                match subst_pass(s, subst_map_view(env), ignore) {
                    Ok(t) => Ok(
                        CommonContentView { content: Some(JsonView::Str(t)), env: Some(env) },
                    ),
                    Err(e) => if ignore {
                        Ok(CommonContentView { content: Some(JsonView::Str(s)), env: Some(env) })
                    } else {
                        Err(ErrorView::SubstError(subst_err_text(e)))
                    },
                }
            }
        },
        _ => Err(ErrorView::NotFound("string input to provide"@)),
    }
}

/// The input-resolution decision table.  Missing content falls back to
/// the previous command's output; the `-` sentinel reads the previous
/// output when it is a string; a null content substitutes the previous
/// string output or passes through; any other non-string content
/// passes through unchanged.
pub open spec fn interpolate_input_with_env_spec(c: CommonContentView, ignore: bool) -> Result<
    CommonContentView,
    ErrorView,
> {
    let env = match c.env {
        Some(e) => e,
        None => Seq::empty(),
    };
    match c.content {
        None => match env_get(env, prev_content_key()) {
            Some(p) => substitute_success_spec(p, env, ignore),
            None => Err(ErrorView::NotFound("input to provide"@)),
        },
        Some(input) => match input {
            JsonView::Str(s) => {
                let actual = if s == "-"@ && (env_get(env, prev_content_key()) matches Some(
                    JsonView::Str(_),
                )) {
                    env_get(env, prev_content_key())->Some_0->Str_0
                } else {
                    s
                };
                substitute_success_spec(JsonView::Str(actual), env, ignore)
            },
            JsonView::Null => {
                if env_get(env, prev_content_key()) matches Some(JsonView::Str(_)) {
                    substitute_success_spec(
                        env_get(env, prev_content_key())->Some_0,
                        env,
                        ignore,
                    )
                } else {
                    Ok(c)
                }
            },
            _ => Ok(c),
        },
    }
}

/// The canonical input-resolution helper: resolve as above, treat a
/// `NotFound` as "no content yet", and fill missing content from the
/// previous command's output when there is one.
pub open spec fn interpolate_input_else_get_prior_output_spec(
    c: CommonContentView,
    ignore: bool,
) -> Result<CommonContentView, ErrorView> {
    match interpolate_input_with_env_spec(c, ignore) {
        Ok(out) => Ok(fill_content_from_prev(out)),
        Err(e) => match e {
            ErrorView::NotFound(_) => Ok(
                fill_content_from_prev(CommonContentView { content: None, env: c.env }),
            ),
            _ => Err(e),
        },
    }
}

/// Missing content is taken from the previous command's output in the
/// message's own environment, whatever kind of value that is.
pub open spec fn fill_content_from_prev(c: CommonContentView) -> CommonContentView {
    if c.content is None {
        match c.env {
            Some(e) => CommonContentView { content: env_get(e, prev_content_key()), env: c.env },
            None => c,
        }
    } else {
        c
    }
}

/// Substitutes the string form of `input` against `env`, as
/// `substitute_success_spec` describes.
fn substitute_success(input: &JsonValue, env: &Env, ignore: bool) -> (r: Result<
    CommonContent,
    VermanSchemaError,
>)
    ensures
        r matches Ok(v) ==> substitute_success_spec(input@, env@, ignore) == Ok::<
            CommonContentView,
            ErrorView,
        >(v@),
        r matches Err(e) ==> substitute_success_spec(input@, env@, ignore) == Err::<
            CommonContentView,
            ErrorView,
        >(e@),
{
    match input {
        JsonValue::Str(s) => {
            if s.as_str().is_empty() {
                return Err(VermanSchemaError::NotFound(String::from_str("input to provide")));
            }
            let m = crate::env::make_subst_map(env);
            match crate::interp::substitute(s, &m, ignore) {
                Ok(t) => Ok(
                    CommonContent { content: Some(JsonValue::Str(t)), env: Some(env.duplicate()) },
                ),
                Err(f) => {
                    if ignore {
                        Ok(
                            CommonContent {
                                content: Some(JsonValue::Str(s.clone())),
                                env: Some(env.duplicate()),
                            },
                        )
                    } else {
                        Err(VermanSchemaError::SubstError(f.describe()))
                    }
                },
            }
        },
        _ => Err(VermanSchemaError::NotFound(String::from_str("string input to provide"))),
    }
}

/// Resolves a command's input, as `interpolate_input_with_env_spec`
/// describes.
pub fn interpolate_input_with_env(common_content: &CommonContent, ignore_errors: bool) -> (r:
    Result<CommonContent, VermanSchemaError>)
    ensures
        r matches Ok(v) ==> interpolate_input_with_env_spec(common_content@, ignore_errors)
            == Ok::<CommonContentView, ErrorView>(v@),
        r matches Err(e) ==> interpolate_input_with_env_spec(common_content@, ignore_errors)
            == Err::<CommonContentView, ErrorView>(e@),
{
    let empty_env = Env::new();
    let env: &Env = match &common_content.env {
        Some(e) => e,
        None => &empty_env,
    };
    let key = prev_content_key_string();
    match &common_content.content {
        None => {
            match env.get(&key) {
                Some(p) => substitute_success(p, env, ignore_errors),
                None => Err(VermanSchemaError::NotFound(String::from_str("input to provide"))),
            }
        },
        Some(input) => {
            match input {
                JsonValue::Str(s) => {
                    let dash = String::from_str("-");
                    let mut actual: &JsonValue = input;
                    if *s == dash {
                        match env.get(&key) {
                            Some(prev) => {
                                if prev.is_string() {
                                    actual = prev;
                                }
                            },
                            None => {},
                        }
                    }
                    substitute_success(actual, env, ignore_errors)
                },
                JsonValue::Null => {
                    let mut prev_is_str = false;
                    match env.get(&key) {
                        Some(prev) => {
                            if prev.is_string() {
                                prev_is_str = true;
                            }
                        },
                        None => {},
                    }
                    if prev_is_str {
                        match env.get(&key) {
                            Some(prev) => substitute_success(prev, env, ignore_errors),
                            None => Err(
                                VermanSchemaError::NotFound(
                                    String::from_str("input to provide"),
                                ),
                            ),
                        }
                    } else {
                        Ok(common_content.duplicate())
                    }
                },
                _ => Ok(common_content.duplicate()),
            }
        },
    }
}

/// Resolves a command's input and falls back to the previous command's
/// output, as `interpolate_input_else_get_prior_output_spec`
/// describes.
pub fn interpolate_input_else_get_prior_output(
    common_content: &CommonContent,
    ignore_substitution_errors: bool,
) -> (r: Result<CommonContent, VermanSchemaError>)
    ensures
        r matches Ok(v) ==> interpolate_input_else_get_prior_output_spec(
            common_content@,
            ignore_substitution_errors,
        ) == Ok::<CommonContentView, ErrorView>(v@),
        r matches Err(e) ==> interpolate_input_else_get_prior_output_spec(
            common_content@,
            ignore_substitution_errors,
        ) == Err::<CommonContentView, ErrorView>(e@),
{
    let key = prev_content_key_string();
    let step = interpolate_input_with_env(common_content, ignore_substitution_errors);
    let mut common: CommonContent = match step {
        Ok(out) => out,
        Err(e) => {
            match e {
                VermanSchemaError::NotFound(_) => {
                    CommonContent {
                        env: match &common_content.env {
                            Some(en) => Some(en.duplicate()),
                            None => None,
                        },
                        content: None,
                    }
                },
                _ => {
                    return Err(e);
                },
            }
        },
    };
    if common.content.is_none() {
        let filled: Option<JsonValue> = match &common.env {
            Some(en) => {
                match en.get(&key) {
                    Some(v) => Some(v.duplicate()),
                    None => None,
                }
            },
            None => None,
        };
        common.content = filled;
    }
    Ok(common)
}

/// Upserts every entry of `superior` (when there is one) into
/// `inferior`, in order.
pub fn merge_env(inferior: &mut Env, superior: &Option<Env>)
    ensures
        final (inferior)@ == match superior {
            Some(e) => env_extend(old(inferior)@, e@),
            None => old(inferior)@,
        },
{
    match superior {
        Some(e) => inferior.extend_from(e),
        None => {},
    }
}

} // verus!
