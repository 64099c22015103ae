//! The jq-query command.
//!
//! The filter language is evaluated by an outside oracle: the engine
//! compiles the filter text once and runs it over a single input
//! value, concatenating the rendered outputs.  The oracle's answer is
//! not a function of its arguments — the filter language can read the
//! clock and the process environment — so the engine promises nothing
//! of the call itself; what the command returns for each possible
//! answer is stated and proved over `jaq_output_spec`.

use vstd::prelude::*;

use jaq_core::data::JustLut;
use jaq_core::defs as core_defs;
use jaq_core::funs as core_funs;
use jaq_core::load::Arena;
use jaq_core::load::File;
use jaq_core::load::Loader;
use jaq_core::Compiler;
use jaq_core::Ctx;
use jaq_core::Vars;
use jaq_json::defs as json_defs;
use jaq_json::funs as json_funs;
use jaq_json::read::parse_single;
use jaq_json::Val;
use jaq_std::defs as std_defs;
use jaq_std::funs as std_funs;

use crate::env::env_get;
use crate::error::ErrorView;
use crate::error::VermanSchemaError;
use crate::json::JsonValue;
use crate::json::JsonView;
use crate::models::CommonContent;
use crate::models::CommonContentView;
use crate::shared::interpolate_input_else_get_prior_output;
use crate::shared::interpolate_input_else_get_prior_output_spec;
use crate::shared::prev_content_key;

verus! {

/// Relies on jaq (jaq-core's loader, compiler and interpreter with the
/// jaq-std and jaq-json function sets).  Nothing is promised of the
/// answer: filters may read the clock or the process environment, so
/// two calls on equal arguments may differ.  `None` stands for a
/// filter that does not load, compile, parse its input or run; `Some`
/// carries the outputs, each rendered in compact JSON form and
/// concatenated without a separator.  No global variable is declared,
/// so a filter that names one is rejected by the compiler rather than
/// reaching an unbound variable at run time.
#[verifier::external_body]
fn jq_eval_raw(code: &str, input: &str) -> Option<String> {
    let defs = core_defs().chain(std_defs()).chain(json_defs());
    let funs = core_funs().chain(std_funs()).chain(json_funs());
    let arena = Arena::default();
    let modules = Loader::new(defs).load(&arena, File { code, path: () }).ok()?;
    let filter = Compiler::default().with_funs(funs).compile(modules).ok()?;
    let input_val = parse_single(input.as_bytes()).ok()?;
    let ctx = Ctx::<JustLut<Val>>::new(&filter.lut, Vars::new([]));
    filter.id.run((ctx, input_val)).map(|x| x.map(|v| v.to_string())).collect::<
        Result<String, _>,
    >().ok()
}

/// The part of the jq command that the engine decides itself: the
/// filter is the command's resolved content and must be a string, the
/// input value is the previous command's output.
pub open spec fn jaq_input_spec(c: CommonContentView) -> Result<
    (Seq<char>, JsonView),
    ErrorView,
> {
    match interpolate_input_else_get_prior_output_spec(c, true) {
        Err(e) => Err(e),
        Ok(out) => match out.env {
            None => Err(ErrorView::NotFound("Any content"@)),
            Some(envv) => match env_get(envv, prev_content_key()) {
                None => Err(ErrorView::NotFound("Any content"@)),
                Some(input_v) => match out.content {
                    None => Err(ErrorView::NotFound("Any filter"@)),
                    Some(contentv) => match contentv {
                        JsonView::Str(filter) => Ok((filter, input_v)),
                        _ => Err(ErrorView::NotFound("String filter"@)),
                    },
                },
            },
        },
    }
}

/// What the jq command returns for each possible answer of the
/// oracle: a failed call is the query error, no output at all is a
/// failure, and otherwise the concatenated rendering becomes the new
/// content.
pub open spec fn jaq_output_spec(answer: Option<Seq<char>>) -> Result<
    CommonContentView,
    ErrorView,
> {
    match answer {
        None => Err(ErrorView::JaqStrError("the filter failed to compile or run"@)),
        Some(rendered) => if rendered.len() == 0 {
            Err(ErrorView::JaqStrError("`jaq_runner` failed"@))
        } else {
            Ok(CommonContentView { content: Some(JsonView::Str(rendered)), env: None })
        },
    }
}

/// Turns the oracle's answer into the jq command's result, as
/// `jaq_output_spec` describes.
pub fn jaq_wrap_output(answer: Option<String>) -> (r: Result<CommonContent, VermanSchemaError>)
    ensures
        r matches Ok(v) ==> jaq_output_spec(
            match answer {
                Some(ref s) => Some(s@),
                None => None,
            },
        ) == Ok::<CommonContentView, ErrorView>(v@),
        r matches Err(e) ==> jaq_output_spec(
            match answer {
                Some(ref s) => Some(s@),
                None => None,
            },
        ) == Err::<CommonContentView, ErrorView>(e@),
{
    match answer {
        None => Err(
            VermanSchemaError::JaqStrError(
                String::from_str("the filter failed to compile or run"),
            ),
        ),
        Some(rendered) => {
            if rendered.as_str().is_empty() {
                Err(VermanSchemaError::JaqStrError(String::from_str("`jaq_runner` failed")))
            } else {
                Ok(CommonContent { content: Some(JsonValue::Str(rendered)), env: None })
            }
        },
    }
}

/// Runs the filter in the command's content over the previous
/// command's output.  An input fault is reported exactly as
/// `jaq_input_spec` says; on a good input the result is
/// `jaq_output_spec` of whatever the oracle answered.
pub fn jaq(common_content: &CommonContent) -> (r: Result<CommonContent, VermanSchemaError>)
    ensures
        jaq_input_spec(common_content@) matches Err(e0) ==> (r matches Err(e) && e@ == e0),
        jaq_input_spec(common_content@) is Ok ==> exists|answer: Option<Seq<char>>|
            {
                ||| (r matches Ok(v) && #[trigger] jaq_output_spec(answer) == Ok::<
                    CommonContentView,
                    ErrorView,
                >(v@))
                ||| (r matches Err(e) && jaq_output_spec(answer) == Err::<
                    CommonContentView,
                    ErrorView,
                >(e@))
            },
{
    let out = interpolate_input_else_get_prior_output(common_content, true)?;
    let key = crate::shared::prev_content_key_string();
    let input_v: &JsonValue = match &out.env {
        None => {
            return Err(VermanSchemaError::NotFound(String::from_str("Any content")));
        },
        Some(envv) => {
            match envv.get(&key) {
                None => {
                    return Err(VermanSchemaError::NotFound(String::from_str("Any content")));
                },
                Some(v) => v,
            }
        },
    };
    let filter: &String = match &out.content {
        None => {
            return Err(VermanSchemaError::NotFound(String::from_str("Any filter")));
        },
        Some(contentv) => {
            match contentv {
                JsonValue::Str(f) => f,
                _ => {
                    return Err(VermanSchemaError::NotFound(String::from_str("String filter")));
                },
            }
        },
    };
    let input_text = crate::json::to_json_string(input_v);
    let answer = jq_eval_raw(filter.as_str(), input_text.as_str());
    let ghost answer_view: Option<Seq<char>> = match answer {
        Some(ref s) => Some(s@),
        None => None,
    };
    let r = jaq_wrap_output(answer);
    proof {
        assert(match r {
            Ok(ref v) => jaq_output_spec(answer_view) == Ok::<CommonContentView, ErrorView>(v@),
            Err(ref e) => jaq_output_spec(answer_view) == Err::<CommonContentView, ErrorView>(
                e@,
            ),
        });
    }
    r
}

} // verus!
