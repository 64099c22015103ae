//! The document model: pipelines, tasks, the uniform message passed
//! between commands, and the HTTP command's arguments.

use vstd::prelude::*;

use crate::env::Env;
use crate::json::JsonValue;
use crate::json::JsonView;

verus! {

/// Mathematical form of a `CommonContent`.
pub struct CommonContentView {
    pub content: Option<JsonView>,
    pub env: Option<Seq<(Seq<char>, JsonView)>>,
}

/// The uniform message passed between commands: an optional content
/// value and an optional environment.  An absent field means "inherit
/// or empty".
#[derive(Debug, PartialEq)]
pub struct CommonContent {
    pub content: Option<JsonValue>,
    pub env: Option<Env>,
}

impl View for CommonContent {
    type V = CommonContentView;

    open spec fn view(&self) -> CommonContentView {
        CommonContentView {
            content: match self.content {
                Some(ref v) => Some(v@),
                None => None,
            },
            env: match self.env {
                Some(ref e) => Some(e@),
                None => None,
            },
        }
    }
}

impl CommonContent {
    /// A message with neither content nor environment.
    pub fn new() -> (r: CommonContent)
        ensures
            r@.content is None,
            r@.env is None,
    {
        CommonContent { content: None, env: None }
    }

    /// A structural copy with the same view.
    pub fn duplicate(&self) -> (r: CommonContent)
        ensures
            r@ == self@,
    {
        CommonContent {
            content: match &self.content {
                Some(v) => Some(v.duplicate()),
                None => None,
            },
            env: match &self.env {
                Some(e) => Some(e.duplicate()),
                None => None,
            },
        }
    }
}

/// Mathematical form of a header value.
pub enum HeaderScalarView {
    Null,
    Bool(bool),
    Int(int),
    Str(Seq<char>),
}

/// A value allowed in an HTTP header: null, a boolean, a 64-bit
/// integer or a string; never an array or an object.
#[derive(Debug, PartialEq)]
pub enum HeaderScalar {
    Null,
    Bool(bool),
    Int(i64),
    Str(String),
}

impl View for HeaderScalar {
    type V = HeaderScalarView;

    open spec fn view(&self) -> HeaderScalarView {
        match self {
            HeaderScalar::Null => HeaderScalarView::Null,
            HeaderScalar::Bool(b) => HeaderScalarView::Bool(*b),
            HeaderScalar::Int(i) => HeaderScalarView::Int(*i as int),
            HeaderScalar::Str(s) => HeaderScalarView::Str(s@),
        }
    }
}

impl HeaderScalar {
    /// A structural copy with the same view.
    pub fn duplicate(&self) -> (r: HeaderScalar)
        ensures
            r@ == self@,
    {
        match self {
            HeaderScalar::Null => HeaderScalar::Null,
            HeaderScalar::Bool(b) => HeaderScalar::Bool(*b),
            HeaderScalar::Int(i) => HeaderScalar::Int(*i),
            HeaderScalar::Str(s) => HeaderScalar::Str(s.clone()),
        }
    }
}

/// The request half of the HTTP command: target, method and header
/// list, all still uninterpolated text.
#[derive(Debug, PartialEq)]
pub struct HttpArgs {
    pub url: String,
    pub method: String,
    pub headers: Option<Vec<(String, HeaderScalar)>>,
}

impl HttpArgs {
    /// A structural copy: same texts, same header views.
    pub fn duplicate(&self) -> (r: HttpArgs)
        ensures
            r.url == self.url,
            r.method == self.method,
            (r.headers is Some) == (self.headers is Some),
            r.headers matches Some(h) ==> self.headers matches Some(h0)
                && crate::http_client::headers_view(h@) == crate::http_client::headers_view(
                h0@,
            ),
    {
        broadcast use {
            crate::http_client::lemma_headers_view_len,
            crate::http_client::lemma_headers_view_index,
        };

        let headers: Option<Vec<(String, HeaderScalar)>> = match &self.headers {
            Some(h) => {
                let n = h.len();
                let mut out: Vec<(String, HeaderScalar)> = Vec::new();
                let mut i: usize = 0;
                while i < n
                    invariant
                        n == h@.len(),
                        i <= n,
                        out@.len() == i,
                        forall|j: int|
                            0 <= j < i ==> (#[trigger] out@[j]).0@ == h@[j].0@ && out@[j].1@
                                == h@[j].1@,
                    decreases n - i,
                {
                    out.push((h[i].0.clone(), h[i].1.duplicate()));
                    i = i + 1;
                }
                proof {
                    assert(crate::http_client::headers_view(out@)
                        =~= crate::http_client::headers_view(h@));
                }
                Some(out)
            },
            None => None,
        };
        HttpArgs { url: self.url.clone(), method: self.method.clone(), headers }
    }
}

/// What the HTTP command expects of the response, and what a host
/// should exit with when the expectation fails.
#[derive(Debug, PartialEq, Eq, Structural, Clone, Copy)]
pub struct Expectation {
    pub status_code: u16,
    pub exit_code: i32,
}

impl Default for Expectation {
    /// Expects status 200 and maps failure to exit code 0.
    fn default() -> (r: Self)
        ensures
            r.status_code == 200,
            r.exit_code == 0,
    {
        Expectation { status_code: 200, exit_code: 0 }
    }
}

impl Expectation {
    /// Whether the expected status itself lies in the success range.
    pub fn is_success(&self) -> (r: bool)
        ensures
            r == (200 <= self.status_code < 300),
    {
        300 > self.status_code && self.status_code >= 200
    }
}

/// `Expectation`, as a host configures it for an HTTP client.
#[derive(Debug, PartialEq, Eq, Structural, Clone, Copy)]
pub struct ExpectationHttpClient {
    pub status_code: u16,
    pub exit_code: i32,
}

impl Default for ExpectationHttpClient {
    /// All zero, to be filled in by the host.
    fn default() -> (r: Self)
        ensures
            r.status_code == 0,
            r.exit_code == 0,
    {
        ExpectationHttpClient { status_code: 0, exit_code: 0 }
    }
}

/// Everything the HTTP command needs: the request arguments, the
/// message it was handed, and the response expectation.
#[derive(Debug, PartialEq)]
pub struct HttpCommandArgs {
    pub args: HttpArgs,
    pub common_content: CommonContent,
    pub expectation: Expectation,
}

impl HttpCommandArgs {
    /// Bundles the three parts.
    pub fn new(args: HttpArgs, common_content: CommonContent, expectation: Expectation) -> (r:
        Self)
        ensures
            r.args == args,
            r.common_content == common_content,
            r.expectation == expectation,
    {
        HttpCommandArgs { args, common_content, expectation }
    }
}

/// An ordered list of commands sharing an environment scope, with
/// optional schemas that an external validator may interpret.
#[derive(Debug, PartialEq)]
pub struct Task {
    pub commands: Vec<crate::command::Command>,
    pub input_schema: Option<JsonValue>,
    pub output_schema: Option<JsonValue>,
    pub env: Option<Env>,
}

/// A named group of tasks that a host may schedule together.
#[derive(Debug, PartialEq)]
pub struct Stage {
    pub name: String,
    pub deps: Vec<Task>,
    pub sequential: bool,
}

/// A pipeline document: metadata, an optional root environment, and
/// the ordered map of named tasks.
#[derive(Debug, PartialEq)]
pub struct Pipeline {
    pub name: String,
    pub version: String,
    pub description: String,
    pub url: String,
    pub engine_version: String,
    pub env: Option<Env>,
    pub pipe: Option<Vec<Stage>>,
    pub tasks: Option<Vec<(String, Task)>>,
    pub schemas: Option<Vec<(String, JsonValue)>>,
}

impl Default for Pipeline {
    /// An empty pipeline with engine version "0.1.0".
    fn default() -> (r: Self)
        ensures
            r.name@ == Seq::<char>::empty(),
            r.version@ == Seq::<char>::empty(),
            r.description@ == Seq::<char>::empty(),
            r.url@ == Seq::<char>::empty(),
            r.engine_version@ == "0.1.0"@,
            r.env is None,
            r.pipe is None,
            r.tasks is None,
            r.schemas is None,
    {
        Pipeline {
            name: String::new(),
            version: String::new(),
            description: String::new(),
            url: String::new(),
            engine_version: String::from_str("0.1.0"),
            env: None,
            pipe: None,
            tasks: None,
            schemas: None,
        }
    }
}

} // verus!
