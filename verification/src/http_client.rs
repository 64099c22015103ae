//! The HTTP command.
//!
//! The engine cannot send a request itself: it builds a request plan
//! (method, target, encoded headers, optional JSON body, all after
//! interpolation), the host performs the exchange, and the engine
//! classifies the response by its status and content type.

use vstd::prelude::*;

use crate::env::env_extend;
use crate::env::env_get;
use crate::env::env_upsert;
use crate::env::subst_map_view;
use crate::env::Env;
use crate::error::ErrorView;
use crate::error::VermanSchemaError;
use crate::interp::subst_err_text;
use crate::interp::subst_pass;
use crate::json::int_text;
use crate::json::json_text;
use crate::json::JsonValue;
use crate::json::JsonView;
use crate::models::CommonContent;
use crate::models::CommonContentView;
use crate::models::Expectation;
use crate::models::HeaderScalar;
use crate::models::HeaderScalarView;
use crate::models::HttpCommandArgs;
use crate::parse::parse_json_spec;
use crate::shared::prev_content_key;

verus! {

/// Mathematical form of a request plan.
pub struct HttpRequestPlanView {
    pub method: Seq<char>,
    pub url: Seq<char>,
    pub headers: Seq<(Seq<char>, Seq<char>)>,
    pub body: Option<JsonView>,
}

/// A fully prepared request: everything the host needs to perform the
/// exchange.  The header list holds one entry per name: a repeated
/// name keeps its first position and its last value.
#[derive(Debug, PartialEq)]
pub struct HttpRequestPlan {
    pub method: String,
    pub url: String,
    pub headers: Vec<(String, String)>,
    pub body: Option<JsonValue>,
}

impl View for HttpRequestPlan {
    type V = HttpRequestPlanView;

    open spec fn view(&self) -> HttpRequestPlanView {
        HttpRequestPlanView {
            method: self.method@,
            url: self.url@,
            headers: crate::env::smap_of(self.headers@),
            body: match self.body {
                Some(ref v) => Some(v@),
                None => None,
            },
        }
    }
}

/// A token character, as methods and header names allow.
pub open spec fn is_tchar(c: char) -> bool {
    let u = c as u32;
    (48 <= u && u <= 57) || (65 <= u && u <= 90) || (97 <= u && u <= 122) || c == '!' || c == '#'
        || c == '$' || c == '%' || c == '&' || c == '\'' || c == '*' || c == '+' || c == '-'
        || c == '.' || c == '^' || c == '_' || c == '`' || c == '|' || c == '~'
}

/// A well-formed method: a non-empty run of token characters.
pub open spec fn valid_method(s: Seq<char>) -> bool {
    s.len() > 0 && forall|i: int| 0 <= i < s.len() ==> is_tchar(#[trigger] s[i])
}

/// A graphic ASCII character.
pub open spec fn is_graphic(c: char) -> bool {
    33 <= c as u32 && c as u32 <= 126
}

/// The target sanity check the engine makes before handing the plan to
/// the host: non-empty, graphic ASCII throughout.  The host's client
/// makes the full parse.
pub open spec fn valid_url(s: Seq<char>) -> bool {
    s.len() > 0 && forall|i: int| 0 <= i < s.len() ==> is_graphic(#[trigger] s[i])
}

/// A character allowed in a header value: anything but the control
/// characters, except the horizontal tab.
pub open spec fn is_header_value_char(c: char) -> bool {
    c == '\t' || (c as u32 >= 0x20 && c as u32 != 0x7F)
}

/// A well-formed header value string.
pub open spec fn valid_header_value(s: Seq<char>) -> bool {
    forall|i: int| 0 <= i < s.len() ==> is_header_value_char(#[trigger] s[i])
}

/// A well-formed header name: a non-empty run of token characters.
pub open spec fn valid_header_name(s: Seq<char>) -> bool {
    s.len() > 0 && forall|i: int| 0 <= i < s.len() ==> is_tchar(#[trigger] s[i])
}

/// How a header scalar is written on the wire: null as the empty
/// value, a boolean as `1` or `0`, an integer in decimal, a string as
/// itself.
pub open spec fn header_value_text(h: HeaderScalarView) -> Seq<char> {
    match h {
        HeaderScalarView::Null => Seq::empty(),
        HeaderScalarView::Bool(b) => if b {
            "1"@
        } else {
            "0"@
        },
        HeaderScalarView::Int(i) => int_text(i),
        HeaderScalarView::Str(s) => s,
    }
}

/// The views of a header list's entries.
pub open spec fn headers_view(s: Seq<(String, HeaderScalar)>) -> Seq<
    (Seq<char>, HeaderScalarView),
>
    decreases s.len(),
{
    if s.len() == 0 {
        Seq::empty()
    } else {
        headers_view(s.drop_last()).push((s.last().0@, s.last().1@))
    }
}

/// `headers_view` keeps the length.
pub broadcast proof fn lemma_headers_view_len(s: Seq<(String, HeaderScalar)>)
    ensures
        #[trigger] headers_view(s).len() == s.len(),
    decreases s.len(),
{
    if s.len() > 0 {
        lemma_headers_view_len(s.drop_last());
    }
}

/// `headers_view` maps each entry to its views.
pub broadcast proof fn lemma_headers_view_index(s: Seq<(String, HeaderScalar)>, i: int)
    requires
        0 <= i < s.len(),
    ensures
        #[trigger] headers_view(s)[i] == (s[i].0@, s[i].1@),
    decreases s.len(),
{
    lemma_headers_view_len(s);
    lemma_headers_view_len(s.drop_last());
    if i < s.len() - 1 {
        lemma_headers_view_index(s.drop_last(), i);
        assert(s.drop_last()[i] == s[i]);
    }
}

/// One header entry encoded for the wire, or why it cannot be.
pub open spec fn encode_header_spec(name: Seq<char>, value: HeaderScalarView) -> Result<
    (Seq<char>, Seq<char>),
    ErrorView,
> {
    if (value matches HeaderScalarView::Str(s) && !valid_header_value(s)) {
        Err(ErrorView::InvalidHeaderValue("a header value holds a control character"@))
    } else if !valid_header_name(name) {
        Err(ErrorView::InvalidHeaderName("a header name is empty or holds a separator"@))
    } else {
        Ok((name, header_value_text(value)))
    }
}

/// A header list encoded for the wire, in order; the first faulty
/// entry decides the error.
pub open spec fn encode_headers_spec(hs: Seq<(Seq<char>, HeaderScalarView)>) -> Result<
    Seq<(Seq<char>, Seq<char>)>,
    ErrorView,
>
    decreases hs.len(),
{
    if hs.len() == 0 {
        Ok(Seq::empty())
    } else {
        match encode_header_spec(hs[0].0, hs[0].1) {
            Err(e) => Err(e),
            Ok(p) => match encode_headers_spec(hs.drop_first()) {
                Ok(rest) => Ok(seq![p] + rest),
                Err(e) => Err(e),
            },
        }
    }
}

/// The text a body travels as for interpolation: a string as itself,
/// any other value as its compact JSON text.
pub open spec fn interpolated_body_spec(
    body: JsonView,
    m: Seq<(Seq<char>, Seq<char>)>,
) -> Result<Option<JsonView>, ErrorView> {
    match body {
        JsonView::Str(s) => match subst_pass(s, m, false) {
            Ok(t) => Ok(Some(JsonView::Str(t))),
            Err(e) => Err(ErrorView::SubstError(subst_err_text(e))),
        },
        _ => match subst_pass(json_text(body), m, false) {
            Ok(t) => match parse_json_spec(t) {
                Some(v) => Ok(Some(v)),
                None => Err(
                    ErrorView::SerdeJsonError("the interpolated body is not a JSON text"@),
                ),
            },
            Err(e) => Err(ErrorView::SubstError(subst_err_text(e))),
        },
    }
}

/// The whole request build: body fallback to the previous output,
/// interpolation of method, target and body when the environment is
/// non-empty, the sanity checks, and the header encoding.
pub open spec fn http_prepare_spec(args: HttpCommandArgs) -> Result<
    HttpRequestPlanView,
    ErrorView,
> {
    http_prepare_view_spec(
        args.args.method@,
        args.args.url@,
        match args.args.headers {
            Some(ref v) => headers_view(v@),
            None => Seq::empty(),
        },
        match args.common_content.content {
            Some(ref v) => Some(v@),
            None => None,
        },
        match args.common_content.env {
            Some(ref e) => e@,
            None => Seq::empty(),
        },
    )
}

/// `http_prepare_spec`, over the views of the request's parts.
pub open spec fn http_prepare_view_spec(
    method0: Seq<char>,
    url0: Seq<char>,
    headers0: Seq<(Seq<char>, HeaderScalarView)>,
    content: Option<JsonView>,
    env: Seq<(Seq<char>, JsonView)>,
) -> Result<HttpRequestPlanView, ErrorView> {
    let body0 = match content {
        Some(v) => Some(v),
        None => env_get(env, prev_content_key()),
    };
    let m = subst_map_view(env);
    let method_r = if env.len() > 0 {
        subst_pass(method0, m, false)
    } else {
        Ok(method0)
    };
    match method_r {
        Err(e) => Err(ErrorView::SubstError(subst_err_text(e))),
        Ok(method) => {
            let url_r = if env.len() > 0 {
                subst_pass(url0, m, false)
            } else {
                Ok(url0)
            };
            match url_r {
                Err(e) => Err(ErrorView::SubstError(subst_err_text(e))),
                Ok(url) => {
                    let body_r = if env.len() > 0 {
                        match body0 {
                            Some(b) => interpolated_body_spec(b, m),
                            None => Ok(None),
                        }
                    } else {
                        Ok(body0)
                    };
                    match body_r {
                        Err(e) => Err(e),
                        Ok(body) => {
                            if !valid_method(method) {
                                Err(
                                    ErrorView::InvalidMethod(
                                        "the method is empty or holds a separator"@,
                                    ),
                                )
                            } else if !valid_url(url) {
                                Err(
                                    ErrorView::InvalidUri(
                                        "the target is empty or holds a character outside graphic ASCII"@,
                                    ),
                                )
                            } else {
                                match encode_headers_spec(headers0) {
                                    Err(e) => Err(e),
                                    Ok(encoded) => Ok(
                                        HttpRequestPlanView {
                                            method: method,
                                            url: url,
                                            headers: last_value_per_name(encoded),
                                            body: body,
                                        },
                                    ),
                                }
                            }
                        },
                    }
                },
            }
        },
    }
}

/// What the engine records of a response.  An unexpected status is the
/// error carrying that status.  A JSON content type must parse; a
/// textual one is stored as text under its own type name; anything
/// else must parse as JSON and keeps its type name.  A missing content
/// type counts as the empty type name.
pub open spec fn http_classify_spec(
    expectation: Expectation,
    status: u16,
    content_type: Option<Seq<char>>,
    body: Seq<char>,
) -> Result<CommonContentView, ErrorView> {
    if status != expectation.status_code {
        Err(ErrorView::HttpError(status))
    } else {
        let ct = match content_type {
            Some(t) => t,
            None => Seq::empty(),
        };
        if ct == "application/json"@ || ct == "text/json"@ {
            match parse_json_spec(body) {
                Some(v) => Ok(classified(v, "JSON"@)),
                None => Err(ErrorView::SerdeJsonError("the response body is not a JSON text"@)),
            }
        } else if (ct.len() >= 5 && ct.subrange(0, 5) == "text/"@) || ct == "application/xml"@ {
            Ok(classified(JsonView::Str(body), ct))
        } else {
            match parse_json_spec(body) {
                Some(v) => Ok(classified(v, ct)),
                None => Err(ErrorView::SerdeJsonError("the response body is not a JSON text"@)),
            }
        }
    }
}

/// The message a classified response becomes: only the two well-known
/// keys, no direct content.
pub open spec fn classified(v: JsonView, kind_label: Seq<char>) -> CommonContentView {
    CommonContentView {
        content: None,
        env: Some(
            env_upsert(
                env_upsert(Seq::empty(), prev_content_key(), v),
                "CMD_PREVIOUS_TYPE"@,
                JsonView::Str(kind_label),
            ),
        ),
    }
}

/// Whether every character of `s` is a token character.
fn check_all_tchar(s: &String) -> (r: bool)
    ensures
        r == (forall|i: int| 0 <= i < s@.len() ==> is_tchar(#[trigger] s@[i])),
{
    let cs = crate::chars::string_to_chars(s);
    let n = cs.len();
    let mut i: usize = 0;
    while i < n
        invariant
            n == cs@.len(),
            cs@ == s@,
            i <= n,
            forall|j: int| 0 <= j < i ==> is_tchar(#[trigger] s@[j]),
        decreases n - i,
    {
        if !is_tchar_exec(cs[i]) {
            return false;
        }
        i = i + 1;
    }
    true
}

/// A token character.
fn is_tchar_exec(c: char) -> (r: bool)
    ensures
        r == is_tchar(c),
{
    let u = c as u32;
    (48 <= u && u <= 57) || (65 <= u && u <= 90) || (97 <= u && u <= 122) || c == '!' || c == '#'
        || c == '$' || c == '%' || c == '&' || c == '\'' || c == '*' || c == '+' || c == '-'
        || c == '.' || c == '^' || c == '_' || c == '`' || c == '|' || c == '~'
}

/// Whether every character of `s` is graphic ASCII.
fn check_all_graphic(s: &String) -> (r: bool)
    ensures
        r == (forall|i: int| 0 <= i < s@.len() ==> is_graphic(#[trigger] s@[i])),
{
    let cs = crate::chars::string_to_chars(s);
    let n = cs.len();
    let mut i: usize = 0;
    while i < n
        invariant
            n == cs@.len(),
            cs@ == s@,
            i <= n,
            forall|j: int| 0 <= j < i ==> is_graphic(#[trigger] s@[j]),
        decreases n - i,
    {
        let u = cs[i] as u32;
        if !(33 <= u && u <= 126) {
            return false;
        }
        i = i + 1;
    }
    true
}

/// Whether every character of `s` may stand in a header value.
fn check_header_value(s: &String) -> (r: bool)
    ensures
        r == valid_header_value(s@),
{
    let cs = crate::chars::string_to_chars(s);
    let n = cs.len();
    let mut i: usize = 0;
    while i < n
        invariant
            n == cs@.len(),
            cs@ == s@,
            i <= n,
            forall|j: int| 0 <= j < i ==> is_header_value_char(#[trigger] s@[j]),
        decreases n - i,
    {
        let c = cs[i];
        let u = c as u32;
        if !(c == '\t' || (u >= 0x20 && u != 0x7F)) {
            return false;
        }
        i = i + 1;
    }
    true
}

/// The decimal text of `i`.
fn i64_dec_string(i: i64) -> (r: String)
    ensures
        r@ == int_text(i as int),
{
    let mut out: Vec<char> = Vec::new();
    crate::json::write_i64(&mut out, i);
    crate::chars::chars_to_string(&out)
}

/// Encodes one header entry, as `encode_header_spec` describes.
fn encode_header(name: &String, value: &HeaderScalar) -> (r: Result<
    (String, String),
    VermanSchemaError,
>)
    ensures
        r matches Ok(p) ==> encode_header_spec(name@, value@) == Ok::<
            (Seq<char>, Seq<char>),
            ErrorView,
        >((p.0@, p.1@)),
        r matches Err(e) ==> encode_header_spec(name@, value@) == Err::<
            (Seq<char>, Seq<char>),
            ErrorView,
        >(e@),
{
    let value_text: String = match value {
        HeaderScalar::Null => String::new(),
        HeaderScalar::Bool(b) => {
            if *b {
                String::from_str("1")
            } else {
                String::from_str("0")
            }
        },
        HeaderScalar::Int(i) => i64_dec_string(*i),
        HeaderScalar::Str(s) => {
            if !check_header_value(s) {
                return Err(
                    VermanSchemaError::InvalidHeaderValue(
                        String::from_str("a header value holds a control character"),
                    ),
                );
            }
            s.clone()
        },
    };
    let name_ok = if name.as_str().is_empty() {
        false
    } else {
        check_all_tchar(name)
    };
    if !name_ok {
        return Err(
            VermanSchemaError::InvalidHeaderName(
                String::from_str("a header name is empty or holds a separator"),
            ),
        );
    }
    Ok((name.clone(), value_text))
}

/// Encodes a header list, as `encode_headers_spec` describes.
fn encode_headers(hs: &Vec<(String, HeaderScalar)>) -> (r: Result<
    Vec<(String, String)>,
    VermanSchemaError,
>)
    ensures
        r matches Ok(v) ==> encode_headers_spec(headers_view(hs@)) == Ok::<
            Seq<(Seq<char>, Seq<char>)>,
            ErrorView,
        >(crate::env::smap_of(v@)),
        r matches Err(e) ==> encode_headers_spec(headers_view(hs@)) == Err::<
            Seq<(Seq<char>, Seq<char>)>,
            ErrorView,
        >(e@),
{
    broadcast use {
        lemma_headers_view_len,
        lemma_headers_view_index,
        crate::env::lemma_smap_of_len,
        crate::env::lemma_smap_of_index,
    };

    let ghost full = headers_view(hs@);
    let n = hs.len();
    let mut out: Vec<(String, String)> = Vec::new();
    let mut i: usize = 0;
    proof {
        assert(full.skip(0) =~= full);
    }
    while i < n
        invariant
            n == hs@.len(),
            full == headers_view(hs@),
            full.len() == n,
            i <= n,
            out@.len() == i,
            encode_headers_spec(full) == (match encode_headers_spec(full.skip(i as int)) {
                Ok(rest) => Ok::<Seq<(Seq<char>, Seq<char>)>, ErrorView>(
                    crate::env::smap_of(out@) + rest,
                ),
                Err(e) => Err::<Seq<(Seq<char>, Seq<char>)>, ErrorView>(e),
            }),
        decreases n - i,
    {
        proof {
            assert(full.skip(i as int)[0] == full[i as int]);
            assert(full.skip(i as int).drop_first() =~= full.skip(i + 1));
        }
        match encode_header(&hs[i].0, &hs[i].1) {
            Ok(p) => {
                let ghost pv = (p.0@, p.1@);
                let ghost out_before = out@;
                out.push(p);
                proof {
                    assert(out@.drop_last() =~= out_before);
                    assert(crate::env::smap_of(out@) =~= crate::env::smap_of(out_before)
                        + seq![pv]);
                    match encode_headers_spec(full.skip(i + 1)) {
                        Ok(rest) => {
                            assert((crate::env::smap_of(out_before) + seq![pv]) + rest
                                =~= crate::env::smap_of(out_before) + (seq![pv] + rest));
                        },
                        Err(_) => {},
                    }
                }
                i = i + 1;
            },
            Err(e) => {
                return Err(e);
            },
        }
    }
    proof {
        assert(encode_headers_spec(full.skip(n as int)) == Ok::<
            Seq<(Seq<char>, Seq<char>)>,
            ErrorView,
        >(Seq::empty()));
        assert(crate::env::smap_of(out@) + Seq::<(Seq<char>, Seq<char>)>::empty() =~= crate::env::smap_of(out@));
    }
    Ok(out)
}

/// The wire headers after duplicate names collapse: a repeated name
/// keeps its first position and its last value, as an insertion into a
/// header map leaves it.
pub open spec fn last_value_per_name(encoded: Seq<(Seq<char>, Seq<char>)>) -> Seq<
    (Seq<char>, Seq<char>),
> {
    env_extend(Seq::empty(), encoded)
}

/// Puts `v` under `k` in the flat header map: replaces the first entry
/// with that name in place, else appends a new entry.
fn header_upsert(m: &mut Vec<(String, String)>, k: String, v: String)
    ensures
        crate::env::smap_of(final (m)@) == env_upsert(
            crate::env::smap_of(old(m)@),
            k@,
            v@,
        ),
{
    broadcast use {crate::env::lemma_smap_of_len, crate::env::lemma_smap_of_index};

    let n = m.len();
    let mut i: usize = 0;
    while i < n
        invariant
            n == m@.len(),
            crate::env::smap_of(m@).len() == n,
            i <= n,
            *m == *old(m),
            forall|j: int|
                0 <= j < i ==> (#[trigger] crate::env::smap_of(m@)[j]).0 != k@,
        decreases n - i,
    {
        if m[i].0 == k {
            proof {
                assert(crate::env::smap_of(m@)[i as int] == (m@[i as int].0@, m@[
                    i as int].1@));
                crate::env::lemma_env_first_index_of_scan(
                    crate::env::smap_of(m@),
                    k@,
                    i as int,
                );
            }
            m[i] = (k, v);
            proof {
                assert(crate::env::smap_of(m@) =~= env_upsert(
                    crate::env::smap_of(old(m)@),
                    k@,
                    v@,
                ));
            }
            return ;
        }
        proof {
            assert(crate::env::smap_of(m@)[i as int] == (m@[i as int].0@, m@[i as int].1@));
        }
        i = i + 1;
    }
    proof {
        crate::env::lemma_env_not_found_of_scan(crate::env::smap_of(m@), k@);
    }
    m.push((k, v));
    proof {
        assert(crate::env::smap_of(m@) =~= env_upsert(crate::env::smap_of(old(m)@), k@, v@));
    }
}

/// Collapses duplicate names, as `last_value_per_name` describes.
fn dedup_headers(hs: Vec<(String, String)>) -> (r: Vec<(String, String)>)
    ensures
        crate::env::smap_of(r@) == last_value_per_name(crate::env::smap_of(hs@)),
{
    broadcast use {crate::env::lemma_smap_of_len, crate::env::lemma_smap_of_index};

    let ghost full = crate::env::smap_of(hs@);
    let n = hs.len();
    let mut out: Vec<(String, String)> = Vec::new();
    let mut i: usize = 0;
    let mut rest = hs;
    while i < n
        invariant
            n == full.len(),
            crate::env::smap_of(rest@) == full,
            rest@.len() == n,
            i <= n,
            crate::env::smap_of(out@) == env_extend(
                Seq::<(Seq<char>, Seq<char>)>::empty(),
                full.take(i as int),
            ),
        decreases n - i,
    {
        let k = rest[i].0.clone();
        let v = rest[i].1.clone();
        proof {
            assert(full[i as int] == (rest@[i as int].0@, rest@[i as int].1@));
        }
        header_upsert(&mut out, k, v);
        proof {
            assert(full.take(i + 1).drop_last() =~= full.take(i as int));
            assert(full.take(i + 1).last() == full[i as int]);
        }
        i = i + 1;
    }
    proof {
        assert(full.take(n as int) =~= full);
    }
    out
}

/// Builds the request plan, as `http_prepare_spec` describes.
pub fn http_prepare(args: &HttpCommandArgs) -> (r: Result<HttpRequestPlan, VermanSchemaError>)
    ensures
        r matches Ok(p) ==> http_prepare_spec(*args) == Ok::<HttpRequestPlanView, ErrorView>(
            p@,
        ),
        r matches Err(e) ==> http_prepare_spec(*args) == Err::<HttpRequestPlanView, ErrorView>(
            e@,
        ),
{
    let empty_env = Env::new();
    let env: &Env = match &args.common_content.env {
        Some(e) => e,
        None => &empty_env,
    };
    let key = crate::shared::prev_content_key_string();
    let body0: Option<JsonValue> = match &args.common_content.content {
        Some(v) => Some(v.duplicate()),
        None => {
            match env.get(&key) {
                Some(v) => Some(v.duplicate()),
                None => None,
            }
        },
    };
    let use_env = env.len() > 0;
    let m = crate::env::make_subst_map(env);
    let method: String = if use_env {
        match crate::interp::substitute(&args.args.method, &m, false) {
            Ok(t) => t,
            Err(f) => {
                return Err(VermanSchemaError::SubstError(f.describe()));
            },
        }
    } else {
        args.args.method.clone()
    };
    let url: String = if use_env {
        match crate::interp::substitute(&args.args.url, &m, false) {
            Ok(t) => t,
            Err(f) => {
                return Err(VermanSchemaError::SubstError(f.describe()));
            },
        }
    } else {
        args.args.url.clone()
    };
    let body: Option<JsonValue> = if use_env {
        match body0 {
            Some(b) => {
                match &b {
                    JsonValue::Str(s) => {
                        match crate::interp::substitute(s, &m, false) {
                            Ok(t) => Some(JsonValue::Str(t)),
                            Err(f) => {
                                return Err(VermanSchemaError::SubstError(f.describe()));
                            },
                        }
                    },
                    other => {
                        let text = crate::json::to_json_string(other);
                        match crate::interp::substitute(&text, &m, false) {
                            Ok(t) => {
                                match crate::parse::parse_json(&t) {
                                    Some(v) => Some(v),
                                    None => {
                                        return Err(
                                            VermanSchemaError::SerdeJsonError(
                                                String::from_str(
                                                    "the interpolated body is not a JSON text",
                                                ),
                                            ),
                                        );
                                    },
                                }
                            },
                            Err(f) => {
                                return Err(VermanSchemaError::SubstError(f.describe()));
                            },
                        }
                    },
                }
            },
            None => None,
        }
    } else {
        body0
    };
    let method_ok = if method.as_str().is_empty() {
        false
    } else {
        check_all_tchar(&method)
    };
    if !method_ok {
        return Err(
            VermanSchemaError::InvalidMethod(
                String::from_str("the method is empty or holds a separator"),
            ),
        );
    }
    let url_ok = if url.as_str().is_empty() {
        false
    } else {
        check_all_graphic(&url)
    };
    if !url_ok {
        return Err(
            VermanSchemaError::InvalidUri(
                String::from_str("the target is empty or holds a character outside graphic ASCII"),
            ),
        );
    }
    let encoded: Vec<(String, String)> = match &args.args.headers {
        Some(v) => {
            match encode_headers(v) {
                Ok(enc) => enc,
                Err(e) => {
                    return Err(e);
                },
            }
        },
        None => Vec::new(),
    };
    let headers = dedup_headers(encoded);
    proof {
        if args.args.headers is None {
            assert(encode_headers_spec(headers_view(Seq::<(String, HeaderScalar)>::empty()))
                == Ok::<Seq<(Seq<char>, Seq<char>)>, ErrorView>(Seq::empty()));
        }
    }
    Ok(HttpRequestPlan { method, url, headers, body })
}

/// Classifies a response, as `http_classify_spec` describes.
pub fn http_classify(
    expectation: &Expectation,
    status: u16,
    content_type: Option<String>,
    body: String,
) -> (r: Result<CommonContent, VermanSchemaError>)
    ensures
        r matches Ok(v) ==> http_classify_spec(
            *expectation,
            status,
            match content_type {
                Some(ref t) => Some(t@),
                None => None,
            },
            body@,
        ) == Ok::<CommonContentView, ErrorView>(v@),
        r matches Err(e) ==> http_classify_spec(
            *expectation,
            status,
            match content_type {
                Some(ref t) => Some(t@),
                None => None,
            },
            body@,
        ) == Err::<CommonContentView, ErrorView>(e@),
{
    if status != expectation.status_code {
        return Err(VermanSchemaError::HttpError(status));
    }
    let ct: String = match content_type {
        Some(t) => t,
        None => String::new(),
    };
    let app_json = String::from_str("application/json");
    let text_json = String::from_str("text/json");
    if ct == app_json || ct == text_json {
        match crate::parse::parse_json(&body) {
            Some(v) => Ok(make_classified(v, String::from_str("JSON"))),
            None => Err(
                VermanSchemaError::SerdeJsonError(
                    String::from_str("the response body is not a JSON text"),
                ),
            ),
        }
    } else {
        let is_text = has_text_prefix(&ct);
        let app_xml = String::from_str("application/xml");
        if is_text || ct == app_xml {
            Ok(make_classified(JsonValue::Str(body), ct))
        } else {
            match crate::parse::parse_json(&body) {
                Some(v) => Ok(make_classified(v, ct)),
                None => Err(
                    VermanSchemaError::SerdeJsonError(
                        String::from_str("the response body is not a JSON text"),
                    ),
                ),
            }
        }
    }
}

/// Whether `s` begins with the five characters `text/`.
fn has_text_prefix(s: &String) -> (r: bool)
    ensures
        r == (s@.len() >= 5 && s@.subrange(0, 5) == "text/"@),
{
    let cs = crate::chars::string_to_chars(s);
    if cs.len() < 5 {
        return false;
    }
    let r = cs[0] == 't' && cs[1] == 'e' && cs[2] == 'x' && cs[3] == 't' && cs[4] == '/';
    proof {
        reveal_strlit("text/");
        if r {
            assert(s@.subrange(0, 5) =~= "text/"@);
        } else {
            assert(s@.subrange(0, 5) != "text/"@) by {
                if s@.subrange(0, 5) == "text/"@ {
                    assert(s@.subrange(0, 5)[0] == s@[0]);
                    assert(s@.subrange(0, 5)[1] == s@[1]);
                    assert(s@.subrange(0, 5)[2] == s@[2]);
                    assert(s@.subrange(0, 5)[3] == s@[3]);
                    assert(s@.subrange(0, 5)[4] == s@[4]);
                }
            }
        }
    }
    r
}

/// The message a classified response becomes.
fn make_classified(v: JsonValue, kind_label: String) -> (r: CommonContent)
    ensures
        r@ == classified(v@, kind_label@),
{
    let mut env = Env::new();
    env.insert(crate::shared::prev_content_key_string(), v);
    let type_key = crate::command::CommandKey::PreviousType.key_string();
    env.insert(type_key, JsonValue::Str(kind_label));
    CommonContent { content: None, env: Some(env) }
}

} // verus!
