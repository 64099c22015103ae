//! The interpolator: shell-style variable substitution.
//!
//! A template may hold `$NAME`, `${NAME}` and `${NAME:default}`
//! references, where a name is a run of ASCII letters, digits and
//! underscores.  Each reference is replaced by the string form of the
//! variable's value; substituted text is not scanned again within a
//! pass.  A backslash escapes any of `\`, `$`, `{`, `}` and `:`; any
//! other escape is an error.  The default is itself a template — it
//! may hold further references and nested braces — and is expanded
//! only when the name is unbound.
//!
//! An unknown name without a default is an error unless the caller
//! asks for errors to be ignored; then the reference stands verbatim
//! in the output.

use vstd::prelude::*;

use crate::env::smap_get;
use crate::env::smap_of;

verus! {

/// Why a substitution pass failed.
pub enum SubstErr {
    InvalidEscape,
    MissingVariableName,
    BadBrace,
    Unknown(Seq<char>),
}

/// Why a substitution pass failed, with the offending name.
#[derive(Debug, PartialEq)]
pub enum SubstFailure {
    InvalidEscape,
    MissingVariableName,
    BadBrace,
    Unknown(String),
}

impl View for SubstFailure {
    type V = SubstErr;

    open spec fn view(&self) -> SubstErr {
        match self {
            SubstFailure::InvalidEscape => SubstErr::InvalidEscape,
            SubstFailure::MissingVariableName => SubstErr::MissingVariableName,
            SubstFailure::BadBrace => SubstErr::BadBrace,
            SubstFailure::Unknown(n) => SubstErr::Unknown(n@),
        }
    }
}

/// Whether `c` may appear in a variable name: ASCII letters, digits
/// and the underscore.
pub open spec fn is_var_char(c: char) -> bool {
    (97 <= c as u32 && c as u32 <= 122) || (65 <= c as u32 && c as u32 <= 90) || (48 <= c as u32
        && c as u32 <= 57) || c as u32 == 95
}

/// Whether a backslash may escape `c`.
pub open spec fn is_escapable(c: char) -> bool {
    c == '\\' || c == '$' || c == '{' || c == '}' || c == ':'
}

/// The position right after the run of name characters that starts at
/// `i`.
pub open spec fn var_name_end(s: Seq<char>, i: int) -> int
    decreases s.len() - i,
{
    if i < 0 || i >= s.len() || !is_var_char(s[i]) {
        i
    } else {
        var_name_end(s, i + 1)
    }
}

/// `var_name_end` stays between its start and the length.
pub broadcast proof fn lemma_var_name_end_bounds(s: Seq<char>, i: int)
    requires
        0 <= i <= s.len(),
    ensures
        i <= #[trigger] var_name_end(s, i) <= s.len(),
    decreases s.len() - i,
{
    if i < s.len() && is_var_char(s[i]) {
        lemma_var_name_end_bounds(s, i + 1);
    }
}

/// The position of the brace that closes the one at `i`, counting
/// nested unescaped braces, or `-1` when none closes it.
pub open spec fn brace_end(s: Seq<char>, i: int, depth: int) -> int
    decreases s.len() - i,
{
    if i < 0 || i >= s.len() {
        -1
    } else if s[i] == '\\' {
        if i + 1 >= s.len() {
            -1
        } else {
            brace_end(s, i + 2, depth)
        }
    } else if s[i] == '{' {
        brace_end(s, i + 1, depth + 1)
    } else if s[i] == '}' {
        if depth <= 1 {
            i
        } else {
            brace_end(s, i + 1, depth - 1)
        }
    } else {
        brace_end(s, i + 1, depth)
    }
}

/// A found closing brace lies between the start and the length.
pub broadcast proof fn lemma_brace_end_bounds(s: Seq<char>, i: int, depth: int)
    requires
        0 <= i <= s.len(),
    ensures
        #[trigger] brace_end(s, i, depth) == -1 || i <= brace_end(s, i, depth) < s.len(),
    decreases s.len() - i,
{
    if i < s.len() {
        if s[i] == '\\' {
            if i + 1 < s.len() {
                lemma_brace_end_bounds(s, i + 2, depth);
            }
        } else if s[i] == '{' {
            lemma_brace_end_bounds(s, i + 1, depth + 1);
        } else if s[i] == '}' {
            if depth > 1 {
                lemma_brace_end_bounds(s, i + 1, depth - 1);
            }
        } else {
            lemma_brace_end_bounds(s, i + 1, depth);
        }
    }
}

/// Prefixes a substitution result with already-produced text; an error
/// stays an error.
pub open spec fn res_concat(prefix: Seq<char>, r: Result<Seq<char>, SubstErr>) -> Result<
    Seq<char>,
    SubstErr,
> {
    match r {
        Ok(t) => Ok(prefix + t),
        Err(e) => Err(e),
    }
}

/// `res_concat` composes.
pub proof fn lemma_res_concat_assoc(a: Seq<char>, b: Seq<char>, r: Result<Seq<char>, SubstErr>)
    ensures
        res_concat(a, res_concat(b, r)) == res_concat(a + b, r),
{
    match r {
        Ok(t) => {
            assert(a + (b + t) =~= (a + b) + t);
        },
        Err(_) => {},
    }
}

/// One substitution pass over `s` from position `i` on, with the
/// variable map `m`.  With `ignore` set, an unknown name leaves its
/// reference verbatim; the three syntax faults are errors either way.
pub open spec fn subst_from(
    s: Seq<char>,
    m: Seq<(Seq<char>, Seq<char>)>,
    ignore: bool,
    i: int,
) -> Result<Seq<char>, SubstErr>
    decreases s.len(), s.len() - i,
{
    if !(0 <= i < s.len()) {
        Ok(Seq::empty())
    } else if s[i] == '\\' {
        if i + 1 < s.len() && is_escapable(s[i + 1]) {
            res_concat(seq![s[i + 1]], subst_from(s, m, ignore, i + 2))
        } else {
            Err(SubstErr::InvalidEscape)
        }
    } else if s[i] == '$' {
        if i + 1 < s.len() && s[i + 1] == '{' {
            let e0 = var_name_end(s, i + 2);
            let e = if e0 > s.len() {
                s.len() as int
            } else if e0 < i + 2 {
                i + 2
            } else {
                e0
            };
            if e == i + 2 {
                Err(SubstErr::MissingVariableName)
            } else if e >= s.len() {
                Err(SubstErr::BadBrace)
            } else if s[e] == '}' {
                let name = s.subrange(i + 2, e);
                match smap_get(m, name) {
                    Some(val) => res_concat(val, subst_from(s, m, ignore, e + 1)),
                    None => if ignore {
                        res_concat(s.subrange(i, e + 1), subst_from(s, m, ignore, e + 1))
                    } else {
                        Err(SubstErr::Unknown(name))
                    },
                }
            } else if s[e] == ':' {
                let close0 = brace_end(s, i + 1, 0);
                let close = if close0 < e + 1 || close0 >= s.len() {
                    -1
                } else {
                    close0
                };
                if close == -1 {
                    Err(SubstErr::BadBrace)
                } else {
                    let name = s.subrange(i + 2, e);
                    match smap_get(m, name) {
                        Some(val) => res_concat(val, subst_from(s, m, ignore, close + 1)),
                        None => match subst_from(s.subrange(e + 1, close), m, ignore, 0) {
                            Ok(dflt) => res_concat(dflt, subst_from(s, m, ignore, close + 1)),
                            Err(err) => Err(err),
                        },
                    }
                }
            } else {
                Err(SubstErr::BadBrace)
            }
        } else {
            let e0 = var_name_end(s, i + 1);
            let e = if e0 > s.len() {
                s.len() as int
            } else if e0 < i + 1 {
                i + 1
            } else {
                e0
            };
            if e == i + 1 {
                Err(SubstErr::MissingVariableName)
            } else {
                let name = s.subrange(i + 1, e);
                match smap_get(m, name) {
                    Some(val) => res_concat(val, subst_from(s, m, ignore, e)),
                    None => if ignore {
                        res_concat(s.subrange(i, e), subst_from(s, m, ignore, e))
                    } else {
                        Err(SubstErr::Unknown(name))
                    },
                }
            }
        }
    } else {
        res_concat(seq![s[i]], subst_from(s, m, ignore, i + 1))
    }
}

/// One substitution pass over the whole of `s`.
pub open spec fn subst_pass(s: Seq<char>, m: Seq<(Seq<char>, Seq<char>)>, ignore: bool) -> Result<
    Seq<char>,
    SubstErr,
> {
    subst_from(s, m, ignore, 0)
}

/// `n` substitution passes in sequence, each on the previous result.
pub open spec fn subst_passes(
    s: Seq<char>,
    m: Seq<(Seq<char>, Seq<char>)>,
    ignore: bool,
    n: nat,
) -> Result<Seq<char>, SubstErr>
    decreases n,
{
    if n == 0 {
        Ok(s)
    } else {
        match subst_passes(s, m, ignore, (n - 1) as nat) {
            Ok(t) => subst_pass(t, m, ignore),
            Err(e) => Err(e),
        }
    }
}

/// Whether `c` may appear in a variable name.
pub fn is_var_char_exec(c: char) -> (r: bool)
    ensures
        r == is_var_char(c),
{
    let u = c as u32;
    (97 <= u && u <= 122) || (65 <= u && u <= 90) || (48 <= u && u <= 57) || u == 95
}

/// The position right after the run of name characters starting at
/// `start`.
fn scan_name(s: &Vec<char>, start: usize) -> (e: usize)
    requires
        start <= s@.len(),
    ensures
        e == var_name_end(s@, start as int),
        start <= e <= s@.len(),
{
    let n = s.len();
    let mut j = start;
    while j < n && is_var_char_exec(s[j])
        invariant
            start <= j <= n,
            n == s@.len(),
            var_name_end(s@, start as int) == var_name_end(s@, j as int),
        decreases n - j,
    {
        j = j + 1;
    }
    j
}

/// Appends every character of `piece`.
fn push_all(out: &mut Vec<char>, piece: &Vec<char>)
    ensures
        final (out)@ == old(out)@ + piece@,
{
    let n = piece.len();
    let mut i: usize = 0;
    while i < n
        invariant
            n == piece@.len(),
            i <= n,
            out@ == old(out)@ + piece@.take(i as int),
        decreases n - i,
    {
        out.push(piece[i]);
        proof {
            assert(old(out)@ + piece@.take(i + 1) =~= (old(out)@ + piece@.take(i as int)).push(
                piece@[i as int],
            ));
        }
        i = i + 1;
    }
    proof {
        assert(piece@.take(n as int) =~= piece@);
    }
}

/// The characters of `s` from `from` (inclusive) to `to` (exclusive).
fn copy_range(s: &Vec<char>, from: usize, to: usize) -> (r: Vec<char>)
    requires
        from <= to <= s@.len(),
    ensures
        r@ == s@.subrange(from as int, to as int),
{
    let mut r: Vec<char> = Vec::new();
    let mut i = from;
    while i < to
        invariant
            from <= i <= to <= s@.len(),
            r@ == s@.subrange(from as int, i as int),
        decreases to - i,
    {
        r.push(s[i]);
        proof {
            assert(s@.subrange(from as int, i + 1) =~= s@.subrange(from as int, i as int).push(
                s@[i as int],
            ));
        }
        i = i + 1;
    }
    r
}

/// The value under `k` in the flat map, if any: the first match wins.
fn smap_lookup<'a>(m: &'a Vec<(String, String)>, k: &String) -> (r: Option<&'a String>)
    ensures
        (r is Some) == (smap_get(smap_of(m@), k@) is Some),
        r matches Some(v) ==> smap_get(smap_of(m@), k@) == Some(v@),
{
    broadcast use {crate::env::lemma_smap_of_len, crate::env::lemma_smap_of_index};

    let n = m.len();
    proof {
        assert(smap_of(m@).skip(0) =~= smap_of(m@));
    }
    let mut i: usize = 0;
    while i < n
        invariant
            n == m@.len(),
            i <= n,
            smap_get(smap_of(m@), k@) == smap_get(smap_of(m@).skip(i as int), k@),
        decreases n - i,
    {
        proof {
            assert(smap_of(m@).skip(i as int)[0] == smap_of(m@)[i as int]);
            assert(smap_of(m@).skip(i as int).drop_first() =~= smap_of(m@).skip(i + 1));
        }
        if m[i].0 == *k {
            return Some(&m[i].1);
        }
        i = i + 1;
    }
    proof {
        assert(smap_of(m@).skip(n as int).len() == 0);
    }
    None
}

/// The position of the brace that closes the one at `start`, if any.
fn scan_brace_end(s: &Vec<char>, start: usize) -> (r: Option<usize>)
    requires
        start <= s@.len(),
    ensures
        r matches Some(j) ==> brace_end(s@, start as int, 0) == j && start <= j < s@.len(),
        r is None ==> brace_end(s@, start as int, 0) == -1,
{
    let n = s.len();
    let mut j = start;
    let mut depth: usize = 0;
    while j < n
        invariant
            start <= j <= n,
            n == s@.len(),
            depth <= j,
            brace_end(s@, start as int, 0) == brace_end(s@, j as int, depth as int),
        decreases n - j,
    {
        let c = s[j];
        if c == '\\' {
            if j + 1 >= n {
                return None;
            }
            j = j + 2;
        } else if c == '{' {
            depth = depth + 1;
            j = j + 1;
        } else if c == '}' {
            if depth <= 1 {
                return Some(j);
            }
            depth = depth - 1;
            j = j + 1;
        } else {
            j = j + 1;
        }
    }
    None
}

/// One substitution pass over `s` with the variable map `m`, as
/// `subst_pass` describes it.
#[verifier::loop_isolation(false)]
#[verifier::rlimit(60)]
pub fn substitute_chars(s: &Vec<char>, m: &Vec<(String, String)>, ignore: bool) -> (r: Result<
    Vec<char>,
    SubstFailure,
>)
    ensures
        r matches Ok(v) ==> subst_pass(s@, smap_of(m@), ignore) == Ok::<Seq<char>, SubstErr>(v@),
        r matches Err(e) ==> subst_pass(s@, smap_of(m@), ignore) == Err::<Seq<char>, SubstErr>(
            e@,
        ),
    decreases s@.len(),
{
    broadcast use lemma_var_name_end_bounds;

    let ghost mm = smap_of(m@);
    let ghost target = subst_from(s@, mm, ignore, 0);
    let n = s.len();
    let mut out: Vec<char> = Vec::new();
    let mut i: usize = 0;
    while i < n
        invariant
            i <= n,
            target == res_concat(out@, subst_from(s@, mm, ignore, i as int)),
        decreases n - i,
    {
        let c = s[i];
        if c == '\\' {
            if i + 1 < n && is_escapable_exec(s[i + 1]) {
                proof {
                    assert(subst_from(s@, mm, ignore, i as int) == res_concat(
                        seq![s@[i + 1]],
                        subst_from(s@, mm, ignore, i + 2),
                    ));
                    lemma_res_concat_assoc(out@, seq![s@[i + 1]], subst_from(
                        s@,
                        mm,
                        ignore,
                        i + 2,
                    ));
                }
                let ghost out_before = out@;
                out.push(s[i + 1]);
                proof {
                    assert(out@ =~= out_before + seq![s@[i + 1]]);
                }
                i = i + 2;
            } else {
                return Err(SubstFailure::InvalidEscape);
            }
        } else if c == '$' {
            if i + 1 < n && s[i + 1] == '{' {
                let e = scan_name(s, i + 2);
                if e == i + 2 {
                    return Err(SubstFailure::MissingVariableName);
                } else if e == n {
                    return Err(SubstFailure::BadBrace);
                } else if s[e] == ':' {
                    let close = match scan_brace_end(s, i + 1) {
                        None => {
                            return Err(SubstFailure::BadBrace);
                        },
                        Some(c2) => {
                            if c2 < e + 1 {
                                return Err(SubstFailure::BadBrace);
                            }
                            c2
                        },
                    };
                    let name_chars = copy_range(s, i + 2, e);
                    let name = crate::chars::chars_to_string(&name_chars);
                    match smap_lookup(m, &name) {
                        Some(val) => {
                            let val_chars = crate::chars::string_to_chars(val);
                            proof {
                                assert(name@ == s@.subrange(i + 2, e as int));
                                assert(subst_from(s@, mm, ignore, i as int) == res_concat(
                                    val_chars@,
                                    subst_from(s@, mm, ignore, close + 1),
                                ));
                                lemma_res_concat_assoc(out@, val_chars@, subst_from(
                                    s@,
                                    mm,
                                    ignore,
                                    close + 1,
                                ));
                            }
                            push_all(&mut out, &val_chars);
                            i = close + 1;
                        },
                        None => {
                            let sub = copy_range(s, e + 1, close);
                            match substitute_chars(&sub, m, ignore) {
                                Ok(dflt) => {
                                    proof {
                                        assert(name@ == s@.subrange(i + 2, e as int));
                                        assert(sub@ == s@.subrange(e + 1, close as int));
                                        assert(subst_from(s@, mm, ignore, i as int)
                                            == res_concat(
                                            dflt@,
                                            subst_from(s@, mm, ignore, close + 1),
                                        ));
                                        lemma_res_concat_assoc(out@, dflt@, subst_from(
                                            s@,
                                            mm,
                                            ignore,
                                            close + 1,
                                        ));
                                    }
                                    push_all(&mut out, &dflt);
                                    i = close + 1;
                                },
                                Err(f) => {
                                    proof {
                                        assert(name@ == s@.subrange(i + 2, e as int));
                                        assert(sub@ == s@.subrange(e + 1, close as int));
                                    }
                                    return Err(f);
                                },
                            }
                        },
                    }
                } else if !(s[e] == '}') {
                    return Err(SubstFailure::BadBrace);
                } else {
                    let name_chars = copy_range(s, i + 2, e);
                    let name = crate::chars::chars_to_string(&name_chars);
                    match smap_lookup(m, &name) {
                        Some(val) => {
                            let val_chars = crate::chars::string_to_chars(val);
                            proof {
                                assert(name@ == s@.subrange(i + 2, e as int));
                                assert(subst_from(s@, mm, ignore, i as int) == res_concat(
                                    val_chars@,
                                    subst_from(s@, mm, ignore, e + 1),
                                ));
                                lemma_res_concat_assoc(out@, val_chars@, subst_from(
                                    s@,
                                    mm,
                                    ignore,
                                    e + 1,
                                ));
                            }
                            push_all(&mut out, &val_chars);
                            i = e + 1;
                        },
                        None => {
                            if ignore {
                                let verbatim = copy_range(s, i, e + 1);
                                proof {
                                    assert(name@ == s@.subrange(i + 2, e as int));
                                    assert(subst_from(s@, mm, ignore, i as int) == res_concat(
                                        verbatim@,
                                        subst_from(s@, mm, ignore, e + 1),
                                    ));
                                    lemma_res_concat_assoc(out@, verbatim@, subst_from(
                                        s@,
                                        mm,
                                        ignore,
                                        e + 1,
                                    ));
                                }
                                push_all(&mut out, &verbatim);
                                i = e + 1;
                            } else {
                                proof {
                                    assert(name@ == s@.subrange(i + 2, e as int));
                                }
                                return Err(SubstFailure::Unknown(name));
                            }
                        },
                    }
                }
            } else {
                let e = scan_name(s, i + 1);
                if e == i + 1 {
                    return Err(SubstFailure::MissingVariableName);
                } else {
                    let name_chars = copy_range(s, i + 1, e);
                    let name = crate::chars::chars_to_string(&name_chars);
                    match smap_lookup(m, &name) {
                        Some(val) => {
                            let val_chars = crate::chars::string_to_chars(val);
                            proof {
                                assert(name@ == s@.subrange(i + 1, e as int));
                                assert(subst_from(s@, mm, ignore, i as int) == res_concat(
                                    val_chars@,
                                    subst_from(s@, mm, ignore, e as int),
                                ));
                                lemma_res_concat_assoc(out@, val_chars@, subst_from(
                                    s@,
                                    mm,
                                    ignore,
                                    e as int,
                                ));
                            }
                            push_all(&mut out, &val_chars);
                            i = e;
                        },
                        None => {
                            if ignore {
                                let verbatim = copy_range(s, i, e);
                                proof {
                                    assert(name@ == s@.subrange(i + 1, e as int));
                                    assert(subst_from(s@, mm, ignore, i as int) == res_concat(
                                        verbatim@,
                                        subst_from(s@, mm, ignore, e as int),
                                    ));
                                    lemma_res_concat_assoc(out@, verbatim@, subst_from(
                                        s@,
                                        mm,
                                        ignore,
                                        e as int,
                                    ));
                                }
                                push_all(&mut out, &verbatim);
                                i = e;
                            } else {
                                proof {
                                    assert(name@ == s@.subrange(i + 1, e as int));
                                }
                                return Err(SubstFailure::Unknown(name));
                            }
                        },
                    }
                }
            }
        } else {
            proof {
                assert(subst_from(s@, mm, ignore, i as int) == res_concat(
                    seq![s@[i as int]],
                    subst_from(s@, mm, ignore, i + 1),
                ));
                lemma_res_concat_assoc(out@, seq![s@[i as int]], subst_from(
                    s@,
                    mm,
                    ignore,
                    i + 1,
                ));
            }
            let ghost out_before = out@;
            out.push(c);
            proof {
                assert(out@ =~= out_before + seq![s@[i as int]]);
            }
            i = i + 1;
        }
    }
    proof {
        assert(out@ + Seq::<char>::empty() =~= out@);
    }
    Ok(out)
}

/// Whether a backslash may escape `c`.
fn is_escapable_exec(c: char) -> (r: bool)
    ensures
        r == is_escapable(c),
{
    c == '\\' || c == '$' || c == '{' || c == '}' || c == ':'
}

/// One substitution pass over a string.
pub fn substitute(s: &String, m: &Vec<(String, String)>, ignore: bool) -> (r: Result<
    String,
    SubstFailure,
>)
    ensures
        r matches Ok(v) ==> subst_pass(s@, smap_of(m@), ignore) == Ok::<Seq<char>, SubstErr>(v@),
        r matches Err(e) ==> subst_pass(s@, smap_of(m@), ignore) == Err::<Seq<char>, SubstErr>(
            e@,
        ),
{
    let cs = crate::chars::string_to_chars(s);
    match substitute_chars(&cs, m, ignore) {
        Ok(v) => Ok(crate::chars::chars_to_string(&v)),
        Err(e) => Err(e),
    }
}

/// The description `describe` gives for each failure.
pub open spec fn subst_err_text(e: SubstErr) -> Seq<char> {
    match e {
        SubstErr::InvalidEscape => "invalid escape sequence"@,
        SubstErr::MissingVariableName => "missing variable name"@,
        SubstErr::BadBrace => "missing closing brace after variable name"@,
        SubstErr::Unknown(n) => "no such variable: "@ + n,
    }
}

impl SubstFailure {
    /// A short description, with the offending name where there is
    /// one.
    pub fn describe(&self) -> (r: String)
        ensures
            r@ == subst_err_text(self@),
    {
        match self {
            SubstFailure::InvalidEscape => String::from_str("invalid escape sequence"),
            SubstFailure::MissingVariableName => String::from_str("missing variable name"),
            SubstFailure::BadBrace => String::from_str(
                "missing closing brace after variable name",
            ),
            SubstFailure::Unknown(n) => String::from_str("no such variable: ").concat(n.as_str()),
        }
    }
}

} // verus!
