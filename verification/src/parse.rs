//! The JSON reader.
//!
//! The grammar is the engine's own textual JSON: values `null`,
//! `true`, `false`, integers (64-bit signed, no fraction or exponent),
//! strings with the short escapes and `\uXXXX` for characters of the
//! basic plane (surrogate pairs are not accepted), arrays and objects;
//! whitespace may stand between tokens.  The reader answers `None` for
//! any text outside this grammar; the engine then treats that text as
//! a plain string.
//!
//! Every position that a sub-parser hands back is clamped into range
//! before parsing goes on.  The clamps are a formality for the
//! termination checker: a sub-parser never yields a position outside
//! them.

use vstd::prelude::*;

use crate::json::JsonValue;
use crate::json::JsonView;

verus! {

/// `x`, forced into the range from `lo` to `hi`.
pub open spec fn clamp_pos(lo: int, x: int, hi: int) -> int {
    if x < lo {
        lo
    } else if x > hi {
        hi
    } else {
        x
    }
}

/// JSON whitespace.
pub open spec fn is_ws(c: char) -> bool {
    c == ' ' || c == '\t' || c == '\n' || c == '\r'
}

/// The position right after the whitespace run that starts at `i`.
pub open spec fn ws_end(s: Seq<char>, i: int) -> int
    decreases s.len() - i,
{
    if i < 0 || i >= s.len() || !is_ws(s[i]) {
        i
    } else {
        ws_end(s, i + 1)
    }
}

/// `ws_end` stays between its start and the length.
pub broadcast proof fn lemma_ws_end_bounds(s: Seq<char>, i: int)
    requires
        0 <= i <= s.len(),
    ensures
        i <= #[trigger] ws_end(s, i) <= s.len(),
    decreases s.len() - i,
{
    if i < s.len() && is_ws(s[i]) {
        lemma_ws_end_bounds(s, i + 1);
    }
}

/// A decimal digit.
pub open spec fn is_digit(c: char) -> bool {
    48 <= c as u32 && c as u32 <= 57
}

/// The value of a decimal digit.
pub open spec fn digit_val(c: char) -> int {
    c as u32 - 48
}

/// The position right after the digit run that starts at `i`.
pub open spec fn digit_run_end(s: Seq<char>, i: int) -> int
    decreases s.len() - i,
{
    if i < 0 || i >= s.len() || !is_digit(s[i]) {
        i
    } else {
        digit_run_end(s, i + 1)
    }
}

/// `digit_run_end` stays between its start and the length.
pub broadcast proof fn lemma_digit_run_end_bounds(s: Seq<char>, i: int)
    requires
        0 <= i <= s.len(),
    ensures
        i <= #[trigger] digit_run_end(s, i) <= s.len(),
    decreases s.len() - i,
{
    if i < s.len() && is_digit(s[i]) {
        lemma_digit_run_end_bounds(s, i + 1);
    }
}

/// The number written by the digits from `from` to `to`.
pub open spec fn digits_val(s: Seq<char>, from: int, to: int) -> int
    decreases to - from,
{
    if to <= from {
        0
    } else {
        digits_val(s, from, to - 1) * 10 + digit_val(s[to - 1])
    }
}

/// Ten to the `n`th.
pub open spec fn pow10(n: nat) -> int
    decreases n,
{
    if n == 0 {
        1
    } else {
        10 * pow10((n - 1) as nat)
    }
}

/// A digit run's value is nonnegative and below ten to its length.
pub proof fn lemma_digits_val_bound(s: Seq<char>, from: int, to: int)
    requires
        from <= to,
        forall|j: int| from <= j < to ==> is_digit(#[trigger] s[j]),
    ensures
        0 <= digits_val(s, from, to) < pow10((to - from) as nat),
    decreases to - from,
{
    if to > from {
        lemma_digits_val_bound(s, from, to - 1);
        assert(0 <= digit_val(s[to - 1]) <= 9);
        assert(pow10((to - from) as nat) == 10 * pow10((to - 1 - from) as nat));
    }
}

/// A hexadecimal digit.
pub open spec fn is_hex(c: char) -> bool {
    is_digit(c) || (97 <= c as u32 && c as u32 <= 102) || (65 <= c as u32 && c as u32 <= 70)
}

/// The value of a hexadecimal digit.
pub open spec fn hex_val(c: char) -> int {
    if is_digit(c) {
        c as u32 - 48
    } else if 97 <= c as u32 && c as u32 <= 102 {
        c as u32 - 87
    } else {
        c as u32 - 55
    }
}

/// The character with scalar value `v`.
pub open spec fn char_of_u32(v: u32) -> char {
    v as char
}

/// What a short escape stands for, if the character may follow a
/// backslash.
pub open spec fn unescaped(c: char) -> Option<char> {
    if c == '"' {
        Some('"')
    } else if c == '\\' {
        Some('\\')
    } else if c == '/' {
        Some('/')
    } else if c == 'b' {
        Some('\u{08}')
    } else if c == 'f' {
        Some('\u{0C}')
    } else if c == 'n' {
        Some('\n')
    } else if c == 'r' {
        Some('\r')
    } else if c == 't' {
        Some('\t')
    } else {
        None
    }
}

/// The rest of a string literal from `i` on (the opening quote already
/// read): the characters up to the closing quote, and the position
/// after it.
pub open spec fn parse_string_body(s: Seq<char>, i: int) -> Option<(Seq<char>, int)>
    decreases s.len() - i, 0int,
{
    if !(0 <= i < s.len()) {
        None
    } else if s[i] == '"' {
        Some((Seq::empty(), i + 1))
    } else if s[i] == '\\' {
        if i + 1 >= s.len() {
            None
        } else if s[i + 1] == 'u' {
            if i + 5 < s.len() && is_hex(s[i + 2]) && is_hex(s[i + 3]) && is_hex(s[i + 4])
                && is_hex(s[i + 5]) {
                let v = hex_val(s[i + 2]) * 4096 + hex_val(s[i + 3]) * 256 + hex_val(s[i + 4])
                    * 16 + hex_val(s[i + 5]);
                if 0xD800 <= v < 0xE000 {
                    None
                } else {
                    match parse_string_body(s, i + 6) {
                        Some((t, j)) => Some((seq![char_of_u32(v as u32)] + t, j)),
                        None => None,
                    }
                }
            } else {
                None
            }
        } else {
            match unescaped(s[i + 1]) {
                Some(d) => match parse_string_body(s, i + 2) {
                    Some((t, j)) => Some((seq![d] + t, j)),
                    None => None,
                },
                None => None,
            }
        }
    } else if (s[i] as u32) < 0x20 {
        None
    } else {
        match parse_string_body(s, i + 1) {
            Some((t, j)) => Some((seq![s[i]] + t, j)),
            None => None,
        }
    }
}

/// A value starting exactly at `i` (no leading whitespace), and the
/// position after it.
pub open spec fn parse_value(s: Seq<char>, i: int) -> Option<(JsonView, int)>
    decreases s.len() - i, 1int,
{
    if !(0 <= i < s.len()) {
        None
    } else if s[i] == 'n' {
        if i + 3 < s.len() && s[i + 1] == 'u' && s[i + 2] == 'l' && s[i + 3] == 'l' {
            Some((JsonView::Null, i + 4))
        } else {
            None
        }
    } else if s[i] == 't' {
        if i + 3 < s.len() && s[i + 1] == 'r' && s[i + 2] == 'u' && s[i + 3] == 'e' {
            Some((JsonView::Bool(true), i + 4))
        } else {
            None
        }
    } else if s[i] == 'f' {
        if i + 4 < s.len() && s[i + 1] == 'a' && s[i + 2] == 'l' && s[i + 3] == 's' && s[i + 4]
            == 'e' {
            Some((JsonView::Bool(false), i + 5))
        } else {
            None
        }
    } else if s[i] == '"' {
        match parse_string_body(s, i + 1) {
            Some((t, j)) => Some((JsonView::Str(t), j)),
            None => None,
        }
    } else if s[i] == '[' {
        let j = clamp_pos(i + 1, ws_end(s, i + 1), s.len() as int);
        if j < s.len() && s[j] == ']' {
            Some((JsonView::Arr(Seq::empty()), j + 1))
        } else {
            match parse_elems(s, j) {
                Some((vs, k)) => Some((JsonView::Arr(vs), k)),
                None => None,
            }
        }
    } else if s[i] == '{' {
        let j = clamp_pos(i + 1, ws_end(s, i + 1), s.len() as int);
        if j < s.len() && s[j] == '}' {
            Some((JsonView::Obj(Seq::empty()), j + 1))
        } else {
            match parse_members(s, j) {
                Some((ms, k)) => Some((JsonView::Obj(ms), k)),
                None => None,
            }
        }
    } else if s[i] == '-' || is_digit(s[i]) {
        let neg = s[i] == '-';
        let start = if neg {
            i + 1
        } else {
            i
        };
        let d = clamp_pos(start, digit_run_end(s, start), s.len() as int);
        if d == start {
            None
        } else if s[start] == '0' && d > start + 1 {
            None
        } else if d - start > 19 {
            None
        } else {
            let val = if neg {
                -digits_val(s, start, d)
            } else {
                digits_val(s, start, d)
            };
            if val < -0x8000_0000_0000_0000 || val > 0x7FFF_FFFF_FFFF_FFFF {
                None
            } else {
                Some((JsonView::Int(val), d))
            }
        }
    } else {
        None
    }
}

/// The members of an array from the first value at `i` on, and the
/// position after the closing bracket.
pub open spec fn parse_elems(s: Seq<char>, i: int) -> Option<(Seq<JsonView>, int)>
    decreases s.len() - i, 2int,
{
    match parse_value(s, i) {
        None => None,
        Some((v, j0)) => {
            let j = clamp_pos(i + 1, j0, s.len() as int);
            let k = clamp_pos(j, ws_end(s, j), s.len() as int);
            if k < s.len() && s[k] == ',' {
                let nxt = clamp_pos(k + 1, ws_end(s, k + 1), s.len() as int);
                match parse_elems(s, nxt) {
                    Some((vs, m)) => Some((seq![v] + vs, m)),
                    None => None,
                }
            } else if k < s.len() && s[k] == ']' {
                Some((seq![v], k + 1))
            } else {
                None
            }
        },
    }
}

/// The entries of an object from the first key at `i` on, and the
/// position after the closing brace.
pub open spec fn parse_members(s: Seq<char>, i: int) -> Option<
    (Seq<(Seq<char>, JsonView)>, int),
>
    decreases s.len() - i, 2int,
{
    if !(0 <= i < s.len()) || s[i] != '"' {
        None
    } else {
        match parse_string_body(s, i + 1) {
            None => None,
            Some((key, j0)) => {
                let j = clamp_pos(i + 2, j0, s.len() as int);
                let c = clamp_pos(j, ws_end(s, j), s.len() as int);
                if c < s.len() && s[c] == ':' {
                    let vp = clamp_pos(c + 1, ws_end(s, c + 1), s.len() as int);
                    match parse_value(s, vp) {
                        None => None,
                        Some((v, k0)) => {
                            let k = clamp_pos(vp + 1, k0, s.len() as int);
                            let e = clamp_pos(k, ws_end(s, k), s.len() as int);
                            if e < s.len() && s[e] == ',' {
                                let nxt = clamp_pos(e + 1, ws_end(s, e + 1), s.len() as int);
                                match parse_members(s, nxt) {
                                    Some((ms, m)) => Some((seq![(key, v)] + ms, m)),
                                    None => None,
                                }
                            } else if e < s.len() && s[e] == '}' {
                                Some((seq![(key, v)], e + 1))
                            } else {
                                None
                            }
                        },
                    }
                } else {
                    None
                }
            },
        }
    }
}

/// The value written by the whole of `s`, allowing whitespace around
/// it, or nothing when `s` is not a text of the grammar.
pub open spec fn parse_json_spec(s: Seq<char>) -> Option<JsonView> {
    let i = clamp_pos(0, ws_end(s, 0), s.len() as int);
    match parse_value(s, i) {
        Some((v, j0)) => {
            let j = clamp_pos(j0, ws_end(s, j0), s.len() as int);
            if j == s.len() {
                Some(v)
            } else {
                None
            }
        },
        None => None,
    }
}

/// Every character of a digit run is a digit.
pub proof fn lemma_digit_run_chars(s: Seq<char>, i: int)
    requires
        0 <= i <= s.len(),
    ensures
        forall|j: int| i <= j < digit_run_end(s, i) ==> is_digit(#[trigger] s[j]),
    decreases s.len() - i,
{
    lemma_digit_run_end_bounds(s, i);
    if i < s.len() && is_digit(s[i]) {
        lemma_digit_run_chars(s, i + 1);
    }
}

/// Relies on `char::from_u32`: it answers a character exactly for the
/// valid scalar values, and the character converts back to the given
/// number.
#[verifier::external_body]
fn char_from_u32(x: u32) -> (r: Option<char>)
    ensures
        r matches Some(c) ==> c == x as char && c as u32 == x,
        (r is Some) == (x < 0xD800 || (0xE000 <= x && x <= 0x10FFFF)),
{
    char::from_u32(x)
}

/// The position right after the whitespace run starting at `start`.
fn skip_ws(s: &Vec<char>, start: usize) -> (e: usize)
    requires
        start <= s@.len(),
    ensures
        e == ws_end(s@, start as int),
        start <= e <= s@.len(),
{
    let n = s.len();
    let mut j = start;
    while j < n && (s[j] == ' ' || s[j] == '\t' || s[j] == '\n' || s[j] == '\r')
        invariant
            start <= j <= n,
            n == s@.len(),
            ws_end(s@, start as int) == ws_end(s@, j as int),
        decreases n - j,
    {
        j = j + 1;
    }
    j
}

/// A decimal digit.
fn is_digit_exec(c: char) -> (r: bool)
    ensures
        r == is_digit(c),
{
    let u = c as u32;
    48 <= u && u <= 57
}

/// The position right after the digit run starting at `start`.
fn scan_digits(s: &Vec<char>, start: usize) -> (e: usize)
    requires
        start <= s@.len(),
    ensures
        e == digit_run_end(s@, start as int),
        start <= e <= s@.len(),
{
    let n = s.len();
    let mut j = start;
    while j < n && is_digit_exec(s[j])
        invariant
            start <= j <= n,
            n == s@.len(),
            digit_run_end(s@, start as int) == digit_run_end(s@, j as int),
        decreases n - j,
    {
        j = j + 1;
    }
    j
}

/// The value of a hexadecimal digit.
fn hex_val_exec(c: char) -> (r: u32)
    requires
        is_hex(c),
    ensures
        r == hex_val(c),
{
    let u = c as u32;
    if u >= 97 {
        u - 87
    } else if u >= 65 {
        u - 55
    } else {
        u - 48
    }
}

/// The rest of a string literal from `i` on.
fn p_string_body(s: &Vec<char>, i: usize) -> (r: Option<(Vec<char>, usize)>)
    requires
        i <= s@.len(),
    ensures
        r matches Some(p) ==> parse_string_body(s@, i as int) == Some((p.0@, p.1 as int)) && i
            < p.1 <= s@.len(),
        r is None ==> parse_string_body(s@, i as int) is None,
    decreases s@.len() - i, 0int,
{
    let n = s.len();
    if i >= n {
        return None;
    }
    let c = s[i];
    if c == '"' {
        let empty: Vec<char> = Vec::new();
        return Some((empty, i + 1));
    }
    if c == '\\' {
        if i + 1 >= n {
            return None;
        }
        let d = s[i + 1];
        if d == 'u' {
            if n - i > 5 && is_hex_exec(s[i + 2]) && is_hex_exec(s[i + 3]) && is_hex_exec(
                s[i + 4],
            ) && is_hex_exec(s[i + 5]) {
                let v: u32 = hex_val_exec(s[i + 2]) * 4096 + hex_val_exec(s[i + 3]) * 256
                    + hex_val_exec(s[i + 4]) * 16 + hex_val_exec(s[i + 5]);
                if 0xD800 <= v && v < 0xE000 {
                    return None;
                }
                match char_from_u32(v) {
                    Some(ch) => {
                        proof {
                            assert(ch == char_of_u32(v));
                        }
                        match p_string_body(s, i + 6) {
                            Some(p) => {
                                let (mut t, j) = p;
                                t.insert(0, ch);
                                proof {
                                    assert(t@ =~= seq![char_of_u32(v)]
                                        + parse_string_body(s@, i + 6)->Some_0.0);
                                }
                                return Some((t, j));
                            },
                            None => {
                                return None;
                            },
                        }
                    },
                    None => {
                        proof {
                            assert(v <= 0xFFFF);
                        }
                        return None;
                    },
                }
            } else {
                return None;
            }
        }
        let ec: Option<char> = if d == '"' {
            Some('"')
        } else if d == '\\' {
            Some('\\')
        } else if d == '/' {
            Some('/')
        } else if d == 'b' {
            Some('\u{08}')
        } else if d == 'f' {
            Some('\u{0C}')
        } else if d == 'n' {
            Some('\n')
        } else if d == 'r' {
            Some('\r')
        } else if d == 't' {
            Some('\t')
        } else {
            None
        };
        proof {
            assert(ec == unescaped(s@[i + 1]));
        }
        match ec {
            Some(u) => {
                match p_string_body(s, i + 2) {
                    Some(p) => {
                        let (mut t, j) = p;
                        t.insert(0, u);
                        proof {
                            assert(t@ =~= seq![u] + parse_string_body(s@, i + 2)->Some_0.0);
                        }
                        return Some((t, j));
                    },
                    None => {
                        return None;
                    },
                }
            },
            None => {
                return None;
            },
        }
    }
    if (c as u32) < 0x20 {
        return None;
    }
    match p_string_body(s, i + 1) {
        Some(p) => {
            let (mut t, j) = p;
            t.insert(0, c);
            proof {
                assert(t@ =~= seq![s@[i as int]] + parse_string_body(s@, i + 1)->Some_0.0);
            }
            Some((t, j))
        },
        None => None,
    }
}

/// A hexadecimal digit.
fn is_hex_exec(c: char) -> (r: bool)
    ensures
        r == is_hex(c),
{
    let u = c as u32;
    (48 <= u && u <= 57) || (97 <= u && u <= 102) || (65 <= u && u <= 70)
}

/// A value starting exactly at `i`.
#[verifier::rlimit(100)]
fn p_value(s: &Vec<char>, i: usize) -> (r: Option<(JsonValue, usize)>)
    requires
        i <= s@.len(),
    ensures
        r matches Some(p) ==> parse_value(s@, i as int) == Some((p.0@, p.1 as int)) && i < p.1
            <= s@.len(),
        r is None ==> parse_value(s@, i as int) is None,
    decreases s@.len() - i, 1int,
{
    broadcast use {lemma_ws_end_bounds, lemma_digit_run_end_bounds};

    let n = s.len();
    if i >= n {
        return None;
    }
    let c = s[i];
    if c == 'n' {
        if n - i > 3 && s[i + 1] == 'u' && s[i + 2] == 'l' && s[i + 3] == 'l' {
            return Some((JsonValue::Null, i + 4));
        }
        return None;
    }
    if c == 't' {
        if n - i > 3 && s[i + 1] == 'r' && s[i + 2] == 'u' && s[i + 3] == 'e' {
            return Some((JsonValue::Bool(true), i + 4));
        }
        return None;
    }
    if c == 'f' {
        if n - i > 4 && s[i + 1] == 'a' && s[i + 2] == 'l' && s[i + 3] == 's' && s[i + 4] == 'e' {
            return Some((JsonValue::Bool(false), i + 5));
        }
        return None;
    }
    if c == '"' {
        match p_string_body(s, i + 1) {
            Some(p) => {
                let (t, j) = p;
                let st = crate::chars::chars_to_string(&t);
                return Some((JsonValue::Str(st), j));
            },
            None => {
                return None;
            },
        }
    }
    if c == '[' {
        let j = skip_ws(s, i + 1);
        if j < n && s[j] == ']' {
            let empty: Vec<JsonValue> = Vec::new();
            let v = JsonValue::Arr(empty);
            proof {
                assert(v@ == JsonView::Arr(Seq::<JsonView>::empty())) by {
                    assert(crate::json::arr_view(Seq::<JsonValue>::empty())
                        =~= Seq::<JsonView>::empty());
                }
            }
            return Some((v, j + 1));
        }
        match p_elems(s, j) {
            Some(p) => {
                let (vs, k) = p;
                let v = JsonValue::Arr(vs);
                return Some((v, k));
            },
            None => {
                return None;
            },
        }
    }
    if c == '{' {
        let j = skip_ws(s, i + 1);
        if j < n && s[j] == '}' {
            let empty: Vec<(String, JsonValue)> = Vec::new();
            let v = JsonValue::Obj(empty);
            proof {
                assert(v@ == JsonView::Obj(Seq::<(Seq<char>, JsonView)>::empty())) by {
                    assert(crate::json::obj_view(Seq::<(String, JsonValue)>::empty())
                        =~= Seq::<(Seq<char>, JsonView)>::empty());
                }
            }
            return Some((v, j + 1));
        }
        match p_members(s, j) {
            Some(p) => {
                let (ms, k) = p;
                let v = JsonValue::Obj(ms);
                return Some((v, k));
            },
            None => {
                return None;
            },
        }
    }
    if c == '-' || is_digit_exec(c) {
        let neg = c == '-';
        let start = if neg {
            i + 1
        } else {
            i
        };
        if start > n {
            return None;
        }
        let d = scan_digits(s, start);
        if d == start {
            return None;
        }
        if s[start] == '0' && d > start + 1 {
            return None;
        }
        if d - start > 19 {
            return None;
        }
        proof {
            lemma_digit_run_chars(s@, start as int);
            lemma_digits_val_bound(s@, start as int, d as int);
            assert(pow10(19) == 10_000_000_000_000_000_000) by {
                reveal_with_fuel(pow10, 21);
            }
            lemma_pow10_mono((d - start) as nat, 19);
        }
        let mut acc: u64 = 0;
        let mut j = start;
        while j < d
            invariant
                start <= j <= d <= s@.len(),
                d == digit_run_end(s@, start as int),
                d - start <= 19,
                forall|q: int| start <= q < d ==> is_digit(#[trigger] s@[q]),
                acc == digits_val(s@, start as int, j as int),
                acc < pow10((j - start) as nat),
            decreases d - j,
        {
            proof {
                lemma_pow10_mono((j - start) as nat, 18);
                assert(pow10(18) == 1_000_000_000_000_000_000) by {
                    reveal_with_fuel(pow10, 20);
                }
            }
            let dv: u64 = (s[j] as u32 - 48) as u64;
            acc = acc * 10 + dv;
            j = j + 1;
        }
        if neg {
            if acc > 9_223_372_036_854_775_808u64 {
                return None;
            }
            let val: i64 = if acc == 9_223_372_036_854_775_808u64 {
                i64::MIN
            } else {
                -(acc as i64)
            };
            return Some((JsonValue::Int(val), d));
        } else {
            if acc > 9_223_372_036_854_775_807u64 {
                return None;
            }
            return Some((JsonValue::Int(acc as i64), d));
        }
    }
    None
}

/// Ten to a smaller power is no more than ten to a larger one.
proof fn lemma_pow10_mono(a: nat, b: nat)
    requires
        a <= b,
    ensures
        pow10(a) <= pow10(b),
    decreases b,
{
    if a < b {
        lemma_pow10_mono(a, (b - 1) as nat);
        assert(pow10(b) == 10 * pow10((b - 1) as nat));
        assert(pow10((b - 1) as nat) >= 1) by {
            lemma_pow10_pos((b - 1) as nat);
        }
    }
}

/// Ten to any power is positive.
proof fn lemma_pow10_pos(n: nat)
    ensures
        pow10(n) >= 1,
    decreases n,
{
    if n > 0 {
        lemma_pow10_pos((n - 1) as nat);
    }
}

/// The members of an array from the first value at `i` on.
fn p_elems(s: &Vec<char>, i: usize) -> (r: Option<(Vec<JsonValue>, usize)>)
    requires
        i <= s@.len(),
    ensures
        r matches Some(p) ==> parse_elems(s@, i as int) == Some((crate::json::arr_view(p.0@),
            p.1 as int)) && i < p.1 <= s@.len(),
        r is None ==> parse_elems(s@, i as int) is None,
    decreases s@.len() - i, 2int,
{
    broadcast use {lemma_ws_end_bounds, crate::json::group_json_view_lemmas};

    let n = s.len();
    match p_value(s, i) {
        None => None,
        Some(p) => {
            let (v, j) = p;
            let k = skip_ws(s, j);
            if k < n && s[k] == ',' {
                let nxt = skip_ws(s, k + 1);
                match p_elems(s, nxt) {
                    Some(q) => {
                        let (mut vs, m) = q;
                        let ghost rest = crate::json::arr_view(vs@);
                        vs.insert(0, v);
                        proof {
                            assert(crate::json::arr_view(vs@) =~= seq![v@] + rest);
                        }
                        Some((vs, m))
                    },
                    None => None,
                }
            } else if k < n && s[k] == ']' {
                let mut vs: Vec<JsonValue> = Vec::new();
                vs.push(v);
                proof {
                    assert(crate::json::arr_view(vs@) =~= seq![v@]);
                }
                Some((vs, k + 1))
            } else {
                None
            }
        },
    }
}

/// The entries of an object from the first key at `i` on.
fn p_members(s: &Vec<char>, i: usize) -> (r: Option<(Vec<(String, JsonValue)>, usize)>)
    requires
        i <= s@.len(),
    ensures
        r matches Some(p) ==> parse_members(s@, i as int) == Some((crate::json::obj_view(p.0@),
            p.1 as int)) && i < p.1 <= s@.len(),
        r is None ==> parse_members(s@, i as int) is None,
    decreases s@.len() - i, 2int,
{
    broadcast use {lemma_ws_end_bounds, crate::json::group_json_view_lemmas};

    let n = s.len();
    if i >= n || !(s[i] == '"') {
        return None;
    }
    match p_string_body(s, i + 1) {
        None => None,
        Some(p) => {
            let (kc, j) = p;
            let key = crate::chars::chars_to_string(&kc);
            let c = skip_ws(s, j);
            if c < n && s[c] == ':' {
                let vp = skip_ws(s, c + 1);
                match p_value(s, vp) {
                    None => None,
                    Some(q) => {
                        let (v, k) = q;
                        let e = skip_ws(s, k);
                        if e < n && s[e] == ',' {
                            let nxt = skip_ws(s, e + 1);
                            match p_members(s, nxt) {
                                Some(w) => {
                                    let (mut ms, m) = w;
                                    let ghost rest = crate::json::obj_view(ms@);
                                    ms.insert(0, (key, v));
                                    proof {
                                        assert(crate::json::obj_view(ms@) =~= seq![
                                            (key@, v@),
                                        ] + rest);
                                    }
                                    Some((ms, m))
                                },
                                None => None,
                            }
                        } else if e < n && s[e] == '}' {
                            let mut ms: Vec<(String, JsonValue)> = Vec::new();
                            ms.push((key, v));
                            proof {
                                assert(crate::json::obj_view(ms@) =~= seq![(key@, v@)]);
                            }
                            Some((ms, e + 1))
                        } else {
                            None
                        }
                    },
                }
            } else {
                None
            }
        },
    }
}

/// The value written by `s`, or nothing when `s` is not a text of the
/// grammar.
pub fn parse_json_chars(s: &Vec<char>) -> (r: Option<JsonValue>)
    ensures
        r matches Some(v) ==> parse_json_spec(s@) == Some(v@),
        r is None ==> parse_json_spec(s@) is None,
{
    broadcast use lemma_ws_end_bounds;

    let n = s.len();
    let i = skip_ws(s, 0);
    match p_value(s, i) {
        Some(p) => {
            let (v, j) = p;
            let k = skip_ws(s, j);
            if k == n {
                Some(v)
            } else {
                None
            }
        },
        None => None,
    }
}

/// The value written by `s`, or nothing when `s` is not a text of the
/// grammar.
pub fn parse_json(s: &String) -> (r: Option<JsonValue>)
    ensures
        r matches Some(v) ==> parse_json_spec(s@) == Some(v@),
        r is None ==> parse_json_spec(s@) is None,
{
    let cs = crate::chars::string_to_chars(s);
    parse_json_chars(&cs)
}

} // verus!
