//! The JSON value model.
//!
//! Environment entries, command contents and HTTP bodies are all JSON
//! values.  The engine works on its own value type: numbers are signed
//! 64-bit integers (the engine never computes with fractions), strings
//! are Unicode, and objects keep their entries in insertion order.

use vstd::prelude::*;

verus! {

broadcast use vstd::std_specs::vec::group_vec_axioms;


/// Mathematical model of a JSON value, used by every contract.
pub enum JsonView {
    Null,
    Bool(bool),
    Int(int),
    Str(Seq<char>),
    Arr(Seq<JsonView>),
    Obj(Seq<(Seq<char>, JsonView)>),
}

/// A JSON value as the engine stores it.
///
/// Object entries are an ordered list of key/value pairs; the order is
/// the order in which the document or the engine produced them.
#[derive(Debug, PartialEq)]
pub enum JsonValue {
    Null,
    Bool(bool),
    Int(i64),
    Str(String),
    Arr(Vec<JsonValue>),
    Obj(Vec<(String, JsonValue)>),
}

impl View for JsonValue {
    type V = JsonView;

    open spec fn view(&self) -> JsonView
        decreases self,
    {
        match self {
            JsonValue::Null => JsonView::Null,
            JsonValue::Bool(b) => JsonView::Bool(*b),
            JsonValue::Int(i) => JsonView::Int(*i as int),
            JsonValue::Str(s) => JsonView::Str(s@),
            JsonValue::Arr(a) => JsonView::Arr(arr_view(a@)),
            JsonValue::Obj(o) => JsonView::Obj(obj_view(o@)),
        }
    }
}

/// The views of the members of an array, in order.
pub open spec fn arr_view(s: Seq<JsonValue>) -> Seq<JsonView>
    decreases s,
{
    if s.len() == 0 {
        Seq::empty()
    } else {
        arr_view(s.drop_last()).push(s.last()@)
    }
}

/// The views of the entries of an object, in order.
pub open spec fn obj_view(s: Seq<(String, JsonValue)>) -> Seq<(Seq<char>, JsonView)>
    decreases s,
{
    if s.len() == 0 {
        Seq::empty()
    } else {
        obj_view(s.drop_last()).push((s.last().0@, s.last().1@))
    }
}

/// `arr_view` keeps the length.
pub broadcast proof fn lemma_arr_view_len(s: Seq<JsonValue>)
    ensures
        #[trigger] arr_view(s).len() == s.len(),
    decreases s.len(),
{
    if s.len() == 0 {
        assert(arr_view(s) == Seq::<JsonView>::empty());
    } else {
        lemma_arr_view_len(s.drop_last());
        assert(arr_view(s) == arr_view(s.drop_last()).push(s.last()@));
    }
}

/// `arr_view` maps each member to its view.
pub broadcast proof fn lemma_arr_view_index(s: Seq<JsonValue>, i: int)
    requires
        0 <= i < s.len(),
    ensures
        #[trigger] arr_view(s)[i] == s[i]@,
    decreases s.len(),
{
    lemma_arr_view_len(s);
    lemma_arr_view_len(s.drop_last());
    assert(arr_view(s) == arr_view(s.drop_last()).push(s.last()@));
    if i < s.len() - 1 {
        lemma_arr_view_index(s.drop_last(), i);
        assert(s.drop_last()[i] == s[i]);
    } else {
        assert(s.last() == s[i]);
    }
}

/// `obj_view` keeps the length.
pub broadcast proof fn lemma_obj_view_len(s: Seq<(String, JsonValue)>)
    ensures
        #[trigger] obj_view(s).len() == s.len(),
    decreases s.len(),
{
    if s.len() == 0 {
        assert(obj_view(s) == Seq::<(Seq<char>, JsonView)>::empty());
    } else {
        lemma_obj_view_len(s.drop_last());
        assert(obj_view(s) == obj_view(s.drop_last()).push((s.last().0@, s.last().1@)));
    }
}

/// `obj_view` maps each entry to the views of its key and its value.
pub broadcast proof fn lemma_obj_view_index(s: Seq<(String, JsonValue)>, i: int)
    requires
        0 <= i < s.len(),
    ensures
        #[trigger] obj_view(s)[i] == (s[i].0@, s[i].1@),
    decreases s.len(),
{
    lemma_obj_view_len(s);
    lemma_obj_view_len(s.drop_last());
    assert(obj_view(s) == obj_view(s.drop_last()).push((s.last().0@, s.last().1@)));
    if i < s.len() - 1 {
        lemma_obj_view_index(s.drop_last(), i);
        assert(s.drop_last()[i] == s[i]);
    } else {
        assert(s.last() == s[i]);
    }
}

/// The view lemmas for arrays and objects, used throughout the crate.
pub broadcast group group_json_view_lemmas {
    lemma_arr_view_len,
    lemma_arr_view_index,
    lemma_obj_view_len,
    lemma_obj_view_index,
}


impl JsonValue {
    /// True exactly of string values.
    pub fn is_string(&self) -> (r: bool)
        ensures
            r == (self@ is Str),
    {
        match self {
            JsonValue::Str(_) => true,
            _ => false,
        }
    }
}

/// The character for one decimal digit.
pub open spec fn digit_char(n: nat) -> char {
    if n == 0 {
        '0'
    } else if n == 1 {
        '1'
    } else if n == 2 {
        '2'
    } else if n == 3 {
        '3'
    } else if n == 4 {
        '4'
    } else if n == 5 {
        '5'
    } else if n == 6 {
        '6'
    } else if n == 7 {
        '7'
    } else if n == 8 {
        '8'
    } else {
        '9'
    }
}

/// The decimal digits of a natural number, most significant first.
pub open spec fn dec_digits(n: nat) -> Seq<char>
    decreases n,
{
    if n < 10 {
        seq![digit_char(n)]
    } else {
        dec_digits(n / 10).push(digit_char(n % 10))
    }
}

/// The decimal form of an integer.
pub open spec fn int_text(i: int) -> Seq<char> {
    if i < 0 {
        seq!['-'] + dec_digits((-i) as nat)
    } else {
        dec_digits(i as nat)
    }
}

/// The character for one hexadecimal digit (lower case).
pub open spec fn hex_digit_char(n: nat) -> char {
    if n < 10 {
        digit_char(n)
    } else if n == 10 {
        'a'
    } else if n == 11 {
        'b'
    } else if n == 12 {
        'c'
    } else if n == 13 {
        'd'
    } else if n == 14 {
        'e'
    } else {
        'f'
    }
}

/// How one character appears inside a JSON string literal: quote and
/// backslash get a backslash escape, the common control characters get
/// their short escapes, the remaining control characters a `\u00XX`
/// escape, and everything else stands for itself.
pub open spec fn escaped_char(c: char) -> Seq<char> {
    if c == '"' {
        seq!['\\', '"']
    } else if c == '\\' {
        seq!['\\', '\\']
    } else if c == '\n' {
        seq!['\\', 'n']
    } else if c == '\r' {
        seq!['\\', 'r']
    } else if c == '\t' {
        seq!['\\', 't']
    } else if (c as u32) < 0x20 {
        seq!['\\', 'u', '0', '0'] + seq![
            hex_digit_char(((c as u32) / 16) as nat),
            hex_digit_char(((c as u32) % 16) as nat),
        ]
    } else {
        seq![c]
    }
}

/// A character sequence with every character escaped for a JSON string.
pub open spec fn escaped_str(s: Seq<char>) -> Seq<char>
    decreases s.len(),
{
    if s.len() == 0 {
        Seq::empty()
    } else {
        escaped_str(s.drop_last()) + escaped_char(s.last())
    }
}

/// A JSON string literal: the escaped characters between double quotes.
pub open spec fn string_text(s: Seq<char>) -> Seq<char> {
    seq!['"'] + escaped_str(s) + seq!['"']
}

/// The compact textual form of a JSON value: no spaces, object entries
/// in their stored order, numbers in decimal.
pub open spec fn json_text(v: JsonView) -> Seq<char>
    decreases v,
{
    match v {
        JsonView::Null => seq!['n', 'u', 'l', 'l'],
        JsonView::Bool(b) => if b {
            seq!['t', 'r', 'u', 'e']
        } else {
            seq!['f', 'a', 'l', 's', 'e']
        },
        JsonView::Int(i) => int_text(i),
        JsonView::Str(s) => string_text(s),
        JsonView::Arr(a) => seq!['['] + arr_text(a) + seq![']'],
        JsonView::Obj(o) => seq!['{'] + obj_text(o) + seq!['}'],
    }
}

/// The members of an array in compact form, separated by commas.
pub open spec fn arr_text(a: Seq<JsonView>) -> Seq<char>
    decreases a,
{
    if a.len() == 0 {
        Seq::empty()
    } else if a.len() == 1 {
        json_text(a.last())
    } else {
        arr_text(a.drop_last()) + seq![','] + json_text(a.last())
    }
}

/// The string a value contributes when a plain string is wanted: a
/// string value stands for itself, every other value for its compact
/// JSON text.
pub open spec fn str_form(v: JsonView) -> Seq<char> {
    match v {
        JsonView::Str(s) => s,
        _ => json_text(v),
    }
}

/// The members of an object in compact form, separated by commas.
pub open spec fn obj_text(o: Seq<(Seq<char>, JsonView)>) -> Seq<char>
    decreases o,
{
    if o.len() == 0 {
        Seq::empty()
    } else if o.len() == 1 {
        string_text(o.last().0) + seq![':'] + json_text(o.last().1)
    } else {
        obj_text(o.drop_last()) + seq![','] + string_text(o.last().0) + seq![':'] + json_text(
            o.last().1,
        )
    }
}

/// Extending a prefix of `s` by one character extends its escaped form
/// by that character's escape.
pub proof fn lemma_escaped_str_snoc(s: Seq<char>, i: int)
    requires
        0 <= i < s.len(),
    ensures
        escaped_str(s.take(i + 1)) == escaped_str(s.take(i)) + escaped_char(s[i]),
{
    assert(s.take(i + 1).drop_last() =~= s.take(i));
    assert(s.take(i + 1).last() == s[i]);
}

/// Extending a prefix of `a` by one member extends its compact text by
/// a separating comma (except for the first member) and that member's
/// text.
pub proof fn lemma_arr_text_snoc(a: Seq<JsonView>, i: int)
    requires
        0 <= i < a.len(),
    ensures
        arr_text(a.take(i + 1)) == arr_text(a.take(i)) + (if i == 0 {
            Seq::<char>::empty()
        } else {
            seq![',']
        }) + json_text(a[i]),
{
    assert(a.take(i + 1).drop_last() =~= a.take(i));
    assert(a.take(i + 1).last() == a[i]);
    if i == 0 {
        assert(arr_text(a.take(0)) + Seq::<char>::empty() + json_text(a[0]) =~= json_text(a[0]));
    }
}

/// The object analogue of `lemma_arr_text_snoc`.
pub proof fn lemma_obj_text_snoc(o: Seq<(Seq<char>, JsonView)>, i: int)
    requires
        0 <= i < o.len(),
    ensures
        obj_text(o.take(i + 1)) == obj_text(o.take(i)) + (if i == 0 {
            Seq::<char>::empty()
        } else {
            seq![',']
        }) + string_text(o[i].0) + seq![':'] + json_text(o[i].1),
{
    assert(o.take(i + 1).drop_last() =~= o.take(i));
    assert(o.take(i + 1).last() == o[i]);
    if i == 0 {
        assert(obj_text(o.take(0)) + Seq::<char>::empty() + string_text(o[0].0) =~= string_text(
            o[0].0,
        ));
    }
}

/// One decimal digit as a character.
fn digit_to_char(n: u64) -> (c: char)
    requires
        n < 10,
    ensures
        c == digit_char(n as nat),
{
    match n {
        0 => '0',
        1 => '1',
        2 => '2',
        3 => '3',
        4 => '4',
        5 => '5',
        6 => '6',
        7 => '7',
        8 => '8',
        _ => '9',
    }
}

/// One hexadecimal digit as a character.
fn hex_to_char(n: u32) -> (c: char)
    requires
        n < 16,
    ensures
        c == hex_digit_char(n as nat),
{
    match n {
        0 => '0',
        1 => '1',
        2 => '2',
        3 => '3',
        4 => '4',
        5 => '5',
        6 => '6',
        7 => '7',
        8 => '8',
        9 => '9',
        10 => 'a',
        11 => 'b',
        12 => 'c',
        13 => 'd',
        14 => 'e',
        _ => 'f',
    }
}

/// Appends the decimal digits of `n`.
pub fn write_u64(out: &mut Vec<char>, n: u64)
    ensures
        final (out)@ == old(out)@ + dec_digits(n as nat),
    decreases n,
{
    if n < 10 {
        out.push(digit_to_char(n));
    } else {
        write_u64(out, n / 10);
        out.push(digit_to_char(n % 10));
    }
}

/// Appends the decimal form of `i`, with a leading minus for negative
/// values.
pub fn write_i64(out: &mut Vec<char>, i: i64)
    ensures
        final (out)@ == old(out)@ + int_text(i as int),
{
    if i >= 0 {
        write_u64(out, i as u64);
    } else {
        out.push('-');
        let magnitude: u64 = ((-(i + 1)) as u64) + 1;
        assert(magnitude as nat == (-(i as int)) as nat);
        write_u64(out, magnitude);
    }
}

/// Appends the JSON escape of one character.
fn write_escaped_char(out: &mut Vec<char>, c: char)
    ensures
        final (out)@ == old(out)@ + escaped_char(c),
{
    if c == '"' {
        out.push('\\');
        out.push('"');
    } else if c == '\\' {
        out.push('\\');
        out.push('\\');
    } else if c == '\n' {
        out.push('\\');
        out.push('n');
    } else if c == '\r' {
        out.push('\\');
        out.push('r');
    } else if c == '\t' {
        out.push('\\');
        out.push('t');
    } else if (c as u32) < 0x20 {
        out.push('\\');
        out.push('u');
        out.push('0');
        out.push('0');
        out.push(hex_to_char((c as u32) / 16));
        out.push(hex_to_char((c as u32) % 16));
    } else {
        out.push(c);
    }
}

/// Appends a JSON string literal for `s`.
fn write_string_literal(out: &mut Vec<char>, s: &String)
    ensures
        final (out)@ == old(out)@ + string_text(s@),
{
    out.push('"');
    let cs = crate::chars::string_to_chars(s);
    let ghost base = out@;
    let mut i: usize = 0;
    while i < cs.len()
        invariant
            cs@ == s@,
            i <= cs.len(),
            out@ == base + escaped_str(s@.take(i as int)),
        decreases cs.len() - i,
    {
        write_escaped_char(out, cs[i]);
        proof {
            lemma_escaped_str_snoc(s@, i as int);
        }
        i = i + 1;
    }
    proof {
        assert(s@.take(s@.len() as int) =~= s@);
    }
    out.push('"');
}

/// Appends the compact JSON text of `v`.
#[verifier::loop_isolation(false)]
#[verifier::rlimit(30)]
fn write_json(v: &JsonValue, out: &mut Vec<char>)
    ensures
        final (out)@ == old(out)@ + json_text(v@),
    decreases v,
{
    broadcast use group_json_view_lemmas;

    match v {
        JsonValue::Null => {
            out.push('n');
            out.push('u');
            out.push('l');
            out.push('l');
        },
        JsonValue::Bool(b) => {
            if *b {
                out.push('t');
                out.push('r');
                out.push('u');
                out.push('e');
            } else {
                out.push('f');
                out.push('a');
                out.push('l');
                out.push('s');
                out.push('e');
            }
        },
        JsonValue::Int(i) => {
            write_i64(out, *i);
        },
        JsonValue::Str(s) => {
            write_string_literal(out, s);
        },
        JsonValue::Arr(a) => {
            out.push('[');
            let ghost members = arr_view(a@);
            let ghost base = out@;
            let mut i: usize = 0;
            while i < a.len()
                invariant
                    members.len() == a.len(),
                    forall|j: int| 0 <= j < a.len() ==> members[j] == a@[j]@,
                    i <= a.len(),
                    out@ == base + arr_text(members.take(i as int)),
                decreases a.len() - i,
            {
                if i > 0 {
                    out.push(',');
                }
                proof {
                    assert(decreases_to!(*v => *a));
                    assert(decreases_to!(*a => a@[i as int]));
                }
                write_json(&a[i], out);
                proof {
                    lemma_arr_text_snoc(members, i as int);
                }
                i = i + 1;
            }
            proof {
                assert(members.take(members.len() as int) =~= members);
            }
            out.push(']');
        },
        JsonValue::Obj(o) => {
            out.push('{');
            let ghost members = obj_view(o@);
            let ghost base = out@;
            let mut i: usize = 0;
            while i < o.len()
                invariant
                    members.len() == o.len(),
                    forall|j: int|
                        0 <= j < o.len() ==> members[j] == (o@[j].0@, o@[j].1@),
                    i <= o.len(),
                    out@ == base + obj_text(members.take(i as int)),
                decreases o.len() - i,
            {
                if i > 0 {
                    out.push(',');
                }
                write_string_literal(out, &o[i].0);
                out.push(':');
                proof {
                    assert(decreases_to!(*v => *o));
                    assert(decreases_to!(*o => o@[i as int]));
                    assert(decreases_to!(o@[i as int] => o@[i as int].1));
                }
                write_json(&o[i].1, out);
                proof {
                    lemma_obj_text_snoc(members, i as int);
                }
                i = i + 1;
            }
            proof {
                assert(members.take(members.len() as int) =~= members);
            }
            out.push('}');
        },
    }
}

/// The compact JSON text of `v` as a string.
pub fn to_json_string(v: &JsonValue) -> (r: String)
    ensures
        r@ == json_text(v@),
{
    let mut out: Vec<char> = Vec::new();
    write_json(v, &mut out);
    crate::chars::chars_to_string(&out)
}

impl JsonValue {
    /// A structural copy of the value; the copy has the same view.
    #[verifier::loop_isolation(false)]
    pub fn duplicate(&self) -> (r: JsonValue)
        ensures
            r@ == self@,
        decreases self,
    {
        broadcast use group_json_view_lemmas;

        match self {
            JsonValue::Null => JsonValue::Null,
            JsonValue::Bool(b) => JsonValue::Bool(*b),
            JsonValue::Int(i) => JsonValue::Int(*i),
            JsonValue::Str(s) => JsonValue::Str(s.clone()),
            JsonValue::Arr(a) => {
                let mut out: Vec<JsonValue> = Vec::new();
                let mut i: usize = 0;
                while i < a.len()
                    invariant
                        i <= a.len(),
                        out@.len() == i,
                        forall|j: int| 0 <= j < i ==> out@[j]@ == a@[j]@,
                    decreases a.len() - i,
                {
                    proof {
                        assert(decreases_to!(*self => *a));
                        assert(decreases_to!(*a => a@[i as int]));
                    }
                    out.push(a[i].duplicate());
                    i = i + 1;
                }
                let r = JsonValue::Arr(out);
                proof {
                    assert(arr_view(r->Arr_0@) =~= arr_view(a@));
                }
                r
            },
            JsonValue::Obj(o) => {
                let mut out: Vec<(String, JsonValue)> = Vec::new();
                let mut i: usize = 0;
                while i < o.len()
                    invariant
                        i <= o.len(),
                        out@.len() == i,
                        forall|j: int|
                            0 <= j < i ==> out@[j].0@ == o@[j].0@ && out@[j].1@ == o@[j].1@,
                    decreases o.len() - i,
                {
                    proof {
                        assert(decreases_to!(*self => *o));
                        assert(decreases_to!(*o => o@[i as int]));
                        assert(decreases_to!(o@[i as int] => o@[i as int].1));
                    }
                    out.push((o[i].0.clone(), o[i].1.duplicate()));
                    i = i + 1;
                }
                let r = JsonValue::Obj(out);
                proof {
                    assert(obj_view(r->Obj_0@) =~= obj_view(o@));
                }
                r
            },
        }
    }
}

} // verus!
