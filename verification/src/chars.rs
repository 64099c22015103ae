//! Conversions between `String` and the engine's working form of text,
//! a vector of characters.

use vstd::prelude::*;

verus! {

/// The characters of a string slice, in order.
pub fn str_to_chars(s: &str) -> (r: Vec<char>)
    ensures
        r@ == s@,
{
    let n = s.unicode_len();
    let mut r: Vec<char> = Vec::new();
    let mut i: usize = 0;
    while i < n
        invariant
            n == s@.len(),
            i <= n,
            r@ == s@.take(i as int),
        decreases n - i,
    {
        r.push(s.get_char(i));
        proof {
            assert(s@.take(i + 1) =~= s@.take(i as int).push(s@[i as int]));
        }
        i = i + 1;
    }
    proof {
        assert(s@.take(n as int) =~= s@);
    }
    r
}

/// The characters of a string, in order.
pub fn string_to_chars(s: &String) -> (r: Vec<char>)
    ensures
        r@ == s@,
{
    str_to_chars(s.as_str())
}

/// Relies on `String`'s `FromIterator<char>` implementation: collecting
/// an iterator over characters yields the string of exactly those
/// characters, in order.
#[verifier::external_body]
pub fn chars_to_string(v: &Vec<char>) -> (r: String)
    ensures
        r@ == v@,
{
    v.iter().collect()
}

/// The views of a list of strings.
pub open spec fn strs_view(s: Seq<String>) -> Seq<Seq<char>>
    decreases s.len(),
{
    if s.len() == 0 {
        Seq::empty()
    } else {
        strs_view(s.drop_last()).push(s.last()@)
    }
}

/// `strs_view` keeps the length.
pub broadcast proof fn lemma_strs_view_len(s: Seq<String>)
    ensures
        #[trigger] strs_view(s).len() == s.len(),
    decreases s.len(),
{
    if s.len() > 0 {
        lemma_strs_view_len(s.drop_last());
    }
}

/// `strs_view` maps each string to its view.
pub broadcast proof fn lemma_strs_view_index(s: Seq<String>, i: int)
    requires
        0 <= i < s.len(),
    ensures
        #[trigger] strs_view(s)[i] == s[i]@,
    decreases s.len(),
{
    lemma_strs_view_len(s);
    lemma_strs_view_len(s.drop_last());
    if i < s.len() - 1 {
        lemma_strs_view_index(s.drop_last(), i);
        assert(s.drop_last()[i] == s[i]);
    }
}

} // verus!
