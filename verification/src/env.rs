//! The execution environment: an ordered mapping from string keys to
//! JSON values.
//!
//! Insertion order is observable (the env dump command prints entries
//! in order), so the environment is a sequence of key/value pairs.  An
//! insert that hits an existing key updates the value in place and
//! keeps the key's position; a new key is appended at the tail.

use vstd::prelude::*;

use crate::json::obj_view;
use crate::json::str_form;
use crate::json::JsonValue;
use crate::json::JsonView;


verus! {

broadcast use {vstd::std_specs::vec::group_vec_axioms, crate::json::group_json_view_lemmas};

/// The index of the first entry with key `k`, or `-1` when no entry
/// has it.
pub open spec fn env_first_index<V>(e: Seq<(Seq<char>, V)>, k: Seq<char>) -> int
    decreases e.len(),
{
    if e.len() == 0 {
        -1
    } else if e[0].0 == k {
        0
    } else {
        let rest = env_first_index(e.drop_first(), k);
        if rest == -1 {
            -1
        } else {
            rest + 1
        }
    }
}

/// Whether some entry has key `k`.
pub open spec fn env_has<V>(e: Seq<(Seq<char>, V)>, k: Seq<char>) -> bool {
    env_first_index(e, k) >= 0
}

/// The value under key `k`, if any.
pub open spec fn env_get<V>(e: Seq<(Seq<char>, V)>, k: Seq<char>) -> Option<V> {
    if env_has(e, k) {
        Some(e[env_first_index(e, k)].1)
    } else {
        None
    }
}

/// `e` with `v` under `k`: the first entry with key `k` is replaced in
/// place, or a new entry is appended when the key is absent.
pub open spec fn env_upsert<V>(e: Seq<(Seq<char>, V)>, k: Seq<char>, v: V) -> Seq<
    (Seq<char>, V),
> {
    if env_has(e, k) {
        e.update(env_first_index(e, k), (k, v))
    } else {
        e.push((k, v))
    }
}

/// `e` updated by every entry of `f` in order: each entry of `f` wins
/// over `e`, and keys new to `e` are appended in `f`'s order.
pub open spec fn env_extend<V>(e: Seq<(Seq<char>, V)>, f: Seq<(Seq<char>, V)>) -> Seq<
    (Seq<char>, V),
>
    decreases f.len(),
{
    if f.len() == 0 {
        e
    } else {
        env_upsert(env_extend(e, f.drop_last()), f.last().0, f.last().1)
    }
}

/// `e` without its first entry under `k` (unchanged when `k` is
/// absent).
pub open spec fn env_remove<V>(e: Seq<(Seq<char>, V)>, k: Seq<char>) -> Seq<
    (Seq<char>, V),
> {
    if env_has(e, k) {
        e.remove(env_first_index(e, k))
    } else {
        e
    }
}

/// The first index is in range, carries the key, and nothing before it
/// does.
pub broadcast proof fn lemma_env_first_index<V>(e: Seq<(Seq<char>, V)>, k: Seq<char>)
    ensures
        -1 <= #[trigger] env_first_index(e, k) < e.len(),
        env_first_index(e, k) >= 0 ==> e[env_first_index(e, k)].0 == k,
        forall|j: int|
            0 <= j < e.len() && (env_first_index(e, k) == -1 || j < env_first_index(e, k))
                ==> (#[trigger] e[j]).0 != k,
    decreases e.len(),
{
    if e.len() > 0 && e[0].0 != k {
        lemma_env_first_index(e.drop_first(), k);
        assert forall|j: int|
            0 <= j < e.len() && (env_first_index(e, k) == -1 || j < env_first_index(e, k))
                implies (#[trigger] e[j]).0 != k by {
            if j > 0 {
                assert(e.drop_first()[j - 1] == e[j]);
            }
        }
    }
}

/// A scan that found `k` first at `i` found the first index.
pub proof fn lemma_env_first_index_of_scan<V>(e: Seq<(Seq<char>, V)>, k: Seq<char>, i: int)
    requires
        0 <= i < e.len(),
        e[i].0 == k,
        forall|j: int| 0 <= j < i ==> (#[trigger] e[j]).0 != k,
    ensures
        env_first_index(e, k) == i,
{
    lemma_env_first_index(e, k);
}

/// A scan that never found `k` shows the key absent.
pub proof fn lemma_env_not_found_of_scan<V>(e: Seq<(Seq<char>, V)>, k: Seq<char>)
    requires
        forall|j: int| 0 <= j < e.len() ==> (#[trigger] e[j]).0 != k,
    ensures
        env_first_index(e, k) == -1,
{
    lemma_env_first_index(e, k);
}

/// After an upsert the inserted key holds the inserted value.
pub broadcast proof fn lemma_env_get_upsert_same<V>(e: Seq<(Seq<char>, V)>, k: Seq<char>, v: V)
    ensures
        #[trigger] env_get(env_upsert(e, k, v), k) == Some(v),
{
    lemma_env_first_index(e, k);
    let e2 = env_upsert(e, k, v);
    if env_has(e, k) {
        let i = env_first_index(e, k);
        lemma_env_first_index_of_scan(e2, k, i);
    } else {
        lemma_env_first_index_of_scan(e2, k, e.len() as int);
    }
}

/// An upsert leaves every other key's value alone.
pub broadcast proof fn lemma_env_get_upsert_other<V>(
    e: Seq<(Seq<char>, V)>,
    k: Seq<char>,
    v: V,
    k2: Seq<char>,
)
    requires
        k2 != k,
    ensures
        #[trigger] env_get(env_upsert(e, k, v), k2) == env_get(e, k2),
{
    lemma_env_first_index(e, k);
    lemma_env_first_index(e, k2);
    let e2 = env_upsert(e, k, v);
    if env_has(e, k2) {
        let i = env_first_index(e, k2);
        assert forall|j: int| 0 <= j < i implies (#[trigger] e2[j]).0 != k2 by {
            assert(e2[j].0 == e[j].0 || e2[j].0 == k);
        }
        assert(e2[i].0 == k2);
        lemma_env_first_index_of_scan(e2, k2, i);
        assert(e2[i].1 == e[i].1);
    } else {
        if env_has(e, k) {
            assert forall|j: int| 0 <= j < e2.len() implies (#[trigger] e2[j]).0 != k2 by {
                assert(e2[j].0 == e[j].0 || e2[j].0 == k);
            }
            lemma_env_not_found_of_scan(e2, k2);
        } else {
            assert forall|j: int| 0 <= j < e2.len() implies (#[trigger] e2[j]).0 != k2 by {
                if j < e.len() {
                    assert(e2[j].0 == e[j].0);
                } else {
                    assert(e2[j].0 == k);
                }
            }
            lemma_env_not_found_of_scan(e2, k2);
        }
    }
}

/// A key of `f` reads back from `env_extend(e, f)` as from `f`'s last
/// occurrence; a key absent from `f` reads as from `e`.
pub proof fn lemma_env_get_extend<V>(
    e: Seq<(Seq<char>, V)>,
    f: Seq<(Seq<char>, V)>,
    k: Seq<char>,
)
    ensures
        env_get(env_extend(e, f), k) == if env_has(f, k) {
            env_get(f.reverse(), k)
        } else {
            env_get(e, k)
        },
    decreases f.len(),
{
    lemma_env_first_index(f, k);
    if f.len() > 0 {
        lemma_env_get_extend(e, f.drop_last(), k);
        let prev = env_extend(e, f.drop_last());
        if f.last().0 == k {
            lemma_env_get_upsert_same(prev, k, f.last().1);
            lemma_env_first_index_of_scan(f.reverse(), k, 0);
            assert(f.reverse()[0] == f.last());
        } else {
            lemma_env_get_upsert_other(prev, f.last().0, f.last().1, k);
            lemma_env_first_index(f.drop_last(), k);
            if env_has(f.drop_last(), k) {
                let i = env_first_index(f.drop_last(), k);
                assert(f[i] == f.drop_last()[i]);
                lemma_env_reverse_get(f, k);
                assert(env_has(f, k)) by {
                    lemma_env_first_index(f, k);
                    if env_first_index(f, k) == -1 {
                        assert(f[i].0 != k);
                    }
                }
            } else {
                assert forall|j: int| 0 <= j < f.len() implies (#[trigger] f[j]).0 != k by {
                    if j < f.len() - 1 {
                        assert(f.drop_last()[j] == f[j]);
                    }
                }
                lemma_env_not_found_of_scan(f, k);
            }
        }
    }
}

/// Helper for `lemma_env_get_extend`: when `k` occurs in `f` but not
/// at the last position, reading the reverse of `f` equals reading the
/// reverse of `f` without its last entry.
proof fn lemma_env_reverse_get<V>(f: Seq<(Seq<char>, V)>, k: Seq<char>)
    requires
        f.len() > 0,
        f.last().0 != k,
    ensures
        env_get(f.reverse(), k) == env_get(f.drop_last().reverse(), k),
{
    let r = f.reverse();
    let r2 = f.drop_last().reverse();
    assert(r.len() == f.len());
    assert(r[0] == f.last());
    assert(r.drop_first() =~= r2) by {
        assert forall|j: int| 0 <= j < r2.len() implies r.drop_first()[j] == r2[j] by {
            assert(r.drop_first()[j] == r[j + 1]);
            assert(r[j + 1] == f[f.len() - 2 - j]);
            assert(r2[j] == f.drop_last()[f.len() - 2 - j]);
        }
    }
    lemma_env_first_index(r, k);
    lemma_env_first_index(r2, k);
    assert(env_first_index(r, k) == if env_first_index(r2, k) == -1 {
        -1int
    } else {
        env_first_index(r2, k) + 1
    });
    if env_has(r2, k) {
        assert(r[env_first_index(r2, k) + 1] == r.drop_first()[env_first_index(r2, k)]);
    }
}

/// The environment proper.
#[derive(Debug, PartialEq)]
pub struct Env {
    entries: Vec<(String, JsonValue)>,
}

impl View for Env {
    type V = Seq<(Seq<char>, JsonView)>;

    closed spec fn view(&self) -> Seq<(Seq<char>, JsonView)> {
        obj_view(self.entries@)
    }
}

impl Env {
    /// The empty environment.
    pub fn new() -> (r: Env)
        ensures
            r@ == Seq::<(Seq<char>, JsonView)>::empty(),
    {
        Env { entries: Vec::new() }
    }

    /// The number of entries.
    pub fn len(&self) -> (r: usize)
        ensures
            r == self@.len(),
    {
        proof {
            crate::json::lemma_obj_view_len(self.entries@);
        }
        self.entries.len()
    }

    /// The entries, in order.
    pub fn entries(&self) -> (r: &Vec<(String, JsonValue)>)
        ensures
            obj_view(r@) == self@,
    {
        &self.entries
    }

    /// The value under `k`, if any.
    pub fn get(&self, k: &String) -> (r: Option<&JsonValue>)
        ensures
            (r is Some) == env_has(self@, k@),
            r matches Some(v) ==> env_get(self@, k@) == Some(v@),
    {
        let n = self.entries.len();
        let mut i: usize = 0;
        while i < n
            invariant
                n == self.entries.len(),
                self@.len() == n,
                i <= n,
                forall|j: int| 0 <= j < i ==> (#[trigger] self@[j]).0 != k@,
            decreases n - i,
        {
            if self.entries[i].0 == *k {
                proof {
                    assert(self@[i as int] == (self.entries@[i as int].0@, self.entries@[
                        i as int].1@));
                    lemma_env_first_index_of_scan(self@, k@, i as int);
                }
                return Some(&self.entries[i].1);
            }
            i = i + 1;
        }
        proof {
            lemma_env_not_found_of_scan(self@, k@);
        }
        None
    }

    /// Puts `v` under `k`: replaces the first entry with that key in
    /// place, else appends a new entry.
    pub fn insert(&mut self, k: String, v: JsonValue)
        ensures
            final (self)@ == env_upsert(old(self)@, k@, v@),
    {
        let n = self.entries.len();
        let mut i: usize = 0;
        while i < n
            invariant
                n == self.entries.len(),
                self@.len() == n,
                i <= n,
                *self == *old(self),
                forall|j: int| 0 <= j < i ==> (#[trigger] self@[j]).0 != k@,
            decreases n - i,
        {
            if self.entries[i].0 == k {
                proof {
                    assert(self@[i as int] == (self.entries@[i as int].0@, self.entries@[
                        i as int].1@));
                    lemma_env_first_index_of_scan(self@, k@, i as int);
                }
                self.entries[i] = (k, v);
                proof {
                    assert(self@ =~= env_upsert(old(self)@, k@, v@));
                }
                return ;
            }
            i = i + 1;
        }
        proof {
            lemma_env_not_found_of_scan(self@, k@);
        }
        self.entries.push((k, v));
        proof {
            assert(self@ =~= env_upsert(old(self)@, k@, v@));
        }
    }

    /// Upserts every entry of `other` into `self`, in order.
    pub fn extend_from(&mut self, other: &Env)
        ensures
            final (self)@ == env_extend(old(self)@, other@),
    {
        let n = other.entries.len();
        let mut i: usize = 0;
        while i < n
            invariant
                n == other.entries.len(),
                other@.len() == n,
                i <= n,
                self@ == env_extend(old(self)@, other@.take(i as int)),
            decreases n - i,
        {
            let k = other.entries[i].0.clone();
            let v = other.entries[i].1.duplicate();
            self.insert(k, v);
            proof {
                assert(other@.take(i + 1).drop_last() =~= other@.take(i as int));
                assert(other@.take(i + 1).last() == other@[i as int]);
            }
            i = i + 1;
        }
        proof {
            assert(other@.take(other@.len() as int) =~= other@);
        }
    }

    /// Removes the first entry under `k`; later entries move up one
    /// place.
    pub fn remove(&mut self, k: &String)
        ensures
            final (self)@ == env_remove(old(self)@, k@),
    {
        let n = self.entries.len();
        let mut i: usize = 0;
        while i < n
            invariant
                n == self.entries.len(),
                self@.len() == n,
                i <= n,
                *self == *old(self),
                forall|j: int| 0 <= j < i ==> (#[trigger] self@[j]).0 != k@,
            decreases n - i,
        {
            if self.entries[i].0 == *k {
                proof {
                    assert(self@[i as int] == (self.entries@[i as int].0@, self.entries@[
                        i as int].1@));
                    lemma_env_first_index_of_scan(self@, k@, i as int);
                }
                self.entries.remove(i);
                proof {
                    assert(self@ =~= env_remove(old(self)@, k@));
                }
                return ;
            }
            i = i + 1;
        }
        proof {
            lemma_env_not_found_of_scan(self@, k@);
        }
    }

    /// A structural copy with the same view.
    pub fn duplicate(&self) -> (r: Env)
        ensures
            r@ == self@,
    {
        let mut entries: Vec<(String, JsonValue)> = Vec::new();
        let n = self.entries.len();
        let mut i: usize = 0;
        while i < n
            invariant
                n == self.entries.len(),
                i <= n,
                entries@.len() == i,
                forall|j: int|
                    0 <= j < i ==> (#[trigger] entries@[j]).0@ == self.entries@[j].0@
                        && entries@[j].1@ == self.entries@[j].1@,
            decreases n - i,
        {
            entries.push((self.entries[i].0.clone(), self.entries[i].1.duplicate()));
            i = i + 1;
        }
        let r = Env { entries };
        proof {
            assert(r@ =~= self@);
        }
        r
    }
}

/// The interpolator's flat view of an environment: each entry's value
/// in its string form.
pub open spec fn subst_map_view(e: Seq<(Seq<char>, JsonView)>) -> Seq<(Seq<char>, Seq<char>)>
    decreases e.len(),
{
    if e.len() == 0 {
        Seq::empty()
    } else {
        subst_map_view(e.drop_last()).push((e.last().0, str_form(e.last().1)))
    }
}

/// `subst_map_view` keeps the length.
pub broadcast proof fn lemma_subst_map_view_len(e: Seq<(Seq<char>, JsonView)>)
    ensures
        #[trigger] subst_map_view(e).len() == e.len(),
    decreases e.len(),
{
    if e.len() > 0 {
        lemma_subst_map_view_len(e.drop_last());
    }
}

/// `subst_map_view` maps each entry to its key and string form.
pub broadcast proof fn lemma_subst_map_view_index(e: Seq<(Seq<char>, JsonView)>, i: int)
    requires
        0 <= i < e.len(),
    ensures
        #[trigger] subst_map_view(e)[i] == (e[i].0, str_form(e[i].1)),
    decreases e.len(),
{
    lemma_subst_map_view_len(e);
    lemma_subst_map_view_len(e.drop_last());
    if i < e.len() - 1 {
        lemma_subst_map_view_index(e.drop_last(), i);
        assert(e.drop_last()[i] == e[i]);
    }
}

/// The string form of `v`, as a string.
pub fn string_form(v: &JsonValue) -> (r: String)
    ensures
        r@ == str_form(v@),
{
    match v {
        JsonValue::Str(s) => s.clone(),
        _ => crate::json::to_json_string(v),
    }
}

/// The interpolator's flat map of an environment: keys in order, each
/// value in its string form.
pub fn make_subst_map(env: &Env) -> (r: Vec<(String, String)>)
    ensures
        smap_of(r@) == subst_map_view(env@),
{
    broadcast use {lemma_subst_map_view_len, lemma_subst_map_view_index, lemma_smap_of_len, lemma_smap_of_index};

    let entries = env.entries();
    let n = entries.len();
    let mut r: Vec<(String, String)> = Vec::new();
    let mut i: usize = 0;
    while i < n
        invariant
            n == entries@.len(),
            obj_view(entries@) == env@,
            i <= n,
            r@.len() == i,
            forall|j: int|
                0 <= j < i ==> (#[trigger] r@[j]).0@ == env@[j].0 && r@[j].1@ == str_form(
                    env@[j].1,
                ),
        decreases n - i,
    {
        r.push((entries[i].0.clone(), string_form(&entries[i].1)));
        i = i + 1;
    }
    proof {
        assert(smap_of(r@) =~= subst_map_view(env@));
    }
    r
}

/// The views of the pairs of a flat string map.
pub open spec fn smap_of(m: Seq<(String, String)>) -> Seq<(Seq<char>, Seq<char>)>
    decreases m.len(),
{
    if m.len() == 0 {
        Seq::empty()
    } else {
        smap_of(m.drop_last()).push((m.last().0@, m.last().1@))
    }
}

/// `smap_of` keeps the length.
pub broadcast proof fn lemma_smap_of_len(m: Seq<(String, String)>)
    ensures
        #[trigger] smap_of(m).len() == m.len(),
    decreases m.len(),
{
    if m.len() > 0 {
        lemma_smap_of_len(m.drop_last());
    }
}

/// `smap_of` maps each pair to its views.
pub broadcast proof fn lemma_smap_of_index(m: Seq<(String, String)>, i: int)
    requires
        0 <= i < m.len(),
    ensures
        #[trigger] smap_of(m)[i] == (m[i].0@, m[i].1@),
    decreases m.len(),
{
    lemma_smap_of_len(m);
    lemma_smap_of_len(m.drop_last());
    if i < m.len() - 1 {
        lemma_smap_of_index(m.drop_last(), i);
        assert(m.drop_last()[i] == m[i]);
    }
}

/// The value under key `k` in a flat string map: the first match
/// wins.
pub open spec fn smap_get(m: Seq<(Seq<char>, Seq<char>)>, k: Seq<char>) -> Option<Seq<char>>
    decreases m.len(),
{
    if m.len() == 0 {
        None
    } else if m[0].0 == k {
        Some(m[0].1)
    } else {
        smap_get(m.drop_first(), k)
    }
}

} // verus!
