//! Sums over finite key sets and the key lists of hash collections.
//!
//! A hash map is walked in no particular order. The helpers here turn its keys
//! into a list once, so that the rest of the crate loops over plain vectors and
//! states its results over sets.

use std::collections::{HashMap, HashSet};

use vstd::prelude::*;

verus! {

/// The sum of `f` over the elements of a finite set.
pub open spec fn sum_over(keys: Set<u32>, f: spec_fn(u32) -> nat) -> nat
    decreases keys.len(),
    when keys.finite()
{
    if keys.len() == 0 {
        0
    } else {
        let k = keys.choose();
        f(k) + sum_over(keys.remove(k), f)
    }
}

/// The sum of `f` over the elements of a sequence.
pub open spec fn sum_seq<A>(s: Seq<A>, f: spec_fn(A) -> nat) -> nat
    decreases s.len(),
{
    if s.len() == 0 {
        0
    } else {
        sum_seq(s.drop_last(), f) + f(s.last())
    }
}

/// Strictly ascending.
pub open spec fn ascending(s: Seq<u32>) -> bool {
    forall|i: int, j: int| 0 <= i < j < s.len() ==> s[i] < s[j]
}

/// A sum can be taken apart at any element.
pub proof fn lemma_sum_remove(keys: Set<u32>, f: spec_fn(u32) -> nat, k: u32)
    requires
        keys.finite(),
        keys.contains(k),
    ensures
        sum_over(keys, f) == f(k) + sum_over(keys.remove(k), f),
    decreases keys.len(),
{
    let c = keys.choose();
    assert(keys.len() > 0);
    if c != k {
        lemma_sum_remove(keys.remove(c), f, k);
        lemma_sum_remove(keys.remove(k), f, c);
        assert(keys.remove(c).remove(k) =~= keys.remove(k).remove(c));
    }
}

/// A sum depends only on the values of `f` on the elements.
pub proof fn lemma_sum_ext(keys: Set<u32>, f: spec_fn(u32) -> nat, g: spec_fn(u32) -> nat)
    requires
        keys.finite(),
        forall|k: u32| #[trigger] keys.contains(k) ==> f(k) == g(k),
    ensures
        sum_over(keys, f) == sum_over(keys, g),
    decreases keys.len(),
{
    if keys.len() > 0 {
        let c = keys.choose();
        assert(keys.contains(c));
        lemma_sum_ext(keys.remove(c), f, g);
    }
}

/// Sums add up point by point.
pub proof fn lemma_sum_add(
    keys: Set<u32>,
    f: spec_fn(u32) -> nat,
    g: spec_fn(u32) -> nat,
    h: spec_fn(u32) -> nat,
)
    requires
        keys.finite(),
        forall|k: u32| #[trigger] keys.contains(k) ==> f(k) == g(k) + h(k),
    ensures
        sum_over(keys, f) == sum_over(keys, g) + sum_over(keys, h),
    decreases keys.len(),
{
    if keys.len() > 0 {
        let c = keys.choose();
        assert(keys.contains(c));
        lemma_sum_add(keys.remove(c), f, g, h);
    }
}

/// A sum does not shrink when the values grow.
pub proof fn lemma_sum_le(keys: Set<u32>, f: spec_fn(u32) -> nat, g: spec_fn(u32) -> nat)
    requires
        keys.finite(),
        forall|k: u32| #[trigger] keys.contains(k) ==> f(k) <= g(k),
    ensures
        sum_over(keys, f) <= sum_over(keys, g),
    decreases keys.len(),
{
    if keys.len() > 0 {
        let c = keys.choose();
        assert(keys.contains(c));
        lemma_sum_le(keys.remove(c), f, g);
    }
}

/// Elements on which `f` is zero do not count.
pub proof fn lemma_sum_support(keys: Set<u32>, sub: Set<u32>, f: spec_fn(u32) -> nat)
    requires
        keys.finite(),
        sub.subset_of(keys),
        forall|k: u32| #[trigger] keys.contains(k) && !sub.contains(k) ==> f(k) == 0,
    ensures
        sub.finite(),
        sum_over(keys, f) == sum_over(sub, f),
    decreases keys.len(),
{
    vstd::set_lib::lemma_len_subset(sub, keys);
    if keys =~= sub {
    } else {
        let c = choose|c: u32| keys.contains(c) && !sub.contains(c);
        lemma_sum_remove(keys, f, c);
        lemma_sum_support(keys.remove(c), sub, f);
    }
}

/// The sum along a list without repetitions is the sum over its elements.
pub proof fn lemma_sum_list(s: Seq<u32>, f: spec_fn(u32) -> nat)
    requires
        s.no_duplicates(),
    ensures
        sum_seq(s, f) == sum_over(s.to_set(), f),
    decreases s.len(),
{
    if s.len() > 0 {
        let rest = s.drop_last();
        lemma_sum_list(rest, f);
        assert(s.to_set().contains(s.last()));
        assert(s.to_set().remove(s.last()) =~= rest.to_set()) by {
            assert forall|k: u32| s.to_set().remove(s.last()).contains(k) implies rest.to_set().contains(
                k,
            ) by {
                let i = choose|i: int| 0 <= i < s.len() && s[i] == k;
                assert(rest[i] == k);
            }
            assert forall|k: u32| rest.to_set().contains(k) implies s.to_set().remove(
                s.last(),
            ).contains(k) by {
                let i = choose|i: int| 0 <= i < rest.len() && rest[i] == k;
                assert(s[i] == k);
            }
        }
        lemma_sum_remove(s.to_set(), f, s.last());
    } else {
        assert(s.to_set() =~= Set::empty());
    }
}

/// A sum along a prefix is at most the whole sum, and a longer prefix adds the
/// next value.
pub proof fn lemma_sum_prefix<A>(s: Seq<A>, f: spec_fn(A) -> nat, i: int)
    requires
        0 <= i < s.len(),
    ensures
        sum_seq(s.take(i + 1), f) == sum_seq(s.take(i), f) + f(s[i]),
        sum_seq(s.take(i + 1), f) <= sum_seq(s, f),
    decreases s.len() - i,
{
    assert(s.take(i + 1).drop_last() =~= s.take(i));
    if i + 1 < s.len() {
        lemma_sum_prefix(s, f, i + 1);
    } else {
        assert(s.take(i + 1) =~= s);
    }
}

/// A sum along a list lies between as many times the lowest and the highest value.
proof fn lemma_sum_bounds<A>(s: Seq<A>, f: spec_fn(A) -> nat, low: nat, high: nat)
    requires
        forall|i: int| 0 <= i < s.len() ==> low <= f(#[trigger] s[i]) <= high,
    ensures
        low * s.len() <= sum_seq(s, f) <= high * s.len(),
    decreases s.len(),
{
    if s.len() > 0 {
        let rest = s.drop_last();
        assert forall|i: int| 0 <= i < rest.len() implies low <= f(#[trigger] rest[i]) <= high by {
            assert(rest[i] == s[i]);
        }
        lemma_sum_bounds(rest, f, low, high);
        assert(s[s.len() - 1] == s.last());
        let n = s.len() as int;
        assert(low * n == low * (n - 1) + low) by (nonlinear_arith);
        assert(high * n == high * (n - 1) + high) by (nonlinear_arith);
    }
}

/// An average, rounded down, lies between the lowest and the highest value.
pub proof fn lemma_average<A>(s: Seq<A>, f: spec_fn(A) -> nat, low: nat, high: nat)
    requires
        s.len() > 0,
        forall|i: int| 0 <= i < s.len() ==> low <= f(#[trigger] s[i]) <= high,
    ensures
        low <= sum_seq(s, f) / s.len() <= high,
{
    lemma_sum_bounds(s, f, low, high);
    let sum = sum_seq(s, f);
    let n = s.len();
    assert(low <= sum / n <= high) by (nonlinear_arith)
        requires
            n > 0,
            low * n <= sum <= high * n,
    ;
}

/// The keys of a map, each once, in no particular order.
pub fn keys_of<V>(m: &HashMap<u32, V>) -> (keys: Vec<u32>)
    ensures
        keys@.no_duplicates(),
        keys@.to_set() == m@.dom(),
{
    broadcast use vstd::std_specs::hash::group_hash_axioms;

    let mut keys: Vec<u32> = Vec::new();
    for k in it: m.keys()
        invariant
            keys@ == it.seq().unref().take(it.index() as int),
            it.seq().unref().to_set() == m@.dom(),
            it.index() == it.seq().len() ==> keys@ == it.seq().unref(),
    {
        keys.push(*k);
        assert(keys@ =~= it.seq().unref().take(it.index() + 1));
    }
    keys
}

/// The elements of a set, each once, in no particular order.
pub fn elements_of(s: &HashSet<u32>) -> (elements: Vec<u32>)
    ensures
        elements@.no_duplicates(),
        elements@.to_set() == s@,
{
    broadcast use vstd::std_specs::hash::group_hash_axioms;

    let mut elements: Vec<u32> = Vec::new();
    for k in it: s.iter()
        invariant
            elements@ == it.seq().unref().take(it.index() as int),
            it.seq().unref().to_set() == s@,
            it.index() == it.seq().len() ==> elements@ == it.seq().unref(),
    {
        elements.push(*k);
        assert(elements@ =~= it.seq().unref().take(it.index() + 1));
    }
    elements
}

/// The set of the listed ids.
pub fn set_of(ids: &Vec<u32>) -> (res: HashSet<u32>)
    ensures
        res@ == ids@.to_set(),
{
    broadcast use vstd::std_specs::hash::group_hash_axioms;

    let mut res: HashSet<u32> = HashSet::new();
    for i in 0..ids.len()
        invariant
            res@ == ids@.take(i as int).to_set(),
    {
        res.insert(ids[i]);
        proof {
            assert forall|k: u32| res@.contains(k) <==> ids@.take(i + 1).to_set().contains(k) by {
                lemma_take_contains(ids@, i as int, k);
            }
            assert(res@ =~= ids@.take(i + 1).to_set());
        }
    }
    assert(ids@.take(ids@.len() as int) =~= ids@);
    res
}

/// A set with the same elements.
pub fn copy_of(s: &HashSet<u32>) -> (res: HashSet<u32>)
    ensures
        res@ == s@,
{
    set_of(&elements_of(s))
}

/// Sorts a list of distinct ids in ascending order.
pub fn sort_ids(ids: &Vec<u32>) -> (sorted: Vec<u32>)
    requires
        ids@.no_duplicates(),
    ensures
        ascending(sorted@),
        sorted@.to_set() == ids@.to_set(),
        sorted@.len() == ids@.len(),
{
    let mut sorted: Vec<u32> = Vec::new();
    for i in 0..ids.len()
        invariant
            ids@.no_duplicates(),
            ascending(sorted@),
            sorted@.len() == i,
            forall|k: u32| #[trigger] sorted@.contains(k) <==> ids@.take(i as int).contains(k),
    {
        let id = ids[i];
        let ghost before = sorted@;
        let mut at: usize = sorted.len();
        while at > 0 && sorted[at - 1] > id
            invariant
                at <= sorted@.len(),
                sorted@ == before,
                forall|j: int| at <= j < sorted@.len() ==> sorted@[j] > id,
            decreases at,
        {
            at = at - 1;
        }
        proof {
            if before.contains(id) {
                let j = choose|j: int| 0 <= j < ids@.take(i as int).len() && ids@.take(i as int)[j] == id;
                assert(ids@[j] == ids@[i as int]);
            }
            if at > 0 {
                assert(before.contains(before[at - 1]));
            }
        }
        sorted.insert(at, id);
        proof {
            before.insert_ensures(at as int, id);
            assert forall|k: u32| #[trigger] sorted@.contains(k) <==> ids@.take(i + 1).contains(k) by {
                lemma_insert_contains(before, at as int, id, k);
                lemma_take_contains(ids@, i as int, k);
            }
        }
    }
    proof {
        assert(ids@.take(ids@.len() as int) =~= ids@);
        assert(sorted@.to_set() =~= ids@.to_set());
    }
    sorted
}

proof fn lemma_insert_contains(s: Seq<u32>, at: int, id: u32, k: u32)
    requires
        0 <= at <= s.len(),
    ensures
        s.insert(at, id).contains(k) <==> s.contains(k) || k == id,
{
    let t = s.insert(at, id);
    if t.contains(k) {
        let j = choose|j: int| 0 <= j < t.len() && t[j] == k;
        if j < at {
            assert(s[j] == k);
        } else if j > at {
            assert(s[j - 1] == k);
        }
    }
    if s.contains(k) {
        let j = choose|j: int| 0 <= j < s.len() && s[j] == k;
        if j < at {
            assert(t[j] == k);
        } else {
            assert(t[j + 1] == k);
        }
    }
    if k == id {
        assert(t[at] == k);
    }
}

/// The elements of a list are those before the last, and the last.
pub proof fn lemma_last_to_set<A>(s: Seq<A>)
    requires
        s.len() > 0,
    ensures
        s.to_set() == s.drop_last().to_set().insert(s.last()),
{
    let rest = s.drop_last();
    assert(s =~= rest.push(s.last()));
    assert forall|k: A| s.to_set().contains(k) <==> rest.to_set().insert(s.last()).contains(k) by {
        vstd::seq_lib::lemma_seq_contains_after_push(rest, s.last(), k);
    }
    assert(s.to_set() =~= rest.to_set().insert(s.last()));
}

/// A prefix one longer holds one more element.
pub proof fn lemma_take_contains<A>(s: Seq<A>, i: int, k: A)
    requires
        0 <= i < s.len(),
    ensures
        s.take(i + 1).contains(k) <==> s.take(i).contains(k) || s[i] == k,
{
    let t = s.take(i + 1);
    if t.contains(k) {
        let j = choose|j: int| 0 <= j < t.len() && t[j] == k;
        if j < i {
            assert(s.take(i)[j] == k);
        }
    }
    if s.take(i).contains(k) {
        let j = choose|j: int| 0 <= j < i && s.take(i)[j] == k;
        assert(t[j] == k);
    }
    if s[i] == k {
        assert(t[i] == k);
    }
}

/// The elements of a set in ascending order.
pub fn sorted_elements_of(s: &HashSet<u32>) -> (sorted: Vec<u32>)
    ensures
        ascending(sorted@),
        sorted@.no_duplicates(),
        sorted@.to_set() == s@,
{
    let elements = elements_of(s);
    sort_ids(&elements)
}

/// A set is listed in ascending order, each element once and nothing else.
pub proof fn law_elements_are_listed_in_order(s: HashSet<u32>, listed: Vec<u32>)
    requires
        call_ensures(sorted_elements_of, (&s,), listed),
    ensures
        forall|id: u32| #[trigger] s@.contains(id) <==> listed@.contains(id),
        forall|i: int, j: int|
            0 <= i < j < listed@.len() ==> #[trigger] listed@[i] < #[trigger] listed@[j],
{
    assert forall|id: u32| #[trigger] s@.contains(id) <==> listed@.contains(id) by {
        assert(listed@.to_set().contains(id) <==> listed@.contains(id));
    }
}

} // verus!
