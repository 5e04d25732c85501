//! Three small exercises on vectors of integers.

use std::collections::HashSet;
use vstd::prelude::*;

verus! {

/// Adding `n` to each item of `s` stays within `i32`.
pub open spec fn sums_fit(s: Seq<i32>, n: i32) -> bool {
    forall|i: int| 0 <= i < s.len() ==> i32::MIN <= #[trigger] s[i] + n <= i32::MAX
}

/// The items of `s`, each with `n` added to it.
pub open spec fn raised(s: Seq<i32>, n: i32) -> Seq<i32> {
    Seq::new(s.len(), |i: int| (s[i] + n) as i32)
}

/// The items of `s` without those that occur earlier in `s`: of each value
/// the first occurrence stays, and the order of what stays is kept.
pub open spec fn first_occurrences(s: Seq<i32>) -> Seq<i32>
    decreases s.len(),
{
    if s.len() == 0 {
        Seq::empty()
    } else if s.drop_last().contains(s.last()) {
        first_occurrences(s.drop_last())
    } else {
        first_occurrences(s.drop_last()).push(s.last())
    }
}

/// Adds `n` to each item of `v`.
pub fn add_n(v: Vec<i32>, n: i32) -> (r: Vec<i32>)
    requires
        sums_fit(v@, n),
    ensures
        r@ == raised(v@, n),
{
    let mut v = v;
    add_n_inplace(&mut v, n);
    v
}

/// Adds `n` to each item of `v`, in place.
pub fn add_n_inplace(v: &mut Vec<i32>, n: i32)
    requires
        sums_fit(old(v)@, n),
    ensures
        final(v)@ == raised(old(v)@, n),
{
    let ghost before = v@;
    let mut i: usize = 0;
    while i < v.len()
        invariant
            i <= v@.len(),
            v@.len() == before.len(),
            sums_fit(before, n),
            forall|k: int| 0 <= k < i ==> v@[k] == #[trigger] before[k] + n,
            forall|k: int| i <= k < v@.len() ==> v@[k] == before[k],
        decreases v@.len() - i,
    {
        let item = v[i];
        assert(item == before[i as int]);
        v.set(i, item + n);
        i += 1;
    }
    assert(v@ =~= raised(before, n));
}

/// Removes from `v` each item that occurs earlier in it.
pub fn dedup(v: &mut Vec<i32>)
    ensures
        final(v)@ == first_occurrences(old(v)@),
{
    let ghost before = v@;
    let mut seen: HashSet<i32> = HashSet::new();
    let mut kept: Vec<i32> = Vec::new();
    let mut i: usize = 0;
    assert(before.take(0) =~= Seq::<i32>::empty());
    while i < v.len()
        invariant
            i <= v@.len(),
            v@ == before,
            kept@ == first_occurrences(before.take(i as int)),
            forall|x: i32| seen@.contains(x) <==> before.take(i as int).contains(x),
        decreases v@.len() - i,
    {
        let item = v[i];
        let ghost prefix = before.take(i as int);
        let ghost longer = before.take(i + 1);
        assert(longer.drop_last() =~= prefix);
        assert(longer.last() == item);
        if !seen.contains(&item) {
            seen.insert(item);
            kept.push(item);
        }
        assert forall|x: i32| seen@.contains(x) <==> longer.contains(x) by {
            if longer.contains(x) {
                let k = choose|k: int| 0 <= k < longer.len() && longer[k] == x;
                if k < i {
                    assert(prefix[k] == x);
                }
            }
            if prefix.contains(x) {
                let k = choose|k: int| 0 <= k < prefix.len() && prefix[k] == x;
                assert(longer[k] == x);
            }
            assert(longer[i as int] == item);
        }
        i += 1;
    }
    assert(before.take(i as int) =~= before);
    *v = kept;
}

/// No value occurs twice in what `dedup` leaves.
pub proof fn first_occurrences_are_distinct(s: Seq<i32>)
    ensures
        first_occurrences(s).no_duplicates(),
    decreases s.len(),
{
    if s.len() > 0 {
        first_occurrences_are_distinct(s.drop_last());
        first_occurrences_keep_values(s.drop_last());
    }
}

/// What `dedup` leaves holds the same values as what it was given.
pub proof fn first_occurrences_keep_values(s: Seq<i32>)
    ensures
        forall|x: i32| first_occurrences(s).contains(x) <==> s.contains(x),
    decreases s.len(),
{
    if s.len() > 0 {
        let front = s.drop_last();
        first_occurrences_keep_values(front);
        assert forall|x: i32| first_occurrences(s).contains(x) <==> s.contains(x) by {
            if s.contains(x) {
                let k = choose|k: int| 0 <= k < s.len() && s[k] == x;
                if k < s.len() - 1 {
                    assert(front[k] == x);
                }
            }
            if front.contains(x) {
                let k = choose|k: int| 0 <= k < front.len() && front[k] == x;
                assert(s[k] == x);
            }
            if first_occurrences(s).contains(x) && !first_occurrences(front).contains(x) {
                let k = choose|k: int|
                    0 <= k < first_occurrences(s).len() && first_occurrences(s)[k] == x;
                assert(x == s.last());
            }
            if !front.contains(s.last()) {
                assert(first_occurrences(s) == first_occurrences(front).push(s.last()));
                assert(first_occurrences(s).last() == s.last());
                if first_occurrences(front).contains(x) {
                    let k = choose|k: int|
                        0 <= k < first_occurrences(front).len() && first_occurrences(front)[k] == x;
                    assert(first_occurrences(s)[k] == x);
                }
            }
            assert(s[s.len() - 1] == s.last());
        }
    }
}

/// A vector without repetitions is left as it is.
pub proof fn first_occurrences_of_distinct(s: Seq<i32>)
    requires
        s.no_duplicates(),
    ensures
        first_occurrences(s) == s,
    decreases s.len(),
{
    if s.len() > 0 {
        let front = s.drop_last();
        first_occurrences_of_distinct(front);
        if front.contains(s.last()) {
            let k = choose|k: int| 0 <= k < front.len() && front[k] == s.last();
            assert(s[k] == s[s.len() - 1]);
        }
        assert(front.push(s.last()) =~= s);
    }
}

} // verus!
