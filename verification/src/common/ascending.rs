//! Sets of numbers written out in ascending order.

use std::collections::BTreeSet;
use vstd::prelude::*;

verus! {

/// Every number is less than the numbers after it.
pub open spec fn increasing(values: Seq<i64>) -> bool {
    forall|i: int, j: int| 0 <= i < j < values.len() ==> values[i] < values[j]
}

/// The numbers of a finite set, each once, the least first.
pub open spec fn ascending(set: Set<i64>) -> Seq<i64> {
    choose|values: Seq<i64>| increasing(values) && values.to_set() == set
}

/// An increasing sequence holds no number twice.
pub proof fn lemma_increasing_distinct(values: Seq<i64>)
    requires
        increasing(values),
    ensures
        values.no_duplicates(),
        values.len() == values.to_set().len(),
{
    assert forall|i: int, j: int|
        0 <= i < values.len() && 0 <= j < values.len() && i != j implies values[i] != values[j] by {
        if i < j {
            assert(values[i] < values[j]);
        } else {
            assert(values[j] < values[i]);
        }
    }
    values.unique_seq_to_set();
}

/// Two increasing sequences of the same numbers are the same.
pub proof fn lemma_increasing_unique(a: Seq<i64>, b: Seq<i64>)
    requires
        increasing(a),
        increasing(b),
        a.to_set() == b.to_set(),
    ensures
        a == b,
    decreases a.len(),
{
    lemma_increasing_distinct(a);
    lemma_increasing_distinct(b);
    if a.len() > 0 {
        let last = a.len() - 1;
        assert(b.to_set().contains(a[last]));
        assert(a.to_set().contains(b[last]));
        let k = choose|k: int| 0 <= k < b.len() && b[k] == a[last];
        let m = choose|m: int| 0 <= m < a.len() && a[m] == b[last];
        if k < last {
            assert(b[k] < b[last]);
        }
        if m < last {
            assert(a[m] < a[last]);
        }
        assert(a[last] == b[last]);
        let a1 = a.drop_last();
        let b1 = b.drop_last();
        assert forall|v: i64| a1.to_set().contains(v) <==> b1.to_set().contains(v) by {
            if a1.contains(v) {
                let i = choose|i: int| 0 <= i < a1.len() && a1[i] == v;
                assert(a[i] == v && a[i] < a[last]);
                assert(b.to_set().contains(v));
                let j = choose|j: int| 0 <= j < b.len() && b[j] == v;
                assert(b1[j] == v);
            }
            if b1.contains(v) {
                let i = choose|i: int| 0 <= i < b1.len() && b1[i] == v;
                assert(b[i] == v && b[i] < b[last]);
                assert(a.to_set().contains(v));
                let j = choose|j: int| 0 <= j < a.len() && a[j] == v;
                assert(a1[j] == v);
            }
        }
        assert(a1.to_set() =~= b1.to_set());
        lemma_increasing_unique(a1, b1);
        assert(a =~= a1.push(a[last]));
        assert(b =~= b1.push(b[last]));
    } else {
        assert(a =~= b);
    }
}

/// A finite set of numbers that is not empty has a greatest number.
proof fn lemma_greatest(set: Set<i64>) -> (greatest: i64)
    requires
        set.finite(),
        set.len() > 0,
    ensures
        set.contains(greatest),
        forall|v: i64| set.contains(v) ==> v <= greatest,
    decreases set.len(),
{
    let picked = set.choose();
    let rest = set.remove(picked);
    if rest.len() == 0 {
        assert forall|v: i64| set.contains(v) implies v <= picked by {
            if v != picked {
                assert(rest.contains(v));
            }
        }
        picked
    } else {
        let other = lemma_greatest(rest);
        let greatest = if picked > other {
            picked
        } else {
            other
        };
        assert forall|v: i64| set.contains(v) implies v <= greatest by {
            if v != picked {
                assert(rest.contains(v));
            }
        }
        greatest
    }
}

/// The numbers of a finite set can be written out in ascending order.
pub proof fn lemma_ascending(set: Set<i64>)
    requires
        set.finite(),
    ensures
        increasing(ascending(set)),
        ascending(set).to_set() == set,
    decreases set.len(),
{
    if set.len() == 0 {
        let none = Seq::<i64>::empty();
        assert(none.to_set() =~= set);
        assert(increasing(none) && none.to_set() == set);
    } else {
        let greatest = lemma_greatest(set);
        let rest = set.remove(greatest);
        lemma_ascending(rest);
        let lower = ascending(rest);
        let all = lower.push(greatest);
        assert forall|i: int, j: int| 0 <= i < j < all.len() implies all[i] < all[j] by {
            assert(lower.to_set().contains(lower[i]));
            assert(rest.contains(lower[i]));
            if j < lower.len() {
                assert(lower[i] < lower[j]);
            }
        }
        lower.lemma_push_to_set_commute(greatest);
        assert(all.to_set() =~= set);
        assert(increasing(all) && all.to_set() == set);
    }
}

/// Puts `value` into an increasing vector at its place, unless it is there
/// already.
pub fn insert_value(values: &mut Vec<i64>, value: i64)
    requires
        increasing(old(values)@),
    ensures
        increasing(final(values)@),
        final(values)@.to_set() == old(values)@.to_set().insert(value),
{
    let ghost before = values@;
    let mut i: usize = 0;
    while i < values.len() && values[i] < value
        invariant
            i <= values@.len(),
            values@ == before,
            forall|k: int| 0 <= k < i ==> before[k] < value,
        decreases values@.len() - i,
    {
        i += 1;
    }
    if i < values.len() && values[i] == value {
        proof {
            assert(before.contains(value));
            assert(before.to_set().insert(value) =~= before.to_set());
        }
        return;
    }
    values.insert(i, value);
    proof {
        let after = values@;
        assert forall|x: int, y: int| 0 <= x < y < after.len() implies after[x] < after[y] by {
            if y < i as int {
                assert(before[x] < before[y]);
            } else if y == i as int {
            } else if x < i as int {
                assert(before[x] < value);
                if i < before.len() {
                    assert(before[i as int] <= before[y - 1]) by {
                        if (i as int) < y - 1 {
                            assert(before[i as int] < before[y - 1]);
                        }
                    }
                }
            } else if x == i as int {
                assert(before[i as int] <= before[y - 1]) by {
                    if (i as int) < y - 1 {
                        assert(before[i as int] < before[y - 1]);
                    }
                }
            } else {
                assert(before[x - 1] < before[y - 1]);
            }
        }
        assert forall|v: i64| after.to_set().contains(v) <==> before.to_set().insert(value).contains(
            v,
        ) by {
            if after.contains(v) {
                let k = choose|k: int| 0 <= k < after.len() && after[k] == v;
                if k < i as int {
                    assert(before[k] == v);
                } else if k > i as int {
                    assert(before[k - 1] == v);
                }
            }
            if before.contains(v) {
                let k = choose|k: int| 0 <= k < before.len() && before[k] == v;
                if k < i as int {
                    assert(after[k] == v);
                } else {
                    assert(after[k + 1] == v);
                }
            }
            if v == value {
                assert(after[i as int] == v);
            }
        }
        assert(after.to_set() =~= before.to_set().insert(value));
    }
}

/// The numbers of a set in ascending order.
pub fn ascending_values(set: &BTreeSet<i64>) -> (values: Vec<i64>)
    ensures
        values@ == ascending(set@),
        increasing(values@),
        values@.to_set() == set@,
{
    let mut values: Vec<i64> = Vec::new();
    let members = set.iter();
    proof {
        assert(values@.to_set() =~= Set::<i64>::empty());
    }
    for value in it: members
        invariant
            it.seq().unref().to_set() == set@,
            increasing(values@),
            values@.to_set() == it.seq().unref().take(it.index() as int).to_set(),
            it.index() == it.seq().len() ==> values@.to_set() == set@,
    {
        proof {
            let done = it.seq().unref().take(it.index() as int);
            let next = it.seq().unref().take(it.index() + 1);
            assert(next =~= done.push(*value));
            done.lemma_push_to_set_commute(*value);
            assert(it.index() + 1 == it.seq().len() ==> next =~= it.seq().unref());
        }
        insert_value(&mut values, *value);
    }
    proof {
        lemma_increasing_unique(values@, ascending(set@));
    }
    values
}

/// The set of the numbers of a vector.
pub fn set_of(values: &Vec<i64>) -> (set: BTreeSet<i64>)
    ensures
        set@ == values@.to_set(),
{
    let mut set: BTreeSet<i64> = BTreeSet::new();
    let mut i: usize = 0;
    proof {
        assert(values@.take(0).to_set() =~= Set::<i64>::empty());
    }
    while i < values.len()
        invariant
            i <= values@.len(),
            set@ == values@.take(i as int).to_set(),
        decreases values@.len() - i,
    {
        proof {
            let done = values@.take(i as int);
            assert(values@.take(i + 1) =~= done.push(values@[i as int]));
            done.lemma_push_to_set_commute(values@[i as int]);
        }
        set.insert(values[i]);
        i += 1;
    }
    assert(values@.take(i as int) =~= values@);
    set
}

} // verus!
