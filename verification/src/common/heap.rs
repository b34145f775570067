//! A queue of records that hands out the earliest record first.

use crate::common::record::Record;
use vstd::multiset::Multiset;
use vstd::prelude::*;
use vstd::seq_lib::to_multiset_contains;
use vstd::seq_lib::to_multiset_insert;
use vstd::seq_lib::to_multiset_len;
use vstd::seq_lib::to_multiset_remove;

verus! {

/// The sequence with the items at two positions exchanged.
pub open spec fn swapped<T>(s: Seq<T>, i: int, j: int) -> Seq<T> {
    s.update(i, s[j]).update(j, s[i])
}

/// Replacing one item takes the old item out of the multiset and puts the
/// new one in.
proof fn lemma_update_multiset<T>(s: Seq<T>, i: int, v: T)
    requires
        0 <= i < s.len(),
    ensures
        s.update(i, v).to_multiset() == s.to_multiset().remove(s[i]).insert(v),
        s.to_multiset().count(s[i]) > 0,
{
    assert(s.update(i, v) =~= s.remove(i).insert(i, v));
    to_multiset_remove(s, i);
    to_multiset_insert(s.remove(i), i, v);
    assert(s.contains(s[i]));
    to_multiset_contains(s, s[i]);
}

/// Exchanging two items leaves the multiset of items as it was.
pub proof fn lemma_swapped_multiset<T>(s: Seq<T>, i: int, j: int)
    requires
        0 <= i < s.len(),
        0 <= j < s.len(),
    ensures
        swapped(s, i, j).to_multiset() == s.to_multiset(),
{
    let s1 = s.update(i, s[j]);
    lemma_update_multiset(s, i, s[j]);
    lemma_update_multiset(s1, j, s[i]);
    lemma_update_multiset(s, j, s[j]);
    assert(swapped(s, i, j).to_multiset() =~= s.to_multiset());
}

/// Exchanges the item at `i` with the last item.
fn swap_with_last<T>(v: &mut Vec<T>, i: usize)
    requires
        i < old(v)@.len(),
    ensures
        final(v)@ == swapped(old(v)@, i as int, old(v)@.len() - 1),
{
    let x = v.swap_remove(i);
    v.push(x);
    assert(v@ =~= swapped(old(v)@, i as int, old(v)@.len() - 1));
}

/// Exchanges the items at `i` and `j`.
fn swap_items<T>(v: &mut Vec<T>, i: usize, j: usize)
    requires
        i < old(v)@.len(),
        j < old(v)@.len(),
    ensures
        final(v)@ == swapped(old(v)@, i as int, j as int),
{
    let last: usize = v.len() - 1;
    if i == j {
        assert(v@ =~= swapped(v@, i as int, j as int));
    } else if j == last {
        swap_with_last(v, i);
    } else if i == last {
        swap_with_last(v, j);
        assert(v@ =~= swapped(old(v)@, i as int, j as int));
    } else {
        swap_with_last(v, i);
        swap_with_last(v, j);
        swap_with_last(v, i);
        assert(v@ =~= swapped(old(v)@, i as int, j as int));
    }
}

/// The position above `i` in the tree that the array spells out.
pub open spec fn parent(i: int) -> int {
    (i - 1) / 2
}

/// No record is earlier than the one above it.
pub open spec fn heap_ordered<A>(s: Seq<Record<A>>) -> bool {
    forall|i: int| 0 < i < s.len() ==> s[parent(i)].timestamp <= (#[trigger] s[i]).timestamp
}

/// The order holds everywhere but between `hole` and the record above it,
/// and the records below `hole` are no earlier than the record above it.
spec fn ordered_but_above<A>(s: Seq<Record<A>>, hole: int) -> bool {
    &&& forall|i: int|
        0 < i < s.len() && i != hole ==> s[parent(i)].timestamp <= (#[trigger] s[i]).timestamp
    &&& forall|i: int|
        0 < i < s.len() && parent(i) == hole && hole > 0 ==> s[parent(hole)].timestamp <= (
        #[trigger] s[i]).timestamp
}

/// The order holds everywhere but between `hole` and the records below it,
/// and the records below `hole` are no earlier than the record above it.
spec fn ordered_but_below<A>(s: Seq<Record<A>>, hole: int) -> bool {
    &&& forall|i: int|
        0 < i < s.len() && parent(i) != hole ==> s[parent(i)].timestamp <= (
        #[trigger] s[i]).timestamp
    &&& forall|i: int|
        0 < i < s.len() && parent(i) == hole && hole > 0 ==> s[parent(hole)].timestamp <= (
        #[trigger] s[i]).timestamp
}

/// In an ordered array the first record is the earliest.
proof fn lemma_root_is_earliest<A>(s: Seq<Record<A>>, i: int)
    requires
        heap_ordered(s),
        0 <= i < s.len(),
    ensures
        s[0].timestamp <= s[i].timestamp,
    decreases i,
{
    if i > 0 {
        lemma_root_is_earliest(s, parent(i));
    }
}

/// Moves the record at `start` up until the record above it is no later.
fn sift_up<A>(items: &mut Vec<Record<A>>, start: usize)
    requires
        start < old(items)@.len(),
        ordered_but_above(old(items)@, start as int),
    ensures
        heap_ordered(final(items)@),
        final(items)@.to_multiset() == old(items)@.to_multiset(),
        final(items)@.len() == old(items)@.len(),
{
    let mut i: usize = start;
    while i > 0 && items[i].timestamp < items[(i - 1) / 2].timestamp
        invariant
            i < items@.len(),
            items@.len() == old(items)@.len(),
            items@.to_multiset() == old(items)@.to_multiset(),
            ordered_but_above(items@, i as int),
        decreases i,
    {
        let up: usize = (i - 1) / 2;
        let ghost before = items@;
        swap_items(items, i, up);
        proof {
            lemma_swapped_multiset(before, i as int, up as int);
            assert forall|k: int| 0 < k < items@.len() && k != up implies items@[parent(
                k,
            )].timestamp <= (#[trigger] items@[k]).timestamp by {
                if k == i {
                } else if parent(k) == up {
                    assert(before[parent(k)].timestamp <= before[k].timestamp);
                } else if parent(k) == i {
                    assert(before[parent(i as int)].timestamp <= before[k].timestamp);
                } else {
                    assert(before[parent(k)].timestamp <= before[k].timestamp);
                }
            }
            assert forall|k: int|
                0 < k < items@.len() && parent(k) == up && up > 0 implies items@[parent(
                up as int,
            )].timestamp <= (#[trigger] items@[k]).timestamp by {
                assert(before[parent(up as int)].timestamp <= before[up as int].timestamp);
                if k != i {
                    assert(before[parent(k)].timestamp <= before[k].timestamp);
                }
            }
        }
        i = up;
    }
}

/// Moves the first record down until the records below it are no earlier.
fn sift_down<A>(items: &mut Vec<Record<A>>)
    requires
        old(items)@.len() > 0,
        ordered_but_below(old(items)@, 0),
    ensures
        heap_ordered(final(items)@),
        final(items)@.to_multiset() == old(items)@.to_multiset(),
        final(items)@.len() == old(items)@.len(),
{
    let len: usize = items.len();
    let mut i: usize = 0;
    let mut settled: bool = false;
    while !settled
        invariant
            i < items@.len(),
            len == items@.len(),
            items@.len() == old(items)@.len(),
            items@.to_multiset() == old(items)@.to_multiset(),
            !settled ==> ordered_but_below(items@, i as int),
            settled ==> heap_ordered(items@),
        decreases len - i, (if settled { 0int } else { 1int }),
    {
        if len < 2 || i > (len - 2) / 2 {
            settled = true;
            assert forall|k: int| 0 < k < items@.len() implies items@[parent(k)].timestamp <= (
            #[trigger] items@[k]).timestamp by {
                assert(parent(k) != i as int);
            }
        } else {
            let left: usize = 2 * i + 1;
            let right: usize = left + 1;
            let child: usize = if right < len && items[right].timestamp < items[left].timestamp {
                right
            } else {
                left
            };
            if items[child].timestamp < items[i].timestamp {
                let ghost before = items@;
                swap_items(items, i, child);
                proof {
                    lemma_swapped_multiset(before, i as int, child as int);
                    assert forall|k: int|
                        0 < k < items@.len() && parent(k) != child as int implies items@[parent(
                        k,
                    )].timestamp <= (#[trigger] items@[k]).timestamp by {
                        if k == child as int {
                        } else if parent(k) == i as int {
                        } else if k == i as int {
                            assert(before[parent(i as int)].timestamp <= before[child as int].timestamp);
                        } else {
                            assert(before[parent(k)].timestamp <= before[k].timestamp);
                        }
                    }
                    assert forall|k: int|
                        0 < k < items@.len() && parent(k) == child as int
                            && child > 0 implies items@[parent(child as int)].timestamp <= (
                    #[trigger] items@[k]).timestamp by {
                        assert(before[parent(k)].timestamp <= before[k].timestamp);
                    }
                }
                i = child;
            } else {
                settled = true;
                assert forall|k: int| 0 < k < items@.len() implies items@[parent(
                    k,
                )].timestamp <= (#[trigger] items@[k]).timestamp by {
                    if parent(k) == i as int {
                        assert(k == left as int || k == right as int);
                    }
                }
            }
        }
    }
}

/// Whether `r` is in `m` and no record of `m` is earlier.
pub open spec fn is_earliest<A>(m: Multiset<Record<A>>, r: Record<A>) -> bool {
    &&& m.count(r) > 0
    &&& forall|o: Record<A>| m.count(o) > 0 ==> r.timestamp <= o.timestamp
}

/// Records in a binary heap, the earliest on top. The view is the multiset
/// of the records held.
pub struct RecordHeap<A> {
    items: Vec<Record<A>>,
}

impl<A> View for RecordHeap<A> {
    type V = Multiset<Record<A>>;

    closed spec fn view(&self) -> Multiset<Record<A>> {
        self.items@.to_multiset()
    }
}

impl<A> RecordHeap<A> {
    /// The array spells out a tree in which no record is earlier than the
    /// one above it.
    pub closed spec fn wf(&self) -> bool {
        heap_ordered(self.items@)
    }

    /// An empty heap.
    pub fn new() -> (heap: Self)
        ensures
            heap.wf(),
            heap@ == Multiset::<Record<A>>::empty(),
    {
        let heap = RecordHeap { items: Vec::new() };
        assert(heap.items@.to_multiset() =~= Multiset::<Record<A>>::empty()) by {
            to_multiset_len(heap.items@);
        }
        heap
    }

    /// The number of records held.
    pub fn len(&self) -> (n: usize)
        ensures
            n == self@.len(),
    {
        proof {
            to_multiset_len(self.items@);
        }
        self.items.len()
    }

    /// The earliest record, if there is any.
    pub fn peek(&self) -> (top: Option<&Record<A>>)
        requires
            self.wf(),
        ensures
            match top {
                Some(r) => is_earliest(self@, *r),
                None => self@.len() == 0,
            },
    {
        proof {
            to_multiset_len(self.items@);
        }
        if self.items.len() == 0 {
            None
        } else {
            proof {
                self.lemma_first_is_earliest();
            }
            Some(&self.items[0])
        }
    }

    proof fn lemma_first_is_earliest(&self)
        requires
            self.wf(),
            self.items@.len() > 0,
        ensures
            is_earliest(self@, self.items@[0]),
    {
        let s = self.items@;
        assert(s.contains(s[0]));
        to_multiset_contains(s, s[0]);
        assert forall|o: Record<A>| self@.count(o) > 0 implies s[0].timestamp <= o.timestamp by {
            to_multiset_contains(s, o);
            let k = choose|k: int| 0 <= k < s.len() && s[k] == o;
            lemma_root_is_earliest(s, k);
        }
    }

    /// Adds a record.
    pub fn push(&mut self, record: Record<A>)
        requires
            old(self).wf(),
        ensures
            final(self).wf(),
            final(self)@ == old(self)@.insert(record),
    {
        let ghost before = self.items@;
        self.items.push(record);
        proof {
            vstd::seq_lib::to_multiset_build(before, record);
            assert forall|k: int|
                0 < k < self.items@.len() && k != before.len() implies self.items@[parent(
                k,
            )].timestamp <= (#[trigger] self.items@[k]).timestamp by {
                assert(before[parent(k)].timestamp <= before[k].timestamp);
            }
        }
        let at: usize = self.items.len() - 1;
        sift_up(&mut self.items, at);
    }

    /// Takes the earliest record out, if there is any.
    pub fn pop(&mut self) -> (top: Option<Record<A>>)
        requires
            old(self).wf(),
        ensures
            final(self).wf(),
            match top {
                Some(r) => is_earliest(old(self)@, r) && final(self)@ == old(self)@.remove(r),
                None => old(self)@.len() == 0 && final(self)@ == old(self)@,
            },
    {
        proof {
            to_multiset_len(self.items@);
        }
        if self.items.len() == 0 {
            return None;
        }
        let ghost before = self.items@;
        proof {
            self.lemma_first_is_earliest();
        }
        let top = self.items.swap_remove(0);
        proof {
            let moved = before.update(0, before.last());
            lemma_update_multiset(before, 0, before.last());
            to_multiset_remove(moved, moved.len() - 1);
            assert(moved.remove(moved.len() - 1) =~= moved.drop_last());
            assert(self.items@.to_multiset() =~= before.to_multiset().remove(top));
        }
        if self.items.len() > 0 {
            proof {
                assert forall|k: int|
                    0 < k < self.items@.len() && parent(k) != 0 implies self.items@[parent(
                    k,
                )].timestamp <= (#[trigger] self.items@[k]).timestamp by {
                    assert(before[parent(k)].timestamp <= before[k].timestamp);
                }
            }
            sift_down(&mut self.items);
        }
        Some(top)
    }

    /// Takes every record out, in no particular order.
    pub fn take_all(&mut self) -> (records: Vec<Record<A>>)
        ensures
            final(self).wf(),
            final(self)@ == Multiset::<Record<A>>::empty(),
            records@.to_multiset() == old(self)@,
    {
        let mut records: Vec<Record<A>> = Vec::new();
        core::mem::swap(&mut self.items, &mut records);
        assert(self.items@.to_multiset() =~= Multiset::<Record<A>>::empty()) by {
            to_multiset_len(self.items@);
        }
        records
    }
}

} // verus!
