//! Timers that fire in the order of their deadlines.

use crate::common::heap::is_earliest;
use crate::common::heap::RecordHeap;
use crate::common::record::Record;
use vstd::multiset::Multiset;
use vstd::prelude::*;
use vstd::seq_lib::to_multiset_build;
use vstd::seq_lib::to_multiset_contains;
use vstd::seq_lib::to_multiset_len;

verus! {

/// The timers of `m` whose deadline has come at `now`.
pub open spec fn due<A>(m: Multiset<Record<A>>, now: u64) -> Multiset<Record<A>> {
    m.filter(|r: Record<A>| r.timestamp <= now)
}

/// The timers of `m` whose deadline lies after `now`.
pub open spec fn pending<A>(m: Multiset<Record<A>>, now: u64) -> Multiset<Record<A>> {
    m.filter(|r: Record<A>| r.timestamp > now)
}

/// No record stands before an earlier one.
pub open spec fn in_time_order<A>(s: Seq<Record<A>>) -> bool {
    forall|i: int, j: int| 0 <= i <= j < s.len() ==> s[i].timestamp <= s[j].timestamp
}

/// The values of the records, in the order of the records.
pub open spec fn values_of<A>(s: Seq<Record<A>>) -> Seq<A> {
    s.map_values(|r: Record<A>| r.value)
}

/// The time from `now` to `deadline`, zero if the deadline has passed.
pub open spec fn time_until(deadline: u64, now: u64) -> u64 {
    if deadline > now {
        (deadline - now) as u64
    } else {
        0
    }
}

/// A set of timers, each a deadline with a key. The view is the multiset of
/// the timers that have not fired.
pub struct Timer<A> {
    timers: RecordHeap<A>,
}

impl<A> View for Timer<A> {
    type V = Multiset<Record<A>>;

    closed spec fn view(&self) -> Multiset<Record<A>> {
        self.timers@
    }
}

impl<A> Timer<A> {
    /// The timers are kept in heap order.
    pub closed spec fn wf(&self) -> bool {
        self.timers.wf()
    }

    /// No timers.
    pub fn new() -> (timer: Timer<A>)
        ensures
            timer.wf(),
            timer@ == Multiset::<Record<A>>::empty(),
    {
        Timer { timers: RecordHeap::new() }
    }

    /// Sets a timer that fires `timer_key` once the clock has reached `time`.
    pub fn add_timer(&mut self, time: u64, timer_key: A)
        requires
            old(self).wf(),
        ensures
            final(self).wf(),
            final(self)@ == old(self)@.insert(Record { timestamp: time, value: timer_key }),
    {
        self.timers.push(Record { timestamp: time, value: timer_key });
    }

    /// Takes out every timer whose deadline is `now` or earlier and returns
    /// their keys, earlier deadlines first. The timers with a later deadline
    /// stay.
    pub fn remove_expired_timers(&mut self, now: u64) -> (keys: Vec<A>)
        requires
            old(self).wf(),
        ensures
            final(self).wf(),
            final(self)@ == pending(old(self)@, now),
            keys@.len() == due(old(self)@, now).len(),
            exists|fired: Seq<Record<A>>|
                {
                    &&& fired.to_multiset() == due(old(self)@, now)
                    &&& in_time_order(fired)
                    &&& keys@ == #[trigger] values_of(fired)
                },
    {
        let mut keys: Vec<A> = Vec::new();
        let ghost mut fired: Seq<Record<A>> = Seq::empty();
        let ghost mut latest: u64 = 0;
        let mut more: bool = true;
        proof {
            to_multiset_len(fired);
            assert(fired.to_multiset() =~= Multiset::<Record<A>>::empty());
            assert(fired.to_multiset().add(self@) =~= old(self)@);
            assert(keys@ =~= values_of(fired));
        }
        while more
            invariant
                self.wf(),
                fired.to_multiset().add(self@) == old(self)@,
                in_time_order(fired),
                forall|i: int| 0 <= i < fired.len() ==> fired[i].timestamp <= now,
                forall|i: int| 0 <= i < fired.len() ==> fired[i].timestamp <= latest,
                forall|r: Record<A>| self@.count(r) > 0 ==> latest <= r.timestamp,
                keys@ == values_of(fired),
                !more ==> forall|r: Record<A>| self@.count(r) > 0 ==> r.timestamp > now,
            decreases self@.len(), (if more { 1int } else { 0int }),
        {
            let is_due = match self.timers.peek() {
                Some(top) => top.timestamp <= now,
                None => false,
            };
            if is_due {
                let ghost before = self@;
                let top = self.timers.pop();
                let record = top.unwrap();
                proof {
                    let next = fired.push(record);
                    to_multiset_build(fired, record);
                    assert(next.to_multiset().add(self@) =~= old(self)@);
                    assert forall|i: int, j: int| 0 <= i <= j < next.len() implies next[i].timestamp
                        <= next[j].timestamp by {
                        if j == fired.len() && i < j {
                            assert(fired[i].timestamp <= latest);
                        }
                    }
                    assert forall|r: Record<A>| self@.count(r) > 0 implies record.timestamp
                        <= r.timestamp by {
                        assert(before.count(r) > 0);
                    }
                    latest = record.timestamp;
                    assert(values_of(next) =~= values_of(fired).push(record.value));
                    fired = next;
                }
                keys.push(record.value);
            } else {
                more = false;
                proof {
                    assert forall|r: Record<A>| self@.count(r) > 0 implies r.timestamp > now by {
                        if self@.len() == 0 {
                        }
                    }
                }
            }
        }
        proof {
            assert forall|r: Record<A>| fired.to_multiset().count(r) > 0 implies r.timestamp
                <= now by {
                to_multiset_contains(fired, r);
                let k = choose|k: int| 0 <= k < fired.len() && fired[k] == r;
                assert(fired[k].timestamp <= now);
            }
            assert(self@ =~= pending(old(self)@, now));
            assert(fired.to_multiset() =~= due(old(self)@, now));
            to_multiset_len(fired);
        }
        keys
    }

    /// How long to wait at `now` for the earliest deadline: nothing where it
    /// has passed or no timer is set.
    pub fn duration_until_next_timer(&self, now: u64) -> (wait: u64)
        requires
            self.wf(),
        ensures
            self@.len() == 0 ==> wait == 0,
            self@.len() > 0 ==> exists|r: Record<A>|
                #[trigger] is_earliest(self@, r) && wait == time_until(r.timestamp, now),
    {
        match self.timers.peek() {
            Some(top) => {
                if top.timestamp > now {
                    top.timestamp - now
                } else {
                    0
                }
            },
            None => 0,
        }
    }
}

} // verus!
