//! The ring that batches travel on: the names of the cluster in their
//! order, each handing on to the names that follow it.

use crate::common::message::NodeId;
use crate::common::order::compare_names;
use crate::common::order::lemma_name_lt_total;
use crate::common::order::lemma_name_lt_transitive;
use crate::common::order::name_lt;
use crate::common::order::Precedence;
use vstd::prelude::*;

verus! {

/// Every name comes before the names after it.
pub open spec fn increasing(names: Seq<Seq<char>>) -> bool {
    forall|i: int, j: int| 0 <= i < j < names.len() ==> name_lt(names[i], names[j])
}

/// `ring` holds the names of the cluster, each once, in their order.
pub open spec fn is_ring(ring: Seq<Seq<char>>, cluster: Seq<Seq<char>>) -> bool {
    increasing(ring) && ring.to_set() == cluster.to_set()
}

/// The position `steps` after `at` on a ring of `len` names, for `steps`
/// up to `len`.
pub open spec fn ring_position(at: int, steps: int, len: int) -> int {
    if at + steps < len {
        at + steps
    } else {
        at + steps - len
    }
}

/// How many names follow a name on the ring: `limit`, or all the others
/// where they are fewer.
pub open spec fn successor_count(ring_len: nat, limit: nat) -> nat {
    if ring_len == 0 {
        0
    } else if ring_len - 1 < limit {
        (ring_len - 1) as nat
    } else {
        limit
    }
}

/// The names that follow the name at `at`, in the order of the ring and
/// round its end, `limit` of them at most and never the name itself.
pub open spec fn successors(ring: Seq<Seq<char>>, at: int, limit: nat) -> Seq<Seq<char>> {
    Seq::new(
        successor_count(ring.len(), limit),
        |i: int| ring[ring_position(at, i + 1, ring.len() as int)],
    )
}

/// An increasing sequence holds no name twice.
pub proof fn lemma_increasing_distinct(names: Seq<Seq<char>>)
    requires
        increasing(names),
    ensures
        names.no_duplicates(),
        names.len() == names.to_set().len(),
{
    assert forall|i: int, j: int| 0 <= i < names.len() && 0 <= j < names.len() && i != j implies names[i]
        != names[j] by {
        lemma_name_lt_total(names[i], names[j]);
        if i < j {
            assert(name_lt(names[i], names[j]));
        } else {
            assert(name_lt(names[j], names[i]));
        }
    }
    names.unique_seq_to_set();
}

/// The names that follow a name on the ring are as many as the limit
/// allows, or all the other names of the cluster, and the name itself is
/// not among them.
pub proof fn lemma_successors(ring: Seq<Seq<char>>, at: int, limit: nat)
    requires
        increasing(ring),
        0 <= at < ring.len(),
    ensures
        successors(ring, at, limit).len() == successor_count(ring.to_set().len(), limit),
        !successors(ring, at, limit).contains(ring[at]),
        successors(ring, at, limit).no_duplicates(),
        forall|i: int|
            0 <= i < successors(ring, at, limit).len() ==> ring.contains(
                #[trigger] successors(ring, at, limit)[i],
            ),
{
    lemma_increasing_distinct(ring);
    let next = successors(ring, at, limit);
    let len = ring.len() as int;
    assert forall|i: int| 0 <= i < next.len() implies next[i] != ring[at] && ring.contains(
        #[trigger] next[i],
    ) by {
        let p = ring_position(at, i + 1, len);
        assert(0 <= p < len && p != at);
        assert(next[i] == ring[p]);
    }
    assert forall|i: int, j: int| 0 <= i < next.len() && 0 <= j < next.len() && i != j implies next[i]
        != next[j] by {
        let p = ring_position(at, i + 1, len);
        let q = ring_position(at, j + 1, len);
        assert(0 <= p < len && 0 <= q < len && p != q);
    }
}

/// Puts `id` into `ring` at its place in the order, unless a node of that
/// name is there already.
pub fn insert_sorted(ring: &mut Vec<NodeId>, id: NodeId)
    requires
        increasing(old(ring).deep_view()),
    ensures
        increasing(final(ring).deep_view()),
        final(ring).deep_view().to_set() == old(ring).deep_view().to_set().insert(id@),
{
    let ghost before = ring.deep_view();
    let mut i: usize = 0;
    while i < ring.len() && compare_names(ring[i].as_str(), id.as_str()) == Precedence::Before
        invariant
            i <= ring@.len(),
            ring.deep_view() == before,
            forall|k: int| 0 <= k < i ==> name_lt(before[k], id@),
        decreases ring@.len() - i,
    {
        assert(before[i as int] == ring@[i as int]@);
        i += 1;
    }
    if i < ring.len() && compare_names(ring[i].as_str(), id.as_str()) == Precedence::Same {
        proof {
            assert(before[i as int] == id@);
            assert(before.contains(id@));
            assert(before.to_set().insert(id@) =~= before.to_set());
        }
        return;
    }
    proof {
        if i < ring@.len() {
            assert(before[i as int] == ring@[i as int]@);
            lemma_name_lt_total(before[i as int], id@);
            assert(name_lt(id@, before[i as int]));
        }
        assert forall|k: int| i <= k < before.len() implies name_lt(id@, before[k]) by {
            if k > i {
                lemma_name_lt_transitive(id@, before[i as int], before[k]);
            }
        }
    }
    ring.insert(i, id);
    proof {
        let after = ring.deep_view();
        assert(after =~= before.insert(i as int, id@));
        assert forall|x: int, y: int| 0 <= x < y < after.len() implies name_lt(after[x], after[y]) by {
            if y < i as int {
                assert(name_lt(before[x], before[y]));
            } else if y == i as int {
            } else if x < i as int {
                assert(name_lt(before[x], before[y - 1]));
            } else if x == i as int {
            } else {
                assert(name_lt(before[x - 1], before[y - 1]));
            }
        }
        assert forall|name: Seq<char>| after.to_set().contains(name) <==> before.to_set().insert(
            id@,
        ).contains(name) by {
            if after.contains(name) {
                let k = choose|k: int| 0 <= k < after.len() && after[k] == name;
                if k < i as int {
                    assert(before[k] == name);
                } else if k > i as int {
                    assert(before[k - 1] == name);
                }
            }
            if before.contains(name) {
                let k = choose|k: int| 0 <= k < before.len() && before[k] == name;
                if k < i as int {
                    assert(after[k] == name);
                } else {
                    assert(after[k + 1] == name);
                }
            }
            if name == id@ {
                assert(after[i as int] == name);
            }
        }
        assert(after.to_set() =~= before.to_set().insert(id@));
    }
}

/// The names of the cluster, each once, in their order.
pub fn ring_of(cluster: &Vec<NodeId>) -> (ring: Vec<NodeId>)
    ensures
        is_ring(ring.deep_view(), cluster.deep_view()),
{
    let mut ring: Vec<NodeId> = Vec::new();
    let mut i: usize = 0;
    proof {
        assert(ring.deep_view().to_set() =~= cluster.deep_view().take(0).to_set());
    }
    while i < cluster.len()
        invariant
            i <= cluster@.len(),
            increasing(ring.deep_view()),
            ring.deep_view().to_set() == cluster.deep_view().take(i as int).to_set(),
        decreases cluster@.len() - i,
    {
        proof {
            let done = cluster.deep_view().take(i as int);
            assert(cluster.deep_view().take(i + 1) =~= done.push(cluster@[i as int]@));
            done.lemma_push_to_set_commute(cluster@[i as int]@);
        }
        insert_sorted(&mut ring, cluster[i].clone());
        i += 1;
    }
    assert(cluster.deep_view().take(i as int) =~= cluster.deep_view());
    ring
}

/// The first place of the name of `id` in `ring`, if it is there.
pub fn position_of(ring: &Vec<NodeId>, id: &NodeId) -> (at: Option<usize>)
    ensures
        match at {
            Some(at) => {
                &&& at < ring@.len()
                &&& ring.deep_view()[at as int] == id@
                &&& forall|k: int| 0 <= k < at ==> ring.deep_view()[k] != id@
            },
            None => !ring.deep_view().contains(id@),
        },
{
    let mut i: usize = 0;
    while i < ring.len()
        invariant
            i <= ring@.len(),
            forall|k: int| 0 <= k < i ==> ring.deep_view()[k] != id@,
        decreases ring@.len() - i,
    {
        if ring[i] == *id {
            assert(ring.deep_view()[i as int] == id@);
            return Some(i);
        }
        i += 1;
    }
    None
}

/// The nodes that follow the node at `at` on the ring, `limit` at most.
pub fn successors_of(ring: &Vec<NodeId>, at: usize, limit: usize) -> (next: Vec<NodeId>)
    requires
        at < ring@.len(),
    ensures
        next.deep_view() == successors(ring.deep_view(), at as int, limit as nat),
{
    let count: usize = if ring.len() - 1 < limit {
        ring.len() - 1
    } else {
        limit
    };
    let mut next: Vec<NodeId> = Vec::new();
    let mut position: usize = at;
    let mut i: usize = 0;
    while i < count
        invariant
            i <= count,
            count == successor_count(ring@.len(), limit as nat),
            at < ring@.len(),
            position < ring@.len(),
            position == ring_position(at as int, i as int, ring@.len() as int),
            next@.len() == i,
            next.deep_view() == successors(ring.deep_view(), at as int, limit as nat).take(i as int),
        decreases count - i,
    {
        position = if position == ring.len() - 1 {
            0
        } else {
            position + 1
        };
        let ghost so_far = next.deep_view();
        next.push(ring[position].clone());
        proof {
            assert(next.deep_view() =~= so_far.push(ring@[position as int]@));
            assert(next.deep_view() =~= successors(
                ring.deep_view(),
                at as int,
                limit as nat,
            ).take(i + 1));
        }
        i += 1;
    }
    assert(next.deep_view() =~= successors(ring.deep_view(), at as int, limit as nat));
    next
}

} // verus!
