//! The LRU-K replacement policy.
use vstd::prelude::*;
use std::collections::HashMap;
use std::collections::VecDeque;
use vstd::std_specs::hash::group_hash_axioms;
use vstd::std_specs::iter::IteratorSpec;
use crate::replacer::Replacer;
use crate::typedef::FrameId;

verus! {

broadcast use group_hash_axioms;

/// What the replacer knows of one frame: its recorded access timestamps,
/// oldest first, and whether it may be evicted.
pub struct NodeView {
    pub history: Seq<u64>,
    pub is_evictable: bool,
}

/// The backward K-distance at time `now` of a frame with the given access
/// history: the time since its oldest recorded access if it has `k` recorded
/// accesses, and the largest distance (standing for infinity) otherwise.
pub open spec fn spec_k_distance(history: Seq<u64>, k: nat, now: u64) -> u64 {
    if history.len() < k {
        u64::MAX
    } else {
        (now - history[0]) as u64
    }
}

/// The access history after one more access at time `timestamp`, keeping the
/// last `k` accesses.
pub open spec fn spec_record(history: Seq<u64>, k: nat, timestamp: u64) -> Seq<u64> {
    let longer = history.push(timestamp);
    if longer.len() > k {
        longer.subrange(1, longer.len() as int)
    } else {
        longer
    }
}

/// Whether the timestamps of `history` grow strictly from first to last.
pub open spec fn spec_increasing(history: Seq<u64>) -> bool {
    forall|i: int, j: int| 0 <= i < j < history.len() ==> history[i] < history[j]
}

/// The time of the oldest recorded access of a history, and -1 for a frame
/// that has no recorded access: it counts as older than every access.
pub open spec fn spec_first_access(history: Seq<u64>) -> int {
    if history.len() == 0 {
        -1
    } else {
        history[0] as int
    }
}

/// Whether a frame with history `a` is a better victim at time `now` than one
/// with history `b`: its backward K-distance is larger, or the distances are
/// equal and its oldest recorded access is older. The distance of a frame
/// with fewer than `k` recorded accesses is infinite: larger than that of
/// any frame with `k` of them. A frame without a recorded access counts as
/// older than any frame with one.
pub open spec fn spec_better_victim(a: Seq<u64>, b: Seq<u64>, k: nat, now: u64) -> bool {
    let da = spec_k_distance(a, k, now);
    let db = spec_k_distance(b, k, now);
    if (a.len() < k) != (b.len() < k) {
        a.len() < k
    } else {
        da > db || (da == db && spec_first_access(a) < spec_first_access(b))
    }
}

/// A node of the LRU-K replacer: the access history and evictability of one frame.
#[derive(Debug)]
pub struct LrukNode {
    frame_id: FrameId,
    is_evictable: bool,
    history: VecDeque<u64>,
    k: usize,
}

impl View for LrukNode {
    type V = NodeView;

    closed spec fn view(&self) -> NodeView {
        NodeView { history: self.history@, is_evictable: self.is_evictable }
    }
}

impl LrukNode {
    /// The frame this node stands for.
    pub closed spec fn spec_frame_id(&self) -> FrameId {
        self.frame_id
    }

    /// The number of accesses this node keeps.
    pub closed spec fn spec_k(&self) -> usize {
        self.k
    }

    /// A node keeps at most `k` timestamps, in strictly increasing order.
    pub open spec fn wf(&self) -> bool {
        &&& self.spec_k() >= 1
        &&& self@.history.len() <= self.spec_k()
        &&& spec_increasing(self@.history)
    }

    /// Creates a node with an empty history, which is not evictable by default.
    pub fn new(frame_id: FrameId, k: usize) -> (node: LrukNode)
        requires
            k >= 1,
        ensures
            node.wf(),
            node.spec_frame_id() == frame_id,
            node.spec_k() == k,
            node@.history == Seq::<u64>::empty(),
            !node@.is_evictable,
    {
        LrukNode { frame_id, is_evictable: false, history: VecDeque::new(), k }
    }

    /// Checks if the node has an infinite backward K-distance.
    pub fn has_inf_backward_k_dist(&self) -> (infinite: bool)
        ensures
            infinite == (self@.history.len() < self.spec_k()),
    {
        self.history.len() < self.k
    }

    /// Gets the earliest recorded timestamp.
    pub fn get_earliest_timestamp(&self) -> (timestamp: u64)
        requires
            self@.history.len() > 0,
        ensures
            timestamp == self@.history[0],
    {
        self.history[0]
    }

    /// The earliest recorded timestamp, if there is a recorded access.
    pub fn earliest_access(&self) -> (timestamp: Option<u64>)
        ensures
            match timestamp {
                Some(t) => self@.history.len() > 0 && t == self@.history[0],
                None => self@.history.len() == 0,
            },
    {
        if self.history.len() > 0 {
            Some(self.history[0])
        } else {
            None
        }
    }

    /// Calculates the backward K-distance of this node.
    pub fn get_backwards_k_distance(&self, current_timestamp: u64) -> (distance: u64)
        requires
            self.spec_k() >= 1,
            self@.history.len() >= self.spec_k() ==> self@.history[0] <= current_timestamp,
        ensures
            distance == spec_k_distance(self@.history, self.spec_k() as nat, current_timestamp),
    {
        if self.has_inf_backward_k_dist() {
            u64::MAX
        } else {
            current_timestamp - self.history[0]
        }
    }

    /// Inserts a new access timestamp, maintaining the last K timestamps.
    pub fn insert_history_timestamp(&mut self, current_timestamp: u64)
        requires
            old(self).wf(),
            old(self)@.history.len() == 0 || old(self)@.history.last() < current_timestamp,
        ensures
            final(self).wf(),
            final(self).spec_frame_id() == old(self).spec_frame_id(),
            final(self).spec_k() == old(self).spec_k(),
            final(self)@.is_evictable == old(self)@.is_evictable,
            final(self)@.history == spec_record(
                old(self)@.history,
                old(self).spec_k() as nat,
                current_timestamp,
            ),
    {
        self.history.push_back(current_timestamp);
        if self.history.len() > self.k {
            self.history.pop_front();
        }
    }
}

/// The abstract state of an LRU-K replacer.
pub struct LrukView {
    /// What is known of each tracked frame.
    pub nodes: Map<FrameId, NodeView>,
    /// The logical clock: the timestamp that the next access gets.
    pub timestamp: u64,
    /// The number of accesses kept for each frame.
    pub k: usize,
}

impl LrukView {
    /// The access history of a frame, empty if the frame is not tracked.
    pub open spec fn history_of(self, frame_id: FrameId) -> Seq<u64> {
        if self.nodes.contains_key(frame_id) {
            self.nodes[frame_id].history
        } else {
            Seq::empty()
        }
    }

    /// Whether a frame is tracked and evictable.
    pub open spec fn is_evictable(self, frame_id: FrameId) -> bool {
        self.nodes.contains_key(frame_id) && self.nodes[frame_id].is_evictable
    }

    /// The frames that are tracked and evictable.
    pub open spec fn evictable(self) -> Set<FrameId> {
        Set::new(|frame_id: FrameId| self.is_evictable(frame_id))
    }

    /// The tracked frames with at least one recorded access.
    pub open spec fn accessed(self) -> Set<FrameId> {
        Set::new(
            |frame_id: FrameId|
                self.nodes.contains_key(frame_id) && self.nodes[frame_id].history.len() > 0,
        )
    }

    /// Whether `victim` is a frame that the LRU-K policy evicts: it is
    /// evictable and no other evictable frame is a better victim. Among the
    /// frames with a recorded access there is one such frame; among frames
    /// without a recorded access the choice is open.
    pub open spec fn is_victim(self, victim: FrameId) -> bool {
        &&& self.is_evictable(victim)
        &&& forall|other: FrameId|
            #![trigger self.nodes[other]]
            self.is_evictable(other) && other != victim ==> !spec_better_victim(
                self.nodes[other].history,
                self.nodes[victim].history,
                self.k as nat,
                self.timestamp,
            )
    }

    /// The invariant of the abstract state: histories hold at most `k`
    /// timestamps, all in the past and strictly increasing, and no timestamp
    /// occurs in the histories of two frames.
    pub open spec fn inv(self) -> bool {
        &&& self.k >= 1
        &&& self.nodes.dom().finite()
        &&& forall|frame_id: FrameId|
            #![trigger self.nodes[frame_id]]
            self.nodes.contains_key(frame_id) ==> {
                &&& self.nodes[frame_id].history.len() <= self.k
                &&& spec_increasing(self.nodes[frame_id].history)
                &&& forall|i: int|
                    0 <= i < self.nodes[frame_id].history.len()
                        ==> self.nodes[frame_id].history[i] < self.timestamp
            }
        &&& forall|f: FrameId, g: FrameId, i: int, j: int|
            #![trigger self.nodes[f].history[i], self.nodes[g].history[j]]
            self.nodes.contains_key(f) && self.nodes.contains_key(g) && f != g && 0 <= i
                < self.nodes[f].history.len() && 0 <= j < self.nodes[g].history.len()
                ==> self.nodes[f].history[i] != self.nodes[g].history[j]
    }
}

/// Where every evictable frame has a recorded access, no two frames are
/// the victim of the same state: the policy picks one frame.
pub proof fn lemma_victim_is_unique(state: LrukView, first: FrameId, second: FrameId)
    requires
        state.inv(),
        state.evictable().subset_of(state.accessed()),
        state.is_victim(first),
        state.is_victim(second),
    ensures
        first == second,
{
    if first != second {
        assert(state.evictable().contains(first));
    }
}

/// If an evictable frame has fewer than `k` recorded accesses, then so has
/// the victim, and no such frame has an older first recorded access than the
/// victim.
pub proof fn lemma_victim_has_short_history(state: LrukView, victim: FrameId, other: FrameId)
    requires
        state.inv(),
        state.is_victim(victim),
        state.is_evictable(other),
        state.nodes[other].history.len() < state.k,
    ensures
        state.nodes[victim].history.len() < state.k,
        spec_first_access(state.nodes[victim].history) <= spec_first_access(
            state.nodes[other].history,
        ),
{
    if victim != other {
    }
}

/// Implements the LRU-K replacement policy.
#[derive(Debug)]
pub struct LrukReplacer {
    node_store: HashMap<FrameId, LrukNode>,
    evictable_size: usize,
    current_timestamp: u64,
    k: usize,
}

impl View for LrukReplacer {
    type V = LrukView;

    closed spec fn view(&self) -> LrukView {
        LrukView {
            nodes: Map::new(
                |frame_id: FrameId| self.node_store@.contains_key(frame_id),
                |frame_id: FrameId| self.node_store@[frame_id]@,
            ),
            timestamp: self.current_timestamp,
            k: self.k,
        }
    }
}

impl LrukReplacer {
    /// What ties the stored nodes and the evictable counter to the abstract state.
    pub closed spec fn repr_ok(&self) -> bool {
        &&& forall|frame_id: FrameId|
            #![trigger self.node_store@[frame_id]]
            self.node_store@.contains_key(frame_id) ==> {
                &&& self.node_store@[frame_id].spec_frame_id() == frame_id
                &&& self.node_store@[frame_id].spec_k() == self.k
            }
        &&& self@.evictable().finite()
        &&& self.evictable_size == self@.evictable().len()
    }

    /// Whether this replacer differs from `before` in nothing but the clock.
    pub closed spec fn only_clock_differs(&self, before: &LrukReplacer) -> bool {
        &&& self.node_store == before.node_store
        &&& self.evictable_size == before.evictable_size
        &&& self.k == before.k
    }

    /// The invariant of the replacer.
    pub open spec fn wf(&self) -> bool {
        &&& self.repr_ok()
        &&& self@.inv()
    }

    /// Creates a new LRU-K replacer that keeps the last `k` accesses of each frame.
    pub fn new(k: usize) -> (replacer: LrukReplacer)
        requires
            k >= 1,
        ensures
            replacer.wf(),
            replacer@.nodes == Map::<FrameId, NodeView>::empty(),
            replacer@.timestamp == 0,
            replacer@.k == k,
    {
        let replacer = LrukReplacer {
            node_store: HashMap::new(),
            evictable_size: 0,
            current_timestamp: 0,
            k,
        };
        proof {
            assert(replacer@.nodes =~= Map::<FrameId, NodeView>::empty());
            assert(replacer@.evictable() =~= Set::<FrameId>::empty());
        }
        replacer
    }

    /// The timestamp that the next access gets.
    pub fn current_timestamp(&self) -> (timestamp: u64)
        ensures
            timestamp == self@.timestamp,
    {
        self.current_timestamp
    }

    /// Returns the current timestamp and advances the clock by one.
    pub fn advance_timestamp(&mut self) -> (timestamp: u64)
        requires
            old(self)@.timestamp < u64::MAX,
        ensures
            timestamp == old(self)@.timestamp,
            final(self)@.timestamp == old(self)@.timestamp + 1,
            final(self)@.nodes == old(self)@.nodes,
            final(self)@.k == old(self)@.k,
            final(self).only_clock_differs(old(self)),
            old(self).repr_ok() ==> final(self).repr_ok(),
    {
        let old_timestamp = self.current_timestamp;
        self.current_timestamp += 1;
        proof {
            assert(self@.evictable() =~= old(self)@.evictable());
        }
        old_timestamp
    }
}

impl Replacer for LrukReplacer {
    open spec fn wf(&self) -> bool {
        LrukReplacer::wf(self)
    }

    open spec fn evictable(&self) -> Set<FrameId> {
        self@.evictable()
    }

    open spec fn accessed(&self) -> Set<FrameId> {
        self@.accessed()
    }

    open spec fn accesses_left(&self) -> nat {
        (u64::MAX - self@.timestamp) as nat
    }

    /// Unpins a frame, making it evictable; an unknown frame gets an empty history.
    fn unpin(&mut self, frame_id: FrameId)
        ensures
            final(self)@.timestamp == old(self)@.timestamp,
            final(self)@.k == old(self)@.k,
            final(self)@.nodes == old(self)@.nodes.insert(
                frame_id,
                NodeView { history: old(self)@.history_of(frame_id), is_evictable: true },
            ),
    {
        let k = self.k;
        let node = self.node_store.entry(frame_id).or_insert(LrukNode::new(frame_id, k));
        let was_evictable = node.is_evictable;
        node.is_evictable = true;
        proof {
            assert(self@.nodes =~= old(self)@.nodes.insert(
                frame_id,
                NodeView { history: old(self)@.history_of(frame_id), is_evictable: true },
            ));
            assert(self@.evictable() =~= old(self)@.evictable().insert(frame_id));
            vstd::set_lib::lemma_len_subset(self@.evictable(), self.node_store@.dom());
            assert(self.node_store@.dom().len() == vstd::std_specs::hash::spec_hash_map_len(
                &self.node_store,
            ));
        }
        if !was_evictable {
            self.evictable_size += 1;
        }
    }

    /// Pins a frame, making it non-evictable; an unknown frame gets an empty history.
    fn pin(&mut self, frame_id: FrameId)
        ensures
            final(self)@.timestamp == old(self)@.timestamp,
            final(self)@.k == old(self)@.k,
            final(self)@.nodes == old(self)@.nodes.insert(
                frame_id,
                NodeView { history: old(self)@.history_of(frame_id), is_evictable: false },
            ),
    {
        let k = self.k;
        let node = self.node_store.entry(frame_id).or_insert(LrukNode::new(frame_id, k));
        let was_evictable = node.is_evictable;
        node.is_evictable = false;
        proof {
            assert(self@.nodes =~= old(self)@.nodes.insert(
                frame_id,
                NodeView { history: old(self)@.history_of(frame_id), is_evictable: false },
            ));
            assert(self@.evictable() =~= old(self)@.evictable().remove(frame_id));
        }
        if was_evictable {
            self.evictable_size -= 1;
        }
    }

    /// Records an access to a frame at the current timestamp and advances the clock.
    fn record_access(&mut self, frame_id: FrameId)
        ensures
            final(self)@.timestamp == old(self)@.timestamp + 1,
            final(self)@.k == old(self)@.k,
            final(self)@.nodes == old(self)@.nodes.insert(
                frame_id,
                NodeView {
                    history: spec_record(
                        old(self)@.history_of(frame_id),
                        old(self)@.k as nat,
                        old(self)@.timestamp,
                    ),
                    is_evictable: old(self)@.is_evictable(frame_id),
                },
            ),
    {
        let current_ts = self.advance_timestamp();
        let k = self.k;
        let node = self.node_store.entry(frame_id).or_insert(LrukNode::new(frame_id, k));
        proof {
            // the node holds the history that the frame had, which lies in the past
            assert(node@.history == old(self)@.history_of(frame_id));
        }
        node.insert_history_timestamp(current_ts);
        proof {
            assert(self@.nodes =~= old(self)@.nodes.insert(
                frame_id,
                NodeView {
                    history: spec_record(
                        old(self)@.history_of(frame_id),
                        old(self)@.k as nat,
                        old(self)@.timestamp,
                    ),
                    is_evictable: old(self)@.is_evictable(frame_id),
                },
            ));
            assert(self@.evictable() =~= old(self)@.evictable());
        }
    }

    /// Evicts the evictable frame with the largest backward K-distance; among
    /// frames with equal distance, the one whose oldest recorded access is
    /// oldest. A frame with fewer than `k` recorded accesses goes before any
    /// frame with `k` of them, and a frame without a recorded access before
    /// any frame with one.
    fn evict(&mut self) -> (victim: Option<FrameId>)
        ensures
            final(self)@.timestamp == old(self)@.timestamp,
            final(self)@.k == old(self)@.k,
            match victim {
                Some(frame_id) => {
                    &&& old(self)@.is_victim(frame_id)
                    &&& final(self)@.nodes == old(self)@.nodes.remove(frame_id)
                },
                None => final(self)@.nodes == old(self)@.nodes,
            },
    {
        if self.evictable_size == 0 {
            return None;
        }
        let current_ts = self.current_timestamp;
        let k = self.k;
        let mut candidate: Option<(FrameId, bool, u64, Option<u64>)> = None;
        let ghost view = self@;
        let ghost items = vstd::std_specs::hash::spec_hash_map_iter(&self.node_store).remaining();
        let ghost mut seen: int = 0;
        for entry in it: self.node_store.iter()
            invariant
                self.wf(),
                view == self@,
                current_ts == view.timestamp,
                k == view.k,
                it.seq() == items,
                seen == it.index(),
                forall|i: int|
                    0 <= i < items.len() ==> self.node_store@.contains_key(
                        *(#[trigger] items[i]).0,
                    ) && self.node_store@[*items[i].0] == *items[i].1,
                match candidate {
                    None => forall|i: int| 0 <= i < seen ==> !(#[trigger] items[i]).1@.is_evictable,
                    Some((best, best_inf, best_dist, best_ts)) => {
                        &&& view.is_evictable(best)
                        &&& best_inf == (view.nodes[best].history.len() < k)
                        &&& best_dist == spec_k_distance(
                            view.nodes[best].history,
                            k as nat,
                            current_ts,
                        )
                        &&& match best_ts {
                            Some(t) => spec_first_access(view.nodes[best].history) == t,
                            None => spec_first_access(view.nodes[best].history) == -1,
                        }
                        &&& forall|i: int|
                            0 <= i < seen && *(#[trigger] items[i]).0 != best
                                && items[i].1@.is_evictable ==> !spec_better_victim(
                                items[i].1@.history,
                                view.nodes[best].history,
                                k as nat,
                                current_ts,
                            )
                    },
                },
        {
            let node = entry.1;
            let ghost key = *entry.0;
            proof {
                assert(view.nodes[key] == node@);
            }
            if node.is_evictable {
                let infinite = node.has_inf_backward_k_dist();
                let dist = node.get_backwards_k_distance(current_ts);
                let earliest = node.earliest_access();
                match candidate {
                    None => {
                        candidate = Some((node.frame_id, infinite, dist, earliest));
                    },
                    Some((best, best_inf, best_dist, best_ts)) => {
                        let older = match (earliest, best_ts) {
                            (None, Some(_)) => true,
                            (Some(mine), Some(theirs)) => mine < theirs,
                            _ => false,
                        };
                        let better = if infinite != best_inf {
                            infinite
                        } else {
                            dist > best_dist || (dist == best_dist && older)
                        };
                        if better {
                            candidate = Some((node.frame_id, infinite, dist, earliest));
                        }
                    },
                }
            }
            proof {
                seen = seen + 1;
            }
        }
        match candidate {
            Some((frame_id, _, _, _)) => {
                self.node_store.remove(&frame_id);
                self.evictable_size -= 1;
                proof {
                    assert(self@.nodes =~= view.nodes.remove(frame_id));
                    assert(self@.evictable() =~= view.evictable().remove(frame_id));
                }
                Some(frame_id)
            },
            None => None,
        }
    }

    /// Returns the number of evictable frames.
    fn evictable_count(&self) -> (count: usize) {
        self.evictable_size
    }

    /// Removes a frame from the replacer if it is evictable.
    fn remove(&mut self, frame_id: FrameId)
        ensures
            final(self)@.timestamp == old(self)@.timestamp,
            final(self)@.k == old(self)@.k,
            final(self)@.nodes == if old(self)@.is_evictable(frame_id) {
                old(self)@.nodes.remove(frame_id)
            } else {
                old(self)@.nodes
            },
    {
        let evictable = match self.node_store.get(&frame_id) {
            Some(node) => node.is_evictable,
            None => false,
        };
        if evictable {
            proof {
                assert(self@.evictable().contains(frame_id));
            }
            self.node_store.remove(&frame_id);
            self.evictable_size -= 1;
            proof {
                assert(self@.nodes =~= old(self)@.nodes.remove(frame_id));
                assert(self@.evictable() =~= old(self)@.evictable().remove(frame_id));
            }
        }
    }
}

} // verus!
