//! The interface of frame replacement policies.
use vstd::prelude::*;
use crate::typedef::FrameId;

verus! {

/// A policy that decides which frame of a buffer pool to evict.
///
/// A replacer tracks frames by id. Each tracked frame is either evictable or
/// not, and a frame can be chosen as a victim only while it is evictable.
pub trait Replacer {
    /// The invariant of the replacer's state.
    spec fn wf(&self) -> bool;

    /// The frames that may be evicted.
    spec fn evictable(&self) -> Set<FrameId>;

    /// The tracked frames with at least one recorded access.
    spec fn accessed(&self) -> Set<FrameId>;

    /// How many more accesses can be recorded before the logical clock runs out.
    spec fn accesses_left(&self) -> nat;

    /// Marks a frame as unpinned, making it eligible for eviction.
    fn unpin(&mut self, frame_id: FrameId)
        requires
            old(self).wf(),
        ensures
            final(self).wf(),
            final(self).evictable() == old(self).evictable().insert(frame_id),
            final(self).accessed() == old(self).accessed(),
            final(self).accesses_left() == old(self).accesses_left(),
    ;

    /// Marks a frame as pinned, preventing it from being evicted.
    fn pin(&mut self, frame_id: FrameId)
        requires
            old(self).wf(),
        ensures
            final(self).wf(),
            final(self).evictable() == old(self).evictable().remove(frame_id),
            final(self).accessed() == old(self).accessed(),
            final(self).accesses_left() == old(self).accesses_left(),
    ;

    /// Records that the given frame is accessed at the current timestamp.
    /// Creates a new, non-evictable entry if the frame has not been seen before.
    fn record_access(&mut self, frame_id: FrameId)
        requires
            old(self).wf(),
            old(self).accesses_left() > 0,
        ensures
            final(self).wf(),
            final(self).evictable() == old(self).evictable(),
            final(self).accessed() == old(self).accessed().insert(frame_id),
            final(self).accesses_left() == old(self).accesses_left() - 1,
    ;

    /// Evicts a frame chosen by the replacement policy among the evictable
    /// frames and forgets it. Returns `None` exactly when no frame is evictable.
    fn evict(&mut self) -> (victim: Option<FrameId>)
        requires
            old(self).wf(),
        ensures
            final(self).wf(),
            final(self).accesses_left() == old(self).accesses_left(),
            match victim {
                Some(frame_id) => {
                    &&& old(self).evictable().contains(frame_id)
                    &&& final(self).evictable() == old(self).evictable().remove(frame_id)
                    &&& final(self).accessed() == old(self).accessed().remove(frame_id)
                },
                None => {
                    &&& old(self).evictable() =~= Set::<FrameId>::empty()
                    &&& final(self).evictable() == old(self).evictable()
                    &&& final(self).accessed() == old(self).accessed()
                },
            },
    ;

    /// Returns the number of evictable frames in the replacer.
    fn evictable_count(&self) -> (count: usize)
        requires
            self.wf(),
        ensures
            self.evictable().finite(),
            count == self.evictable().len(),
    ;

    /// Forgets a frame if it is evictable; otherwise does nothing.
    fn remove(&mut self, frame_id: FrameId)
        requires
            old(self).wf(),
        ensures
            final(self).wf(),
            final(self).evictable() == old(self).evictable().remove(frame_id),
            final(self).accessed() == if old(self).evictable().contains(frame_id) {
                old(self).accessed().remove(frame_id)
            } else {
                old(self).accessed()
            },
            final(self).accesses_left() == old(self).accesses_left(),
    ;
}

} // verus!
