//! The single-producer/single-consumer queue of snapshots: ordered lists of
//! display names, delivered first-in first-out from the listener to the
//! indicator poll.

use vstd::prelude::*;

verus! {

/// An unbounded FIFO queue of snapshots.  The producer never blocks; the
/// consumer only ever does a non-blocking receive.
pub struct SnapshotQueue {
    items: Vec<Vec<String>>,
}

impl View for SnapshotQueue {
    type V = Seq<Vec<String>>;

    closed spec fn view(&self) -> Seq<Vec<String>> {
        self.items@
    }
}

impl SnapshotQueue {
    /// An empty queue: nothing pending.
    pub fn new() -> (q: SnapshotQueue)
        ensures
            q@ == Seq::<Vec<String>>::empty(),
    {
        SnapshotQueue { items: Vec::new() }
    }

    /// How many snapshots are pending.
    pub fn len(&self) -> (n: usize)
        ensures
            n == self@.len(),
    {
        self.items.len()
    }

    /// Queue one snapshot behind everything already pending.
    pub fn send(&mut self, snapshot: Vec<String>)
        ensures
            final(self)@ == old(self)@.push(snapshot),
    {
        self.items.push(snapshot);
    }

    /// Take the oldest pending snapshot, if any; an empty queue is left
    /// untouched and reports nothing.
    pub fn try_recv(&mut self) -> (r: Option<Vec<String>>)
        ensures
            old(self)@.len() == 0 ==> r is None && final(self)@ == old(self)@,
            old(self)@.len() > 0 ==> r == Some(old(self)@[0]) && final(self)@ == old(
                self,
            )@.drop_first(),
    {
        if self.items.len() == 0 {
            None
        } else {
            let v = self.items.remove(0);
            proof {
                assert(self.items@ =~= old(self)@.drop_first());
            }
            Some(v)
        }
    }
}

} // verus!
