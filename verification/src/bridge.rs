//! The listener-side bridge: each bus event mutates the registry and then
//! queues exactly one snapshot of the resulting display names, in event
//! order.

use vstd::prelude::*;
use crate::channel::SnapshotQueue;
use crate::events::Event;
use crate::events::apply_event;
use crate::events::spec_replay;
use crate::registry::GameEntry;
use crate::registry::Registry;
use crate::registry::spec_insert;
use crate::registry::spec_remove;
use crate::resolver::resolve;

verus! {

/// The names a snapshot of `entries` carries, in registry order.
pub open spec fn names_of(entries: Seq<GameEntry>) -> Seq<String> {
    entries.map_values(|e: GameEntry| e.name)
}

/// The event subscriber's state: the registry it exclusively owns and the
/// outgoing snapshot queue.
pub struct Bridge {
    pub registry: Registry,
    pub queue: SnapshotQueue,
}

impl Bridge {
    /// No process identifier is tracked twice.
    pub open spec fn wf(&self) -> bool {
        self.registry.wf()
    }

    /// A fresh bridge: empty registry, nothing queued.
    pub fn new() -> (b: Bridge)
        ensures
            b.wf(),
            b.registry@ == Seq::<GameEntry>::empty(),
            b.queue@ == Seq::<Vec<String>>::empty(),
    {
        Bridge { registry: Registry::new(), queue: SnapshotQueue::new() }
    }

    /// Handle a registration whose display name is already resolved: record
    /// it, then queue exactly one snapshot of the resulting names.
    pub fn on_game_registered(&mut self, pid: u64, name: String)
        requires
            old(self).wf(),
        ensures
            final(self).wf(),
            final(self).registry@ == spec_insert(old(self).registry@, pid, name),
            final(self).queue@.len() == old(self).queue@.len() + 1,
            final(self).queue@.take(old(self).queue@.len() as int) == old(self).queue@,
            final(self).queue@.last()@ == names_of(final(self).registry@),
    {
        self.registry.insert_or_replace(pid, name);
        let snapshot = self.registry.current_names();
        self.queue.send(snapshot);
        proof {
            assert(self.queue@.take(old(self).queue@.len() as int) =~= old(self).queue@);
        }
    }

    /// Handle an unregistration: drop the identifier (a no-op if absent),
    /// then queue exactly one snapshot of the resulting names.
    pub fn on_game_unregistered(&mut self, pid: u64)
        requires
            old(self).wf(),
        ensures
            final(self).wf(),
            final(self).registry@ == spec_remove(old(self).registry@, pid),
            final(self).queue@.len() == old(self).queue@.len() + 1,
            final(self).queue@.take(old(self).queue@.len() as int) == old(self).queue@,
            final(self).queue@.last()@ == names_of(final(self).registry@),
    {
        self.registry.remove(pid);
        let snapshot = self.registry.current_names();
        self.queue.send(snapshot);
        proof {
            assert(self.queue@.take(old(self).queue@.len() as int) =~= old(self).queue@);
        }
    }

    /// Handle a registration straight off the bus: resolve the display name
    /// from the host process table first.  Whatever name resolution came
    /// back with, it is recorded for `pid` and exactly one snapshot of the
    /// updated names is queued.
    pub fn on_registered(&mut self, pid: u64)
        requires
            old(self).wf(),
        ensures
            final(self).wf(),
            exists|n: String| final(self).registry@ == spec_insert(old(self).registry@, pid, n),
            final(self).queue@.len() == old(self).queue@.len() + 1,
            final(self).queue@.take(old(self).queue@.len() as int) == old(self).queue@,
            final(self).queue@.last()@ == names_of(final(self).registry@),
    {
        let name = resolve(pid);
        let ghost n0 = name;
        self.on_game_registered(pid, name);
        proof {
            assert(self.registry@ == spec_insert(old(self).registry@, pid, n0));
        }
    }

    /// Replaying a sequence of N state-changing events queues exactly N
    /// snapshots, in the order of their triggering events: the i-th carries
    /// the names right after the first i+1 events.
    pub fn process_events(&mut self, events: &Vec<Event>)
        requires
            old(self).wf(),
        ensures
            final(self).wf(),
            final(self).registry@ == spec_replay(old(self).registry@, events@),
            final(self).queue@.len() == old(self).queue@.len() + events@.len(),
            final(self).queue@.take(old(self).queue@.len() as int) == old(self).queue@,
            forall|j: int|
                old(self).queue@.len() <= j < final(self).queue@.len()
                    ==> (#[trigger] final(self).queue@[j])@ == names_of(
                    spec_replay(
                        old(self).registry@,
                        events@.take(j - old(self).queue@.len() + 1),
                    ),
                ),
    {
        let ghost r0 = self.registry@;
        let ghost q0 = self.queue@;
        proof {
            assert(events@.take(0) =~= Seq::<Event>::empty());
            assert(self.queue@.take(q0.len() as int) =~= q0);
        }
        let n: usize = events.len();
        let mut i: usize = 0;
        while i < n
            invariant
                self.wf(),
                n == events@.len(),
                i <= n,
                self.registry@ == spec_replay(r0, events@.take(i as int)),
                self.queue@.len() == q0.len() + i,
                self.queue@.take(q0.len() as int) == q0,
                forall|j: int|
                    q0.len() <= j < self.queue@.len() ==> (#[trigger] self.queue@[j])@ == names_of(
                        spec_replay(r0, events@.take(j - q0.len() + 1)),
                    ),
            decreases n - i,
        {
            let ghost qpre = self.queue@;
            let event = &events[i];
            match event {
                Event::Registered { pid, name } => {
                    self.on_game_registered(*pid, name.clone());
                },
                Event::Unregistered { pid } => {
                    self.on_game_unregistered(*pid);
                },
            }
            proof {
                assert(events@.take(i + 1).drop_last() =~= events@.take(i as int));
                assert(events@.take(i + 1).last() == events@[i as int]);
                assert(self.registry@ == apply_event(
                    spec_replay(r0, events@.take(i as int)),
                    events@[i as int],
                ));
                assert(self.queue@.take(q0.len() as int) =~= qpre.take(q0.len() as int));
                assert forall|j: int|
                    q0.len() <= j < self.queue@.len() implies (#[trigger] self.queue@[j])@
                    == names_of(spec_replay(r0, events@.take(j - q0.len() + 1))) by {
                    if j < qpre.len() {
                        assert(self.queue@[j] == self.queue@.take(qpre.len() as int)[j]);
                        assert(self.queue@[j] == qpre[j]);
                    } else {
                        assert(j == qpre.len());
                        assert(self.queue@[j] == self.queue@.last());
                    }
                }
            }
            i += 1;
        }
        proof {
            assert(events@.take(n as int) =~= events@);
        }
    }
}

} // verus!
