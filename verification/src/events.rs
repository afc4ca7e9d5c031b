//! Register/unregister events and their replay semantics: what the registry
//! owes after any sequence of events.

use vstd::prelude::*;
use crate::registry::GameEntry;
use crate::registry::lookup;
use crate::registry::wf_entries;
use crate::registry::spec_insert;
use crate::registry::spec_remove;
use crate::registry::lemma_insert_lookup;
use crate::registry::lemma_remove_lookup;
use crate::registry::lemma_insert_wf;
use crate::registry::lemma_remove_wf;

verus! {

/// One state-changing bus event, with the display name that registration
/// resolved to at the time it was handled.
pub enum Event {
    Registered { pid: u64, name: String },
    Unregistered { pid: u64 },
}

/// The registry entries after one event: a registration records the name,
/// an unregistration drops the identifier.
pub open spec fn apply_event(s: Seq<GameEntry>, e: Event) -> Seq<GameEntry> {
    match e {
        Event::Registered { pid, name } => spec_insert(s, pid, name),
        Event::Unregistered { pid } => spec_remove(s, pid),
    }
}

/// The registry entries after replaying a whole sequence of events.
pub open spec fn spec_replay(s: Seq<GameEntry>, events: Seq<Event>) -> Seq<GameEntry>
    decreases events.len(),
{
    if events.len() == 0 {
        s
    } else {
        apply_event(spec_replay(s, events.drop_last()), events.last())
    }
}

/// The name a replay owes `pid`: the one of its most recent registration,
/// unless an unregistration came after it.
pub open spec fn spec_live_name(events: Seq<Event>, pid: u64) -> Option<String>
    decreases events.len(),
{
    if events.len() == 0 {
        None::<String>
    } else {
        match events.last() {
            Event::Registered { pid: p, name } => if p == pid {
                Some(name)
            } else {
                spec_live_name(events.drop_last(), pid)
            },
            Event::Unregistered { pid: p } => if p == pid {
                None::<String>
            } else {
                spec_live_name(events.drop_last(), pid)
            },
        }
    }
}

/// Replay keeps process identifiers unique.
pub proof fn lemma_replay_wf(s: Seq<GameEntry>, events: Seq<Event>)
    requires
        wf_entries(s),
    ensures
        wf_entries(spec_replay(s, events)),
    decreases events.len(),
{
    if events.len() == 0 {
    } else {
        lemma_replay_wf(s, events.drop_last());
        let prev = spec_replay(s, events.drop_last());
        match events.last() {
            Event::Registered { pid, name } => {
                lemma_insert_wf(prev, pid, name);
            },
            Event::Unregistered { pid } => {
                lemma_remove_wf(prev, pid);
            },
        }
    }
}

/// For every sequence of events replayed from an empty registry, the
/// registry holds exactly the display names of the process identifiers whose
/// most recent registration has not been followed by an unregistration, with
/// the last registration per identifier deciding the name.
pub proof fn lemma_replay_matches_live(events: Seq<Event>, pid: u64)
    ensures
        wf_entries(spec_replay(Seq::<GameEntry>::empty(), events)),
        lookup(spec_replay(Seq::<GameEntry>::empty(), events), pid) == spec_live_name(
            events,
            pid,
        ),
    decreases events.len(),
{
    let emp = Seq::<GameEntry>::empty();
    assert(wf_entries(emp));
    lemma_replay_wf(emp, events);
    if events.len() == 0 {
        assert(lookup(emp, pid) is None);
    } else {
        let prev = spec_replay(emp, events.drop_last());
        lemma_replay_matches_live(events.drop_last(), pid);
        match events.last() {
            Event::Registered { pid: p, name } => {
                lemma_insert_lookup(prev, p, name, pid);
            },
            Event::Unregistered { pid: p } => {
                lemma_remove_lookup(prev, p, pid);
            },
        }
    }
}

} // verus!
