//! The indicator controller: the 1 Hz polling side that drains at most one
//! snapshot per tick and decides the indicator state (icon variant and
//! tooltip text) from it.

use vstd::prelude::*;
use vstd::string::StringExecFns;
use crate::channel::SnapshotQueue;

verus! {

/// The names joined by single newlines, in snapshot order.
pub open spec fn spec_join(names: Seq<String>) -> Seq<char>
    decreases names.len(),
{
    if names.len() == 0 {
        Seq::<char>::empty()
    } else if names.len() == 1 {
        names[0]@
    } else {
        names[0]@ + seq!['\n'] + spec_join(names.drop_first())
    }
}

/// The tooltip owed while games are active: the fixed heading, then the
/// names joined by newlines.
pub open spec fn spec_on_tooltip(names: Seq<String>) -> Seq<char> {
    "Game Mode On:\n"@ + spec_join(names)
}

/// The tooltip owed while no game is active.
pub open spec fn spec_off_tooltip() -> Seq<char> {
    "Game Mode Off"@
}

/// What the external indicator is told to show: the icon variant (game mode
/// on or off) and the tooltip text.
pub struct IndicatorState {
    pub game_mode_on: bool,
    pub tooltip: String,
}

/// `st` is exactly what a snapshot carrying `names` must render as: "on"
/// with the joined names when any game is active, "off" otherwise.
pub open spec fn state_renders(st: IndicatorState, names: Seq<String>) -> bool {
    if names.len() == 0 {
        !st.game_mode_on && st.tooltip@ == spec_off_tooltip()
    } else {
        st.game_mode_on && st.tooltip@ == spec_on_tooltip(names)
    }
}

/// Joining after appending one more name.
proof fn lemma_join_push(names: Seq<String>, x: String)
    ensures
        spec_join(names.push(x)) == (if names.len() == 0 {
            x@
        } else {
            spec_join(names) + seq!['\n'] + x@
        }),
    decreases names.len(),
{
    let p = names.push(x);
    assert(p.len() == names.len() + 1);
    if names.len() == 0 {
        assert(p[0] == x);
    } else {
        assert(p[0] == names[0]);
        assert(p.drop_first() =~= names.drop_first().push(x));
        lemma_join_push(names.drop_first(), x);
        if names.len() == 1 {
            assert(spec_join(p) == p[0]@ + seq!['\n'] + spec_join(p.drop_first()));
            assert(spec_join(names) == names[0]@);
        } else {
            assert(spec_join(p) == p[0]@ + seq!['\n'] + spec_join(p.drop_first()));
            assert(spec_join(names) == names[0]@ + seq!['\n'] + spec_join(names.drop_first()));
            assert(names[0]@ + seq!['\n'] + (spec_join(names.drop_first()) + seq!['\n'] + x@) =~= (
            names[0]@ + seq!['\n'] + spec_join(names.drop_first())) + seq!['\n'] + x@);
        }
    }
}

/// Build the "on" tooltip for a non-empty list of names.
fn on_tooltip(names: &Vec<String>) -> (r: String)
    requires
        names@.len() > 0,
    ensures
        r@ == spec_on_tooltip(names@),
{
    let mut r: String = "Game Mode On:\n".to_owned();
    proof {
        assert(r@ + Seq::<char>::empty() =~= r@);
        assert(names@.take(0) =~= Seq::<String>::empty());
    }
    let mut i: usize = 0;
    while i < names.len()
        invariant
            i <= names@.len(),
            r@ == "Game Mode On:\n"@ + spec_join(names@.take(i as int)),
        decreases names@.len() - i,
    {
        let ghost pre = names@.take(i as int);
        if i > 0 {
            r.append("\n");
            proof {
                reveal_strlit("\n");
                assert("\n"@ =~= seq!['\n']);
            }
        }
        r.append(names[i].as_str());
        proof {
            assert(names@.take(i + 1) =~= pre.push(names@[i as int]));
            lemma_join_push(pre, names@[i as int]);
            if i == 0 {
                assert(spec_join(pre) == Seq::<char>::empty());
                assert("Game Mode On:\n"@ + Seq::<char>::empty() + names@[0]@ =~= "Game Mode On:\n"@
                    + names@[0]@);
            } else {
                assert("Game Mode On:\n"@ + spec_join(pre) + seq!['\n'] + names@[i as int]@ =~=
                "Game Mode On:\n"@ + (spec_join(pre) + seq!['\n'] + names@[i as int]@));
            }
        }
        i += 1;
    }
    proof {
        assert(names@.take(names@.len() as int) =~= names@);
    }
    r
}

/// Decide the indicator state for one drained snapshot: game mode shown as
/// on, with the names joined under the fixed heading, exactly when the
/// snapshot carries at least one name.
pub fn render(names: &Vec<String>) -> (st: IndicatorState)
    ensures
        state_renders(st, names@),
{
    if names.len() == 0 {
        IndicatorState { game_mode_on: false, tooltip: "Game Mode Off".to_owned() }
    } else {
        IndicatorState { game_mode_on: true, tooltip: on_tooltip(names) }
    }
}

/// The polling consumer.  It owns nothing beyond the last rendered state
/// and never sees the registry, only snapshots.
pub struct Controller {
    pub state: IndicatorState,
}

impl Controller {
    /// The state at startup, before any event arrives: game mode shown as
    /// off, established synchronously rather than waiting for the first
    /// tick.
    pub fn new() -> (c: Controller)
        ensures
            state_renders(c.state, Seq::<String>::empty()),
    {
        let names: Vec<String> = Vec::new();
        Controller { state: render(&names) }
    }

    /// Apply at most one received snapshot; receiving nothing leaves the
    /// indicator exactly as it was.
    pub fn apply(&mut self, received: Option<Vec<String>>)
        ensures
            match received {
                Some(names) => state_renders(final(self).state, names@),
                None => final(self).state == old(self).state,
            },
    {
        match received {
            Some(names) => {
                self.state = render(&names);
            },
            None => {},
        }
    }

    /// One 1 Hz tick: a single non-blocking receive.  An available snapshot
    /// (the oldest pending) is rendered; an empty queue changes nothing.
    pub fn tick(&mut self, queue: &mut SnapshotQueue)
        ensures
            old(queue)@.len() == 0 ==> final(self).state == old(self).state && final(queue)@ == old(
                queue,
            )@,
            old(queue)@.len() > 0 ==> final(queue)@ == old(queue)@.drop_first() && state_renders(
                final(self).state,
                old(queue)@[0]@,
            ),
    {
        let received = queue.try_recv();
        self.apply(received);
    }
}

} // verus!
