//! The registry of currently active games: an exclusive mapping from numeric
//! process identifier to display name, held as a sequence of entries in
//! first-registration order (a deterministic order for snapshots).

use vstd::prelude::*;
use vstd::pervasive::VecAdditionalExecFns;

verus! {

/// One active game: a process identifier and the display name that was
/// resolved when its registration event arrived.
pub struct GameEntry {
    pub pid: u64,
    pub name: String,
}

/// The display name recorded for `pid` in `s`, if any (first match).
pub open spec fn lookup(s: Seq<GameEntry>, pid: u64) -> Option<String>
    decreases s.len(),
{
    if s.len() == 0 {
        None::<String>
    } else if s[0].pid == pid {
        Some(s[0].name)
    } else {
        lookup(s.drop_first(), pid)
    }
}

/// Entries are well formed when no process identifier occurs twice.
pub open spec fn wf_entries(s: Seq<GameEntry>) -> bool
    decreases s.len(),
{
    s.len() == 0 || (lookup(s.drop_first(), s[0].pid) is None && wf_entries(s.drop_first()))
}

/// The entries after recording `name` for `pid`: the first entry for `pid`
/// is replaced in place; if none exists, a new entry is appended.
pub open spec fn spec_insert(s: Seq<GameEntry>, pid: u64, name: String) -> Seq<GameEntry>
    decreases s.len(),
{
    if s.len() == 0 {
        seq![GameEntry { pid, name }]
    } else if s[0].pid == pid {
        seq![GameEntry { pid, name }] + s.drop_first()
    } else {
        seq![s[0]] + spec_insert(s.drop_first(), pid, name)
    }
}

/// The entries after dropping the first entry for `pid`, if any.
pub open spec fn spec_remove(s: Seq<GameEntry>, pid: u64) -> Seq<GameEntry>
    decreases s.len(),
{
    if s.len() == 0 {
        s
    } else if s[0].pid == pid {
        s.drop_first()
    } else {
        seq![s[0]] + spec_remove(s.drop_first(), pid)
    }
}

/// Recording a name binds exactly `pid`, and nothing else.
pub proof fn lemma_insert_lookup(s: Seq<GameEntry>, pid: u64, name: String, q: u64)
    ensures
        lookup(spec_insert(s, pid, name), q) == (if q == pid {
            Some(name)
        } else {
            lookup(s, q)
        }),
    decreases s.len(),
{
    let e = (GameEntry { pid, name });
    let r = spec_insert(s, pid, name);
    if s.len() == 0 {
        assert(r == seq![e]);
        assert(r[0] == e);
        assert(r.drop_first() =~= Seq::<GameEntry>::empty());
        if q == pid {
            assert(lookup(r, q) == Some(name));
        } else {
            assert(lookup(Seq::<GameEntry>::empty(), q) is None);
            assert(lookup(r, q) is None);
            assert(lookup(s, q) is None);
        }
    } else if s[0].pid == pid {
        assert(r == seq![e] + s.drop_first());
        assert(r[0] == e);
        assert(r.drop_first() =~= s.drop_first());
        if q == pid {
            assert(lookup(r, q) == Some(name));
        } else {
            assert(lookup(r, q) == lookup(s.drop_first(), q));
            assert(lookup(s, q) == lookup(s.drop_first(), q));
        }
    } else {
        let r2 = spec_insert(s.drop_first(), pid, name);
        assert(r == seq![s[0]] + r2);
        assert(r[0] == s[0]);
        assert(r.drop_first() =~= r2);
        lemma_insert_lookup(s.drop_first(), pid, name, q);
        if q == s[0].pid {
            assert(lookup(r, q) == Some(s[0].name));
            assert(lookup(s, q) == Some(s[0].name));
        } else {
            assert(lookup(r, q) == lookup(r2, q));
            assert(lookup(s, q) == lookup(s.drop_first(), q));
        }
    }
}

/// Removing unbinds exactly `pid`, and nothing else.
pub proof fn lemma_remove_lookup(s: Seq<GameEntry>, pid: u64, q: u64)
    requires
        wf_entries(s),
    ensures
        lookup(spec_remove(s, pid), q) == (if q == pid {
            None::<String>
        } else {
            lookup(s, q)
        }),
    decreases s.len(),
{
    let r = spec_remove(s, pid);
    if s.len() == 0 {
    } else if s[0].pid == pid {
        assert(r == s.drop_first());
    } else {
        let r2 = spec_remove(s.drop_first(), pid);
        assert(r == seq![s[0]] + r2);
        assert(r[0] == s[0]);
        assert(r.drop_first() =~= r2);
        lemma_remove_lookup(s.drop_first(), pid, q);
    }
}

/// Recording a name keeps process identifiers unique.
pub proof fn lemma_insert_wf(s: Seq<GameEntry>, pid: u64, name: String)
    requires
        wf_entries(s),
    ensures
        wf_entries(spec_insert(s, pid, name)),
    decreases s.len(),
{
    let e = (GameEntry { pid, name });
    let r = spec_insert(s, pid, name);
    if s.len() == 0 {
        assert(r == seq![e]);
        assert(r[0] == e);
        assert(r.drop_first() =~= Seq::<GameEntry>::empty());
        assert(lookup(Seq::<GameEntry>::empty(), pid) is None);
        assert(wf_entries(Seq::<GameEntry>::empty()));
    } else if s[0].pid == pid {
        assert(r == seq![e] + s.drop_first());
        assert(r[0] == e);
        assert(r.drop_first() =~= s.drop_first());
        assert(lookup(s.drop_first(), pid) is None);
        assert(wf_entries(s.drop_first()));
    } else {
        let r2 = spec_insert(s.drop_first(), pid, name);
        assert(r == seq![s[0]] + r2);
        assert(r[0] == s[0]);
        assert(r.drop_first() =~= r2);
        lemma_insert_wf(s.drop_first(), pid, name);
        lemma_insert_lookup(s.drop_first(), pid, name, s[0].pid);
        assert(lookup(r2, s[0].pid) is None);
        assert(wf_entries(r2));
    }
}

/// Removing keeps process identifiers unique.
pub proof fn lemma_remove_wf(s: Seq<GameEntry>, pid: u64)
    requires
        wf_entries(s),
    ensures
        wf_entries(spec_remove(s, pid)),
    decreases s.len(),
{
    let r = spec_remove(s, pid);
    if s.len() == 0 {
    } else if s[0].pid == pid {
        assert(wf_entries(s.drop_first()));
    } else {
        let r2 = spec_remove(s.drop_first(), pid);
        assert(r == seq![s[0]] + r2);
        assert(r[0] == s[0]);
        assert(r.drop_first() =~= r2);
        lemma_remove_wf(s.drop_first(), pid);
        lemma_remove_lookup(s.drop_first(), pid, s[0].pid);
        assert(lookup(r2, s[0].pid) is None);
        assert(wf_entries(r2));
    }
}

/// Recording a name grows the registry only when `pid` was absent.
pub proof fn lemma_insert_len(s: Seq<GameEntry>, pid: u64, name: String)
    ensures
        spec_insert(s, pid, name).len() == s.len() + (if lookup(s, pid) is Some {
            0int
        } else {
            1int
        }),
    decreases s.len(),
{
    let e = (GameEntry { pid, name });
    let r = spec_insert(s, pid, name);
    if s.len() == 0 {
    } else if s[0].pid == pid {
    } else {
        lemma_insert_len(s.drop_first(), pid, name);
    }
}

/// Removing shrinks the registry only when `pid` was present.
pub proof fn lemma_remove_len(s: Seq<GameEntry>, pid: u64)
    ensures
        spec_remove(s, pid).len() == s.len() - (if lookup(s, pid) is Some {
            1int
        } else {
            0int
        }),
    decreases s.len(),
{
    if s.len() == 0 {
    } else if s[0].pid == pid {
    } else {
        lemma_remove_len(s.drop_first(), pid);
    }
}

/// In a well-formed registry every entry is what looking its identifier up
/// yields: the names a snapshot carries are exactly the mapping's values.
pub proof fn lemma_entries_are_lookups(s: Seq<GameEntry>)
    requires
        wf_entries(s),
    ensures
        forall|j: int|
            0 <= j < s.len() ==> lookup(s, (#[trigger] s[j]).pid) == Some(s[j].name),
    decreases s.len(),
{
    if s.len() == 0 {
    } else {
        let t = s.drop_first();
        lemma_entries_are_lookups(t);
        assert forall|j: int|
            0 <= j < s.len() implies lookup(s, (#[trigger] s[j]).pid) == Some(s[j].name) by {
            if j > 0 {
                assert(t[j - 1] == s[j]);
                assert(lookup(t, t[j - 1].pid) == Some(t[j - 1].name));
                assert(s[j].pid != s[0].pid);
            }
        }
    }
}

/// Every name the mapping yields stands in the entries.
pub proof fn lemma_lookup_in_entries(s: Seq<GameEntry>, pid: u64)
    ensures
        lookup(s, pid) is Some ==> exists|j: int|
            0 <= j < s.len() && (#[trigger] s[j]) == (GameEntry {
                pid,
                name: lookup(s, pid)->Some_0,
            }),
    decreases s.len(),
{
    if s.len() == 0 {
    } else if s[0].pid == pid {
        assert(s[0] == (GameEntry { pid, name: lookup(s, pid)->Some_0 }));
    } else {
        lemma_lookup_in_entries(s.drop_first(), pid);
        if lookup(s, pid) is Some {
            let t = s.drop_first();
            let j = choose|j: int|
                0 <= j < t.len() && (#[trigger] t[j]) == (GameEntry {
                    pid,
                    name: lookup(t, pid)->Some_0,
                });
            assert(s[j + 1] == t[j]);
        }
    }
}

/// Re-registering an already-active process identifier replaces only its
/// display name: the entry keeps its position and everything else stays,
/// so in particular the size is unchanged.
pub proof fn lemma_reregister_replaces_name_only(s: Seq<GameEntry>, pid: u64, name: String)
    requires
        lookup(s, pid) is Some,
    ensures
        exists|j: int|
            0 <= j < s.len() && (#[trigger] s[j]).pid == pid && spec_insert(s, pid, name)
                == s.update(j, GameEntry { pid, name }),
    decreases s.len(),
{
    let e = (GameEntry { pid, name });
    let r = spec_insert(s, pid, name);
    if s[0].pid == pid {
        assert(r == seq![e] + s.drop_first());
        assert(r =~= s.update(0, e));
        assert(s[0].pid == pid && r == s.update(0, e));
    } else {
        lemma_reregister_replaces_name_only(s.drop_first(), pid, name);
        let j = choose|j: int|
            0 <= j < s.drop_first().len() && (#[trigger] s.drop_first()[j]).pid == pid
                && spec_insert(s.drop_first(), pid, name) == s.drop_first().update(j, e);
        assert(r == seq![s[0]] + s.drop_first().update(j, e));
        assert(r =~= s.update(j + 1, e));
        assert(s[j + 1].pid == pid && r == s.update(j + 1, e));
    }
}

/// Removing an absent process identifier changes nothing.
pub proof fn lemma_remove_absent(s: Seq<GameEntry>, pid: u64)
    requires
        lookup(s, pid) is None,
    ensures
        spec_remove(s, pid) == s,
    decreases s.len(),
{
    if s.len() == 0 {
        assert(spec_remove(s, pid) =~= s);
    } else {
        lemma_remove_absent(s.drop_first(), pid);
        assert(spec_remove(s, pid) =~= seq![s[0]] + s.drop_first());
        assert(seq![s[0]] + s.drop_first() =~= s);
    }
}

/// Unfolding `spec_insert` past a prefix known not to mention `pid`.
proof fn lemma_insert_skip(s: Seq<GameEntry>, pid: u64, name: String, i: int)
    requires
        0 <= i <= s.len(),
        forall|j: int| 0 <= j < i ==> s[j].pid != pid,
    ensures
        spec_insert(s, pid, name) == s.take(i) + spec_insert(s.skip(i), pid, name),
    decreases i,
{
    if i == 0 {
        assert(s.skip(0) =~= s);
        assert(s.take(0) + spec_insert(s, pid, name) =~= spec_insert(s, pid, name));
    } else {
        let t = s.drop_first();
        assert(s[0].pid != pid);
        lemma_insert_skip(t, pid, name, i - 1);
        assert(t.skip(i - 1) =~= s.skip(i));
        assert(spec_insert(s, pid, name) == seq![s[0]] + spec_insert(t, pid, name));
        assert(seq![s[0]] + (t.take(i - 1) + spec_insert(s.skip(i), pid, name)) =~= s.take(i)
            + spec_insert(s.skip(i), pid, name));
    }
}

/// Unfolding `spec_remove` past a prefix known not to mention `pid`.
proof fn lemma_remove_skip(s: Seq<GameEntry>, pid: u64, i: int)
    requires
        0 <= i <= s.len(),
        forall|j: int| 0 <= j < i ==> s[j].pid != pid,
    ensures
        spec_remove(s, pid) == s.take(i) + spec_remove(s.skip(i), pid),
    decreases i,
{
    if i == 0 {
        assert(s.skip(0) =~= s);
        assert(s.take(0) + spec_remove(s, pid) =~= spec_remove(s, pid));
    } else {
        let t = s.drop_first();
        assert(s[0].pid != pid);
        lemma_remove_skip(t, pid, i - 1);
        assert(t.skip(i - 1) =~= s.skip(i));
        assert(spec_remove(s, pid) == seq![s[0]] + spec_remove(t, pid));
        assert(seq![s[0]] + (t.take(i - 1) + spec_remove(s.skip(i), pid)) =~= s.take(i)
            + spec_remove(s.skip(i), pid));
    }
}

/// The in-memory registry of active games.  Mutated only through
/// `insert_or_replace` and `remove`; read only through `current_names`.
pub struct Registry {
    entries: Vec<GameEntry>,
}

impl View for Registry {
    type V = Seq<GameEntry>;

    closed spec fn view(&self) -> Seq<GameEntry> {
        self.entries@
    }
}

impl Registry {
    /// No process identifier is tracked twice.
    pub open spec fn wf(&self) -> bool {
        wf_entries(self@)
    }

    /// An empty registry: no game is active.
    pub fn new() -> (r: Registry)
        ensures
            r@ == Seq::<GameEntry>::empty(),
            r.wf(),
    {
        Registry { entries: Vec::new() }
    }

    /// How many games are currently registered.
    pub fn len(&self) -> (n: usize)
        ensures
            n == self@.len(),
    {
        self.entries.len()
    }

    /// Record `name` for `pid`.  An already-active `pid` keeps its position
    /// and only its display name changes (last registration wins); a new
    /// `pid` is appended.  The size grows only in the second case.
    pub fn insert_or_replace(&mut self, pid: u64, name: String)
        requires
            old(self).wf(),
        ensures
            final(self).wf(),
            final(self)@ == spec_insert(old(self)@, pid, name),
            final(self)@.len() == old(self)@.len() + (if lookup(old(self)@, pid) is Some {
                0int
            } else {
                1int
            }),
            forall|q: u64|
                lookup(final(self)@, q) == (if q == pid {
                    Some(name)
                } else {
                    lookup(old(self)@, q)
                }),
    {
        let ghost s = self.entries@;
        let ghost e = (GameEntry { pid, name });
        let n: usize = self.entries.len();
        let mut i: usize = 0;
        while i < n && self.entries[i].pid != pid
            invariant
                self.entries@ == s,
                n == s.len(),
                i <= n,
                forall|j: int| 0 <= j < i ==> s[j].pid != pid,
            decreases n - i,
        {
            i += 1;
        }
        proof {
            lemma_insert_skip(s, pid, name, i as int);
        }
        if i < n {
            self.entries.set(i, GameEntry { pid, name });
            proof {
                let rest = s.skip(i as int);
                assert(rest[0] == s[i as int]);
                assert(rest[0].pid == pid);
                assert(spec_insert(rest, pid, name) == seq![e] + rest.drop_first());
                assert(s.take(i as int) + (seq![e] + rest.drop_first()) =~= s.update(i as int, e));
            }
        } else {
            self.entries.push(GameEntry { pid, name });
            proof {
                let rest = s.skip(i as int);
                assert(rest =~= Seq::<GameEntry>::empty());
                assert(spec_insert(rest, pid, name) == seq![e]);
                assert(s.take(i as int) + seq![e] =~= s.push(e));
            }
        }
        proof {
            lemma_insert_wf(s, pid, name);
            lemma_insert_len(s, pid, name);
            assert forall|q: u64|
                lookup(self@, q) == (if q == pid {
                    Some(name)
                } else {
                    lookup(s, q)
                }) by {
                lemma_insert_lookup(s, pid, name, q);
            }
        }
    }

    /// Forget `pid`.  Removing an absent process identifier is a no-op and
    /// leaves the registry unchanged.
    pub fn remove(&mut self, pid: u64)
        requires
            old(self).wf(),
        ensures
            final(self).wf(),
            final(self)@ == spec_remove(old(self)@, pid),
            final(self)@.len() == old(self)@.len() - (if lookup(old(self)@, pid) is Some {
                1int
            } else {
                0int
            }),
            lookup(old(self)@, pid) is None ==> final(self)@ == old(self)@,
            forall|q: u64|
                lookup(final(self)@, q) == (if q == pid {
                    None::<String>
                } else {
                    lookup(old(self)@, q)
                }),
    {
        let ghost s = self.entries@;
        let n: usize = self.entries.len();
        let mut i: usize = 0;
        while i < n && self.entries[i].pid != pid
            invariant
                self.entries@ == s,
                n == s.len(),
                i <= n,
                forall|j: int| 0 <= j < i ==> s[j].pid != pid,
            decreases n - i,
        {
            i += 1;
        }
        proof {
            lemma_remove_skip(s, pid, i as int);
        }
        if i < n {
            self.entries.remove(i);
            proof {
                let rest = s.skip(i as int);
                assert(rest[0] == s[i as int]);
                assert(rest[0].pid == pid);
                assert(spec_remove(rest, pid) == rest.drop_first());
                assert(s.take(i as int) + rest.drop_first() =~= s.remove(i as int));
            }
        } else {
            proof {
                let rest = s.skip(i as int);
                assert(rest =~= Seq::<GameEntry>::empty());
                assert(s.take(i as int) + spec_remove(rest, pid) =~= s);
            }
        }
        proof {
            lemma_remove_wf(s, pid);
            lemma_remove_len(s, pid);
            if lookup(s, pid) is None {
                lemma_remove_absent(s, pid);
            }
            assert forall|q: u64|
                lookup(self@, q) == (if q == pid {
                    None::<String>
                } else {
                    lookup(s, q)
                }) by {
                lemma_remove_lookup(s, pid, q);
            }
        }
    }

    /// The current display names, one per active game, in registry order.
    /// This is the whole content of a snapshot.
    pub fn current_names(&self) -> (r: Vec<String>)
        ensures
            r@ == self@.map_values(|e: GameEntry| e.name),
    {
        let ghost s = self.entries@;
        let mut r: Vec<String> = Vec::new();
        let mut i: usize = 0;
        while i < self.entries.len()
            invariant
                self.entries@ == s,
                i <= s.len(),
                r@ == s.take(i as int).map_values(|e: GameEntry| e.name),
            decreases s.len() - i,
        {
            let name = self.entries[i].name.clone();
            r.push(name);
            proof {
                assert(s.take(i + 1).drop_last() =~= s.take(i as int));
                assert(s.take(i + 1).last() == s[i as int]);
                assert(s.take(i + 1).map_values(|e: GameEntry| e.name) =~= s.take(
                    i as int,
                ).map_values(|e: GameEntry| e.name).push(s[i as int].name));
            }
            i += 1;
        }
        proof {
            assert(s.take(s.len() as int) =~= s);
        }
        r
    }
}

} // verus!
