//! The event distribution hub: a named-event listener registry plus a global
//! (all-events) listener list, with dispatch in three modes.
//!
//! Listener bodies are host callables reached through [`Listener`]; the hub
//! only decides *which* callables run and in *what order*. Within one event
//! name the order is most-recently-registered first, and no listener identity
//! appears twice — both are invariants of the registry, stated below and
//! preserved by every operation. A host binding that shares one hub among
//! threads holds it behind an exclusion lock for each registry operation;
//! where a listener body may itself re-enter registration, the binding takes
//! [`EventHub::listeners_snapshot`] and [`EventHub::global_snapshot`] under
//! the lock, releases it, and only then invokes — snapshot-then-iterate, so
//! reentrant mutation never deadlocks on a dispatch in flight.

use vstd::prelude::*;
use crate::host::Listener;
use crate::seq_facts::lemma_filter_keeps_everything;
use crate::seq_facts::lemma_filter_removes_one;

verus! {

/// A registered listener: the host callback together with the identity the
/// caller registers, deduplicates and removes it by.
pub struct Entry<L> {
    pub id: u64,
    pub callback: L,
}

/// The listener list of one event name.
pub struct NamedList<L> {
    pub name: String,
    pub entries: Vec<Entry<L>>,
}

/// The entries registered under `name` in a named table: those of the first
/// list carrying the name, and the empty sequence when no list does.
pub open spec fn lookup<L>(lists: Seq<NamedList<L>>, name: Seq<char>) -> Seq<Entry<L>>
    decreases lists.len(),
{
    if lists.len() == 0 {
        Seq::empty()
    } else if lists[0].name@ == name {
        lists[0].entries@
    } else {
        lookup(lists.drop_first(), name)
    }
}

/// Whether some entry in `es` carries the identity `id`.
pub open spec fn has_id<L>(es: Seq<Entry<L>>, id: u64) -> bool {
    exists|i: int| 0 <= i < es.len() && es[i].id == id
}

/// No identity appears twice in `es`.
pub open spec fn entries_unique<L>(es: Seq<Entry<L>>) -> bool {
    forall|i: int, j: int| 0 <= i < j < es.len() ==> es[i].id != es[j].id
}

/// What registration does to a listener list: nothing when the identity is
/// already present, otherwise the new entry goes to the front, so the most
/// recently registered listener runs first.
pub open spec fn registered<L>(es: Seq<Entry<L>>, e: Entry<L>) -> Seq<Entry<L>> {
    if has_id(es, e.id) {
        es
    } else {
        seq![e] + es
    }
}

/// How many entries of `es` carry the identity `id`.
pub open spec fn count_id<L>(es: Seq<Entry<L>>, id: u64) -> nat
    decreases es.len(),
{
    if es.len() == 0 {
        0
    } else {
        (if es[0].id == id {
            1nat
        } else {
            0nat
        }) + count_id(es.drop_first(), id)
    }
}

/// The predicate a removal filters a listener list with: keep every entry
/// whose identity differs from the one being removed.
pub open spec fn keeps_entry<L>(id: u64) -> spec_fn(Entry<L>) -> bool {
    |e: Entry<L>| e.id != id
}

/// Skipping lists that do not carry the looked-up name leaves the lookup
/// result unchanged.
proof fn lemma_lookup_skip<L>(lists: Seq<NamedList<L>>, name: Seq<char>, i: int)
    requires
        0 <= i <= lists.len(),
        forall|k: int| 0 <= k < i ==> lists[k].name@ != name,
    ensures
        lookup(lists, name) == lookup(lists.skip(i), name),
    decreases i,
{
    if i > 0 {
        assert(lists.skip(0) =~= lists);
        lemma_lookup_skip(lists.drop_first(), name, i - 1);
        assert(lists.drop_first().skip(i - 1) =~= lists.skip(i));
    } else {
        assert(lists.skip(0) =~= lists);
    }
}

/// The lookup result is the entry list of the first list carrying the name.
proof fn lemma_lookup_at_first_match<L>(lists: Seq<NamedList<L>>, name: Seq<char>, i: int)
    requires
        0 <= i < lists.len(),
        lists[i].name@ == name,
        forall|k: int| 0 <= k < i ==> lists[k].name@ != name,
    ensures
        lookup(lists, name) == lists[i].entries@,
{
    lemma_lookup_skip(lists, name, i);
    assert(lists.skip(i)[0] == lists[i]);
}

/// When no list carries the name, the lookup result is empty.
proof fn lemma_lookup_absent<L>(lists: Seq<NamedList<L>>, name: Seq<char>)
    requires
        forall|k: int| 0 <= k < lists.len() ==> lists[k].name@ != name,
    ensures
        lookup(lists, name) == Seq::<Entry<L>>::empty(),
{
    lemma_lookup_skip(lists, name, lists.len() as int);
    assert(lists.skip(lists.len() as int) =~= Seq::<NamedList<L>>::empty());
}

/// Replacing the first list that carries a name with a list of the same name
/// changes the lookup of that name to the new entries and no other lookup.
proof fn lemma_lookup_update<L>(lists: Seq<NamedList<L>>, i: int, nl: NamedList<L>)
    requires
        0 <= i < lists.len(),
        forall|k: int| 0 <= k < i ==> lists[k].name@ != lists[i].name@,
        nl.name@ == lists[i].name@,
    ensures
        lookup(lists.update(i, nl), nl.name@) == nl.entries@,
        forall|m: Seq<char>|
            m != nl.name@ ==> lookup(lists.update(i, nl), m) == lookup(lists, m),
    decreases lists.len(),
{
    let upd = lists.update(i, nl);
    if i == 0 {
        assert(upd[0] == nl);
        assert(upd.drop_first() =~= lists.drop_first());
        assert forall|m: Seq<char>| m != nl.name@ implies lookup(upd, m) == lookup(lists, m) by {
            assert(lookup(upd, m) == lookup(upd.drop_first(), m));
        }
    } else {
        lemma_lookup_update(lists.drop_first(), i - 1, nl);
        assert(upd[0] == lists[0]);
        assert(upd.drop_first() =~= lists.drop_first().update(i - 1, nl));
        assert(lists[0].name@ != nl.name@);
        assert(lookup(upd, nl.name@) == lookup(upd.drop_first(), nl.name@));
        assert forall|m: Seq<char>| m != nl.name@ implies lookup(upd, m) == lookup(lists, m) by {
            if m == lists[0].name@ {
                assert(lookup(upd, m) == upd[0].entries@);
            } else {
                assert(lookup(upd, m) == lookup(upd.drop_first(), m));
                assert(lookup(lists, m) == lookup(lists.drop_first(), m));
            }
        }
    }
}

/// Putting a list with a fresh name at the front serves lookups of that name
/// from the new list and leaves every other lookup unchanged.
proof fn lemma_lookup_prepend<L>(lists: Seq<NamedList<L>>, nl: NamedList<L>)
    ensures
        lookup(seq![nl] + lists, nl.name@) == nl.entries@,
        forall|m: Seq<char>|
            m != nl.name@ ==> lookup(seq![nl] + lists, m) == lookup(lists, m),
{
    let ext = seq![nl] + lists;
    assert(ext[0] == nl);
    assert(ext.drop_first() =~= lists);
}

/// The event hub.
///
/// `raise_on_error` selects the dispatch failure mode fixed at construction:
/// with it off, [`EventHub::dispatch`] swallows every listener error; with it
/// on, dispatch stops at the first named listener that raises and hands that
/// error back, though global listeners still run.
pub struct EventHub<L> {
    pub named: Vec<NamedList<L>>,
    pub global: Vec<Entry<L>>,
    pub raise_on_error: bool,
}

impl<L> EventHub<L> {
    /// The registry invariant: event names appear once in the named table,
    /// and no listener identity appears twice within one list.
    pub open spec fn wf(self) -> bool {
        &&& forall|i: int, j: int|
            0 <= i < j < self.named@.len() ==> self.named@[i].name@ != self.named@[j].name@
        &&& forall|i: int|
            0 <= i < self.named@.len() ==> entries_unique(#[trigger] self.named@[i].entries@)
        &&& entries_unique(self.global@)
    }

    /// The listeners registered under `name`, in invocation order.
    pub open spec fn listeners_for(self, name: Seq<char>) -> Seq<Entry<L>> {
        lookup(self.named@, name)
    }

    /// Whether dispatching `name` would reach at least one named listener.
    pub open spec fn spec_has_listeners(self, name: Seq<char>) -> bool {
        self.listeners_for(name).len() > 0
    }

    /// Constructs an empty hub with the given dispatch failure mode.
    pub fn new(raise_on_error: bool) -> (h: EventHub<L>)
        ensures
            h.wf(),
            h.named@.len() == 0,
            h.global@.len() == 0,
            h.raise_on_error == raise_on_error,
            forall|m: Seq<char>| h.listeners_for(m) == Seq::<Entry<L>>::empty(),
    {
        let h = EventHub { named: Vec::new(), global: Vec::new(), raise_on_error };
        proof {
            assert forall|m: Seq<char>| h.listeners_for(m) == Seq::<Entry<L>>::empty() by {
                lemma_lookup_absent(h.named@, m);
            }
        }
        h
    }

    /// The position of the (unique) list carrying `name`, if one exists.
    #[verifier::loop_isolation(false)]
    fn find_named(&self, name: &String) -> (r: Option<usize>)
        ensures
            match r {
                Some(i) => {
                    &&& i < self.named@.len()
                    &&& self.named@[i as int].name@ == name@
                    &&& forall|k: int| 0 <= k < i ==> self.named@[k].name@ != name@
                },
                None => forall|k: int| 0 <= k < self.named@.len() ==> self.named@[k].name@ != name@,
            },
    {
        let n = self.named.len();
        let mut i: usize = 0;
        while i < n
            invariant
                n == self.named@.len(),
                i <= n,
                forall|k: int| 0 <= k < i ==> self.named@[k].name@ != name@,
            decreases n - i,
        {
            if self.named[i].name == *name {
                return Some(i);
            }
            i += 1;
        }
        None
    }

    /// Whether a non-empty listener list exists for `name`.
    pub fn has_listeners(&self, name: &String) -> (r: bool)
        ensures
            r == self.spec_has_listeners(name@),
    {
        match self.find_named(name) {
            Some(i) => {
                proof {
                    lemma_lookup_at_first_match(self.named@, name@, i as int);
                }
                self.named[i].entries.len() > 0
            },
            None => {
                proof {
                    lemma_lookup_absent(self.named@, name@);
                }
                false
            },
        }
    }

    /// Registers `callback` under `name` with identity `id`: a no-op when the
    /// identity is already registered there, otherwise the listener goes to
    /// the front of the list, ahead of every earlier registration. Listeners
    /// of other names and the global list are untouched.
    pub fn on(&mut self, name: &String, id: u64, callback: L)
        requires
            old(self).wf(),
        ensures
            final(self).wf(),
            final(self).listeners_for(name@) == registered(
                old(self).listeners_for(name@),
                (Entry { id, callback }),
            ),
            forall|m: Seq<char>|
                m != name@ ==> final(self).listeners_for(m) == old(self).listeners_for(m),
            has_id(final(self).listeners_for(name@), id),
            final(self).global@ == old(self).global@,
            final(self).raise_on_error == old(self).raise_on_error,
    {
        let entry = Entry { id, callback };
        let ghost gentry = entry;
        match self.find_named(name) {
            Some(i) => {
                proof {
                    lemma_lookup_at_first_match(self.named@, name@, i as int);
                }
                if !contains_entry_id(&self.named[i].entries, id) {
                    let ghost before = self.named@;
                    self.named[i].entries.insert(0, entry);
                    proof {
                        assert(self.named@[i as int].entries@ =~= seq![gentry]
                            + before[i as int].entries@);
                        assert(self.named@ =~= before.update(i as int, self.named@[i as int]));
                        lemma_lookup_update(before, i as int, self.named@[i as int]);
                        assert(self.listeners_for(name@)[0] == gentry);
                    }
                }
            },
            None => {
                proof {
                    lemma_lookup_absent(self.named@, name@);
                }
                let nl = NamedList { name: name.clone(), entries: vec![entry] };
                let ghost before = self.named@;
                self.named.insert(0, nl);
                proof {
                    assert(self.named@ =~= seq![self.named@[0]] + before);
                    assert(self.named@[0].entries@ =~= seq![gentry]);
                    assert(seq![gentry] =~= seq![gentry] + Seq::<Entry<L>>::empty());
                    lemma_lookup_prepend(before, self.named@[0]);
                    assert(self.listeners_for(name@)[0] == gentry);
                }
            },
        }
    }

    /// Registers `callback` with identity `id` in the global list, which
    /// receives every dispatched event: the same idempotence and
    /// most-recent-first placement as [`EventHub::on`]. The named table is
    /// untouched.
    pub fn on_all(&mut self, id: u64, callback: L)
        requires
            old(self).wf(),
        ensures
            final(self).wf(),
            final(self).global@ == registered(old(self).global@, (Entry { id, callback })),
            has_id(final(self).global@, id),
            final(self).named@ == old(self).named@,
            final(self).raise_on_error == old(self).raise_on_error,
    {
        let entry = Entry { id, callback };
        let ghost gentry = entry;
        if !contains_entry_id(&self.global, id) {
            self.global.insert(0, entry);
            proof {
                assert(self.global@ =~= seq![gentry] + old(self).global@);
                assert(self.global@[0] == gentry);
            }
        }
    }

    /// Removes every listener with identity `id` from the list of `name` — at
    /// most one exists, by the registry invariant; a no-op when none does.
    /// Listeners of other names and the global list are untouched.
    pub fn remove(&mut self, name: &String, id: u64)
        requires
            old(self).wf(),
        ensures
            final(self).wf(),
            final(self).listeners_for(name@) == old(self).listeners_for(name@).filter(
                keeps_entry(id),
            ),
            !has_id(final(self).listeners_for(name@), id),
            forall|m: Seq<char>|
                m != name@ ==> final(self).listeners_for(m) == old(self).listeners_for(m),
            final(self).global@ == old(self).global@,
            final(self).raise_on_error == old(self).raise_on_error,
    {
        match self.find_named(name) {
            Some(i) => {
                proof {
                    lemma_lookup_at_first_match(self.named@, name@, i as int);
                }
                match find_entry_id(&self.named[i].entries, id) {
                    Some(j) => {
                        let ghost before = self.named@;
                        self.named[i].entries.remove(j);
                        proof {
                            lemma_filter_removes_one(
                                before[i as int].entries@,
                                j as int,
                                keeps_entry::<L>(id),
                            );
                            before[i as int].entries@.remove_ensures(j as int);
                            assert(self.named@ =~= before.update(i as int, self.named@[i as int]));
                            lemma_lookup_update(before, i as int, self.named@[i as int]);
                            lemma_removed_never_invoked(before[i as int].entries@, id);
                        }
                    },
                    None => {
                        proof {
                            lemma_filter_keeps_everything(
                                self.named@[i as int].entries@,
                                keeps_entry::<L>(id),
                            );
                        }
                    },
                }
            },
            None => {
                proof {
                    lemma_lookup_absent(self.named@, name@);
                    lemma_filter_keeps_everything(
                        Seq::<Entry<L>>::empty(),
                        keeps_entry::<L>(id),
                    );
                }
            },
        }
    }

    /// Clears the named table and the global list: afterwards no name has
    /// listeners. Used for test isolation and process-wide reinitialization.
    pub fn reset(&mut self)
        ensures
            final(self).wf(),
            final(self).named@.len() == 0,
            final(self).global@.len() == 0,
            final(self).raise_on_error == old(self).raise_on_error,
            forall|m: Seq<char>| final(self).listeners_for(m) == Seq::<Entry<L>>::empty(),
    {
        self.named.clear();
        self.global.clear();
        proof {
            assert forall|m: Seq<char>| self.listeners_for(m) == Seq::<Entry<L>>::empty() by {
                lemma_lookup_absent(self.named@, m);
            }
        }
    }
}

impl<L> EventHub<L> {
    /// Fire-and-forget dispatch: invokes every listener registered under
    /// `name`, most recently registered first, then every global listener
    /// with the event name ahead of the arguments.
    ///
    /// With the hub's `raise_on_error` off, every listener error is
    /// swallowed and the call returns `Ok`. With it on, the first error of a
    /// named listener is returned and the named listeners after it are
    /// skipped — but the global listeners still run.
    #[verifier::loop_isolation(false)]
    pub fn dispatch<Args, Ret, E>(&self, name: &String, args: &Args) -> (r: Result<(), E>) where
        L: Listener<Args, Ret, E>,
        ensures
            !self.raise_on_error ==> r is Ok,
            r is Err ==> self.raise_on_error && self.listeners_for(name@).len() > 0,
    {
        let mut failure: Option<E> = None;
        match self.find_named(name) {
            Some(i) => {
                proof {
                    lemma_lookup_at_first_match(self.named@, name@, i as int);
                }
                let es = &self.named[i].entries;
                let n = es.len();
                let mut j: usize = 0;
                while j < n
                    invariant
                        n == es@.len(),
                        j <= n,
                        !self.raise_on_error ==> failure is None,
                        failure is Some ==> self.raise_on_error && self.listeners_for(
                            name@,
                        ).len() > 0,
                    decreases n - j,
                {
                    match es[j].callback.invoke(args) {
                        Ok(_) => {},
                        Err(e) => {
                            if self.raise_on_error {
                                failure = Some(e);
                                break ;
                            }
                        },
                    }
                    j += 1;
                }
            },
            None => {},
        }
        let g = self.global.len();
        let mut j: usize = 0;
        while j < g
            invariant
                g == self.global@.len(),
                j <= g,
                !self.raise_on_error ==> failure is None,
                failure is Some ==> self.raise_on_error && self.listeners_for(name@).len() > 0,
            decreases g - j,
        {
            let _ = self.global[j].callback.invoke_all(name, args);
            j += 1;
        }
        match failure {
            Some(e) => Err(e),
            None => Ok(()),
        }
    }

    /// Collecting dispatch: invokes every listener registered under `name`,
    /// most recently registered first, and returns two sequences aligned
    /// with the listener order — `r.0[k]` holds what listener `k` returned
    /// and `r.1[k]` the error it raised, exactly one of the two present —
    /// then invokes every global listener with the event name ahead of the
    /// arguments. No listener failure aborts the rest.
    #[verifier::loop_isolation(false)]
    pub fn dispatch_with_results<Args, Ret, E>(&self, name: &String, args: &Args) -> (r: (
        Vec<Option<Ret>>,
        Vec<Option<E>>,
    )) where L: Listener<Args, Ret, E>
        ensures
            r.0@.len() == self.listeners_for(name@).len(),
            r.1@.len() == self.listeners_for(name@).len(),
            forall|k: int| 0 <= k < r.0@.len() ==> ((r.0@[k] is Some) <==> (r.1@[k] is None)),
    {
        let mut results: Vec<Option<Ret>> = Vec::new();
        let mut errors: Vec<Option<E>> = Vec::new();
        match self.find_named(name) {
            Some(i) => {
                proof {
                    lemma_lookup_at_first_match(self.named@, name@, i as int);
                }
                let es = &self.named[i].entries;
                let n = es.len();
                let mut j: usize = 0;
                while j < n
                    invariant
                        n == es@.len(),
                        j <= n,
                        results@.len() == j,
                        errors@.len() == j,
                        forall|k: int|
                            0 <= k < j ==> ((results@[k] is Some) <==> (errors@[k] is None)),
                    decreases n - j,
                {
                    match es[j].callback.invoke(args) {
                        Ok(v) => {
                            results.push(Some(v));
                            errors.push(None);
                        },
                        Err(e) => {
                            results.push(None);
                            errors.push(Some(e));
                        },
                    }
                    j += 1;
                }
            },
            None => {
                proof {
                    lemma_lookup_absent(self.named@, name@);
                }
            },
        }
        let g = self.global.len();
        let mut j: usize = 0;
        while j < g
            invariant
                g == self.global@.len(),
                j <= g,
            decreases g - j,
        {
            let _ = self.global[j].callback.invoke_all(name, args);
            j += 1;
        }
        (results, errors)
    }
}

impl<L: Clone> EventHub<L> {
    /// A snapshot of the listeners under `name`: the identity and a clone of
    /// the callback of each, in invocation order.
    ///
    /// A binding whose listener bodies may re-enter registration takes this
    /// under its lock, releases, then invokes the clones: reentrant `on`,
    /// `remove` or `reset` calls then find the lock free instead of
    /// deadlocking against a dispatch in flight.
    #[verifier::loop_isolation(false)]
    pub fn listeners_snapshot(&self, name: &String) -> (r: Vec<(u64, L)>)
        ensures
            r@.len() == self.listeners_for(name@).len(),
            forall|k: int| 0 <= k < r@.len() ==> r@[k].0 == self.listeners_for(name@)[k].id,
    {
        let mut r: Vec<(u64, L)> = Vec::new();
        match self.find_named(name) {
            Some(i) => {
                proof {
                    lemma_lookup_at_first_match(self.named@, name@, i as int);
                }
                let es = &self.named[i].entries;
                let n = es.len();
                let mut j: usize = 0;
                while j < n
                    invariant
                        n == es@.len(),
                        j <= n,
                        r@.len() == j,
                        forall|k: int| 0 <= k < j ==> r@[k].0 == es@[k].id,
                    decreases n - j,
                {
                    r.push((es[j].id, es[j].callback.clone()));
                    j += 1;
                }
            },
            None => {
                proof {
                    lemma_lookup_absent(self.named@, name@);
                }
            },
        }
        r
    }

    /// A snapshot of the global listeners, in invocation order, for the same
    /// lock-release-invoke pattern as [`EventHub::listeners_snapshot`].
    #[verifier::loop_isolation(false)]
    pub fn global_snapshot(&self) -> (r: Vec<(u64, L)>)
        ensures
            r@.len() == self.global@.len(),
            forall|k: int| 0 <= k < r@.len() ==> r@[k].0 == self.global@[k].id,
    {
        let mut r: Vec<(u64, L)> = Vec::new();
        let n = self.global.len();
        let mut j: usize = 0;
        while j < n
            invariant
                n == self.global@.len(),
                j <= n,
                r@.len() == j,
                forall|k: int| 0 <= k < j ==> r@[k].0 == self.global@[k].id,
            decreases n - j,
        {
            r.push((self.global[j].id, self.global[j].callback.clone()));
            j += 1;
        }
        r
    }
}

/// Whether some entry of `es` carries the identity `id`.
#[verifier::loop_isolation(false)]
fn contains_entry_id<L>(es: &Vec<Entry<L>>, id: u64) -> (r: bool)
    ensures
        r == has_id(es@, id),
{
    let n = es.len();
    let mut i: usize = 0;
    while i < n
        invariant
            n == es@.len(),
            i <= n,
            forall|k: int| 0 <= k < i ==> es@[k].id != id,
        decreases n - i,
    {
        if es[i].id == id {
            return true;
        }
        i += 1;
    }
    false
}

/// The position of the first entry of `es` carrying the identity `id`.
#[verifier::loop_isolation(false)]
fn find_entry_id<L>(es: &Vec<Entry<L>>, id: u64) -> (r: Option<usize>)
    ensures
        match r {
            Some(j) => {
                &&& j < es@.len()
                &&& es@[j as int].id == id
                &&& forall|k: int| 0 <= k < j ==> es@[k].id != id
            },
            None => !has_id(es@, id),
        },
{
    let n = es.len();
    let mut i: usize = 0;
    while i < n
        invariant
            n == es@.len(),
            i <= n,
            forall|k: int| 0 <= k < i ==> es@[k].id != id,
        decreases n - i,
    {
        if es[i].id == id {
            return Some(i);
        }
        i += 1;
    }
    None
}

/// In a list without duplicate identities, an identity is counted once when
/// present and not at all otherwise.
pub proof fn lemma_unique_count<L>(es: Seq<Entry<L>>, id: u64)
    requires
        entries_unique(es),
    ensures
        count_id(es, id) == if has_id(es, id) {
            1nat
        } else {
            0nat
        },
    decreases es.len(),
{
    if es.len() > 0 {
        let rest = es.drop_first();
        assert forall|i: int, j: int| 0 <= i < j < rest.len() implies rest[i].id != rest[j].id by {
            assert(rest[i] == es[i + 1] && rest[j] == es[j + 1]);
        }
        lemma_unique_count(rest, id);
        if es[0].id == id {
            assert(has_id(es, id));
            if has_id(rest, id) {
                let w = choose|i: int| 0 <= i < rest.len() && rest[i].id == id;
                assert(es[w + 1].id == id);
                assert(false);
            }
        } else {
            if has_id(es, id) {
                let w = choose|i: int| 0 <= i < es.len() && es[i].id == id;
                assert(rest[w - 1].id == id);
                assert(has_id(rest, id));
            }
            if has_id(rest, id) {
                let w = choose|i: int| 0 <= i < rest.len() && rest[i].id == id;
                assert(es[w + 1].id == id);
                assert(has_id(es, id));
            }
        }
    }
}

/// Law: registering the same listener identity twice under one event name is
/// the same as registering it once, so one dispatch invokes it once.
pub proof fn lemma_register_idempotent<L>(es: Seq<Entry<L>>, first: Entry<L>, second: Entry<L>)
    requires
        first.id == second.id,
    ensures
        registered(registered(es, first), second) == registered(es, first),
{
    if !has_id(es, first.id) {
        assert((seq![first] + es)[0] == first);
        assert(has_id(seq![first] + es, second.id));
    }
}

/// Law: after registering the same identity twice in a list that had no
/// duplicates, exactly one entry carries it, so one dispatch pass over the
/// list reaches it exactly once.
pub proof fn lemma_register_twice_counts_once<L>(
    es: Seq<Entry<L>>,
    first: Entry<L>,
    second: Entry<L>,
)
    requires
        entries_unique(es),
        first.id == second.id,
    ensures
        count_id(registered(registered(es, first), second), first.id) == 1,
{
    lemma_register_idempotent(es, first, second);
    lemma_registered_unique(es, first);
    lemma_unique_count(registered(es, first), first.id);
}

/// Law: the most recently registered listener runs first. Registering two
/// fresh identities in turn puts the second ahead of the first, ahead of
/// everything older.
pub proof fn lemma_most_recent_first<L>(es: Seq<Entry<L>>, older: Entry<L>, newer: Entry<L>)
    requires
        !has_id(es, older.id),
        !has_id(es, newer.id),
        older.id != newer.id,
    ensures
        registered(registered(es, older), newer) == seq![newer, older] + es,
{
    let once = seq![older] + es;
    assert(registered(es, older) == once);
    assert forall|i: int| 0 <= i < once.len() implies once[i].id != newer.id by {
        if i > 0 {
            assert(once[i] == es[i - 1]);
        }
    }
    assert(!has_id(once, newer.id));
    assert(seq![newer] + once =~= seq![newer, older] + es);
}

/// Law: a removed listener is never invoked again — no entry of the filtered
/// list carries the removed identity, so no dispatch position maps to it.
pub proof fn lemma_removed_never_invoked<L>(es: Seq<Entry<L>>, id: u64)
    ensures
        !has_id(es.filter(keeps_entry(id)), id),
{
    let kept = es.filter(keeps_entry::<L>(id));
    assert forall|k: int| 0 <= k < kept.len() implies kept[k].id != id by {
        es.lemma_filter_pred(keeps_entry::<L>(id), k);
    }
}

/// Law: after a reset, no name has listeners.
pub proof fn lemma_reset_clears<L>(h: EventHub<L>, name: Seq<char>)
    requires
        h.named@.len() == 0,
    ensures
        !h.spec_has_listeners(name),
{
}

/// Registration preserves the uniqueness invariant of a listener list and
/// afterwards the identity is present.
pub proof fn lemma_registered_unique<L>(es: Seq<Entry<L>>, e: Entry<L>)
    requires
        entries_unique(es),
    ensures
        entries_unique(registered(es, e)),
        has_id(registered(es, e), e.id),
{
    if !has_id(es, e.id) {
        let ext = seq![e] + es;
        assert(ext[0] == e);
        assert forall|i: int, j: int| 0 <= i < j < ext.len() implies ext[i].id != ext[j].id by {
            assert(ext[j] == es[j - 1]);
            if i > 0 {
                assert(ext[i] == es[i - 1]);
            }
        }
    }
}

} // verus!
