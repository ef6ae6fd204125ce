//! A registry of deferred, cancellable, one-shot callbacks.
//!
//! `push` stores a callback under a fresh [`DispatchId`] together with a
//! [`CancellationToken`]; `pop` removes and returns the callback — unless its
//! token was cancelled first, in which case the entry is dropped silently and
//! never invoked. A removed id yields nothing on any later lookup, so every
//! entry fires at most once. This one mechanism backs timeout scheduling and
//! deferred cross-thread triggers alike.
//!
//! Cancellation races are resolved by construction: the token of a pending
//! entry lives inside the list, and both cancelling and popping go through
//! the list's single owner, so a cancel either happens strictly before the
//! pop — and the callback is never yielded — or strictly after, when the
//! entry is already gone.

use vstd::prelude::*;
use std::collections::HashMap;

verus! {

broadcast use vstd::std_specs::hash::group_hash_axioms;

/// The unique key of one pending deferred callback.
pub type DispatchId = u64;

/// A request to fire previously registered dispatch entries.
#[derive(Debug, PartialEq, Eq)]
pub enum DispatchMsg {
    /// Fire each of these ids, in order, skipping cancelled or unknown ones.
    ExecuteDispatch(Vec<DispatchId>),
}

/// A monotonic cancellation flag: once set it is never cleared. While its
/// entry is pending the token lives inside the dispatch list, and the holder
/// reaches it by id through the list, so checking and removing are one
/// atomic step of the list's owner.
#[derive(Clone, Copy, Debug, PartialEq, Eq, Structural)]
pub struct CancellationToken {
    pub cancelled: bool,
}

impl CancellationToken {
    /// A fresh, uncancelled token.
    pub fn new() -> (r: CancellationToken)
        ensures
            r == (CancellationToken { cancelled: false }),
    {
        CancellationToken { cancelled: false }
    }

    /// Cancel: set the flag, irreversibly.
    pub fn cancel(&mut self)
        ensures
            *final(self) == (CancellationToken { cancelled: true }),
    {
        self.cancelled = true;
    }
}

/// One pending deferred callback and its cancellation token.
pub struct DispatchEntry<T> {
    pub callback: T,
    pub token: CancellationToken,
}

/// The registry of pending entries, keyed by id.
pub struct DispatchList<T> {
    items: HashMap<DispatchId, DispatchEntry<T>>,
    next_id: DispatchId,
}

/// The registry and result of a pop: a present entry is removed either way,
/// and its callback is yielded only if its token was not cancelled.
pub open spec fn spec_pop<T>(m: Map<DispatchId, DispatchEntry<T>>, id: DispatchId) -> (
    Map<DispatchId, DispatchEntry<T>>,
    Option<T>,
) {
    if m.contains_key(id) {
        (m.remove(id), if m[id].token.cancelled {
            None
        } else {
            Some(m[id].callback)
        })
    } else {
        (m, None)
    }
}

/// The registry and yielded callbacks, in order, of popping each id in turn.
pub open spec fn spec_fire_many<T>(m: Map<DispatchId, DispatchEntry<T>>, ids: Seq<DispatchId>) -> (
    Map<DispatchId, DispatchEntry<T>>,
    Seq<T>,
)
    decreases ids.len(),
{
    if ids.len() == 0 {
        (m, Seq::<T>::empty())
    } else {
        let (m1, fired) = spec_pop(m, ids[0]);
        let (m2, rest) = spec_fire_many(m1, ids.skip(1));
        match fired {
            Some(cb) => (m2, seq![cb] + rest),
            None => (m2, rest),
        }
    }
}

impl<T> DispatchList<T> {
    /// The pending entries by id.
    pub closed spec fn entries(self) -> Map<DispatchId, DispatchEntry<T>> {
        self.items@
    }

    /// The id the next push will use.
    pub closed spec fn spec_next_id(self) -> DispatchId {
        self.next_id
    }

    /// Every pending id was handed out before: ids never repeat.
    pub open spec fn wf(self) -> bool {
        forall|id: DispatchId| self.entries().dom().contains(id) ==> id < self.spec_next_id()
    }

    /// An empty registry.
    pub fn new() -> (r: DispatchList<T>)
        ensures
            r.wf(),
            r.entries() == Map::<DispatchId, DispatchEntry<T>>::empty(),
            r.spec_next_id() == 0,
    {
        DispatchList { items: HashMap::new(), next_id: 0 }
    }

    /// The id the next push will use; ids are never reused, so a caller can
    /// check that the id space is not exhausted.
    pub fn next_id(&self) -> (r: DispatchId)
        ensures
            r == self.spec_next_id(),
    {
        self.next_id
    }

    /// Register a one-shot callback with its cancellation token under a fresh
    /// id. The id names no other entry, live or ever removed.
    pub fn push(&mut self, callback: T, token: CancellationToken) -> (id: DispatchId)
        requires
            old(self).wf(),
            old(self).spec_next_id() < DispatchId::MAX,
        ensures
            final(self).wf(),
            id == old(self).spec_next_id(),
            !old(self).entries().dom().contains(id),
            final(self).entries() == old(self).entries().insert(
                id,
                DispatchEntry { callback, token },
            ),
            final(self).spec_next_id() == id + 1,
    {
        let id = self.next_id;
        self.next_id = self.next_id + 1;
        self.items.insert(id, DispatchEntry { callback, token });
        proof {
            assert forall|x: DispatchId| self.entries().dom().contains(x) implies x
                < self.spec_next_id() by {
                if x != id {
                    assert(old(self).entries().dom().contains(x));
                }
            };
        }
        id
    }

    /// Remove the entry of `id` and return its callback, unless the entry is
    /// unknown — already fired, cancelled away, or never registered — or its
    /// token was cancelled strictly before this pop observed it.
    pub fn pop(&mut self, id: DispatchId) -> (r: Option<T>)
        ensures
            (final(self).entries(), r) == spec_pop(old(self).entries(), id),
            final(self).spec_next_id() == old(self).spec_next_id(),
    {
        match self.items.remove(&id) {
            Some(entry) => {
                if entry.token.cancelled {
                    None
                } else {
                    Some(entry.callback)
                }
            },
            None => {
                proof {
                    assert(self.items@ =~= old(self).items@);
                }
                None
            },
        }
    }

    /// Cancel the pending entry of `id`, if it is still pending: its token is
    /// set, irreversibly, and no pop will ever yield its callback. Returns
    /// whether a pending entry was found.
    pub fn cancel(&mut self, id: DispatchId) -> (found: bool)
        ensures
            found == old(self).entries().dom().contains(id),
            found ==> final(self).entries() == old(self).entries().insert(
                id,
                DispatchEntry {
                    callback: old(self).entries()[id].callback,
                    token: CancellationToken { cancelled: true },
                },
            ),
            !found ==> final(self).entries() == old(self).entries(),
            final(self).spec_next_id() == old(self).spec_next_id(),
    {
        match self.items.remove(&id) {
            Some(entry) => {
                self.items.insert(
                    id,
                    DispatchEntry { callback: entry.callback, token: CancellationToken { cancelled: true } },
                );
                proof {
                    assert(self.items@ =~= old(self).items@.insert(
                        id,
                        DispatchEntry {
                            callback: old(self).items@[id].callback,
                            token: CancellationToken { cancelled: true },
                        },
                    ));
                }
                true
            },
            None => {
                proof {
                    assert(self.items@ =~= old(self).items@);
                }
                false
            },
        }
    }

    /// Pop each id in order and return the callbacks that were still pending
    /// and uncancelled, in the same order.
    pub fn fire_many(&mut self, ids: &Vec<DispatchId>) -> (r: Vec<T>)
        ensures
            (final(self).entries(), r@) == spec_fire_many(old(self).entries(), ids@),
            final(self).spec_next_id() == old(self).spec_next_id(),
    {
        let ghost target = spec_fire_many(self.entries(), ids@);
        let mut fired: Vec<T> = Vec::new();
        let mut i: usize = 0;
        proof {
            assert(ids@.skip(0) =~= ids@);
            assert(fired@ + target.1 =~= target.1);
        }
        while i < ids.len()
            invariant
                i <= ids.len(),
                target == spec_fire_many(old(self).entries(), ids@),
                self.spec_next_id() == old(self).spec_next_id(),
                ({
                    let (m2, rest) = spec_fire_many(self.entries(), ids@.skip(i as int));
                    &&& target.0 == m2
                    &&& target.1 == fired@ + rest
                }),
            decreases ids.len() - i,
        {
            proof {
                assert(ids@.skip(i as int)[0] == ids@[i as int]);
                assert(ids@.skip(i as int).skip(1) =~= ids@.skip(i + 1));
            }
            let ghost old_fired = fired@;
            match self.pop(ids[i]) {
                Some(cb) => {
                    fired.push(cb);
                    proof {
                        let rest = spec_fire_many(self.entries(), ids@.skip(i + 1)).1;
                        assert(old_fired + (seq![fired@[fired@.len() - 1]] + rest) =~= fired@
                            + rest);
                    }
                },
                None => {
                },
            }
            i = i + 1;
        }
        fired
    }
}

/// Fire-at-most-once: pushing a callback with a fresh token and popping its
/// id yields exactly that callback, and a second pop of the same id yields
/// nothing.
pub proof fn lemma_push_then_pop_fires_once<T>(
    m: Map<DispatchId, DispatchEntry<T>>,
    id: DispatchId,
    callback: T,
)
    requires
        !m.contains_key(id),
    ensures
        ({
            let pushed = m.insert(
                id,
                DispatchEntry { callback, token: CancellationToken { cancelled: false } },
            );
            let (after_pop, fired) = spec_pop(pushed, id);
            &&& fired == Some(callback)
            &&& spec_pop(after_pop, id).1 is None
            &&& after_pop == m
        }),
{
    let pushed = m.insert(
        id,
        DispatchEntry { callback, token: CancellationToken { cancelled: false } },
    );
    assert(pushed.remove(id) =~= m);
}

/// A token cancelled strictly before the pop is observed means the pop never
/// yields the callback — for dispatch purposes the entry might as well never
/// have existed, though it is cleaned out of the registry.
pub proof fn lemma_cancel_before_pop_never_fires<T>(
    m: Map<DispatchId, DispatchEntry<T>>,
    id: DispatchId,
)
    requires
        m.contains_key(id),
    ensures
        ({
            let cancelled = m.insert(
                id,
                DispatchEntry {
                    callback: m[id].callback,
                    token: CancellationToken { cancelled: true },
                },
            );
            let (after_pop, fired) = spec_pop(cancelled, id);
            &&& fired is None
            &&& !after_pop.contains_key(id)
        }),
{
}

} // verus!
