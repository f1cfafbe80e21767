//! Watches that clients have asked for.
use std::collections::HashMap;
use vstd::prelude::*;
use crate::error::VfsError;
use crate::ids::{draw_id, is_random_uuid, was_drawn};

verus! {

broadcast use vstd::std_specs::hash::group_hash_axioms;

/// What keeps a watch alive: dropping it ends the watch.  The payload is never
/// read; it is there to be dropped.
pub struct WatchHandle<T>(pub T);

impl<T> WatchHandle<T> {
    pub fn new(inner: T) -> (r: WatchHandle<T>)
        ensures
            r == WatchHandle(inner),
    {
        WatchHandle(inner)
    }
}

/// The id that comes `k` after another; the first follows the last.
pub open spec fn id_after(from: u128, k: nat) -> u128 {
    ((from + k) % (u128::MAX + 1)) as u128
}

/// The id is not in use, and comes `k` after one from which on all before it
/// are.
pub open spec fn free_after(used: Set<u128>, from: u128, k: nat, id: u128) -> bool {
    &&& id == id_after(from, k)
    &&& !used.contains(id)
    &&& forall|j: nat| j < k ==> used.contains(#[trigger] id_after(from, j))
}

/// The id is the first from `from` on that is not in use.
pub open spec fn first_free(used: Set<u128>, from: u128, id: u128) -> bool {
    exists|k: nat| free_after(used, from, k, id)
}

/// So many ids in a row are different, so that they cannot all be in use where
/// fewer are.
proof fn lemma_used_in_a_row(used: Set<u128>, from: u128, k: nat)
    requires
        used.finite(),
        k <= u128::MAX,
        forall|j: nat| j < k ==> used.contains(#[trigger] id_after(from, j)),
    ensures
        k <= used.len(),
    decreases k,
{
    if k > 0 {
        let last = id_after(from, (k - 1) as nat);
        let rest = used.remove(last);
        assert forall|j: nat| j < k - 1 implies rest.contains(#[trigger] id_after(from, j)) by {
            assert(id_after(from, j) != last);
        }
        lemma_used_in_a_row(rest, from, (k - 1) as nat);
    }
}

/// The watches in force, by the ids that were handed out for them.
pub struct WatchSessions<T> {
    inner: HashMap<u128, WatchHandle<T>>,
}

impl<T> View for WatchSessions<T> {
    type V = Map<u128, WatchHandle<T>>;

    closed spec fn view(&self) -> Map<u128, WatchHandle<T>> {
        self.inner@
    }
}

impl<T> Default for WatchSessions<T> {
    fn default() -> (r: WatchSessions<T>)
        ensures
            r@ == Map::<u128, WatchHandle<T>>::empty(),
    {
        WatchSessions::new()
    }
}

impl<T> WatchSessions<T> {
    pub fn new() -> (r: WatchSessions<T>)
        ensures
            r@ == Map::<u128, WatchHandle<T>>::empty(),
    {
        WatchSessions { inner: HashMap::new() }
    }

    /// Keeps a watch that a provider has started, under the id.
    pub fn keep(&mut self, id: u128, handle: WatchHandle<T>)
        ensures
            final(self)@ == old(self)@.insert(id, handle),
    {
        self.inner.insert(id, handle);
    }

    /// The first id from `from` on that is not in use.
    fn free_id(&self, from: u128) -> (id: u128)
        ensures
            first_free(self@.dom(), from, id),
    {
        let mut id: u128 = from;
        let ghost mut k: nat = 0;
        let ghost used = self@.dom();
        assert(used.len() == self.inner.len());
        while self.inner.contains_key(&id)
            invariant
                used == self@.dom(),
                used.finite(),
                used.len() <= usize::MAX,
                k <= used.len(),
                id == id_after(from, k),
                forall|j: nat| j < k ==> used.contains(#[trigger] id_after(from, j)),
            decreases used.len() - k,
        {
            proof {
                lemma_used_in_a_row(used, from, k + 1);
                k = k + 1;
            }
            id = id.wrapping_add(1);
        }
        assert(free_after(used, from, k, id));
        id
    }

    /// Keeps a watch that a provider has started under the id, or under the
    /// first after it that is not in use, and gives the id.
    pub fn keep_apart(&mut self, drawn: u128, handle: WatchHandle<T>) -> (id: u128)
        ensures
            first_free(old(self)@.dom(), drawn, id),
            final(self)@ == old(self)@.insert(id, handle),
    {
        let id: u128 = self.free_id(drawn);
        self.keep(id, handle);
        id
    }

    /// Takes in how the start of a watch ended.  A watch that was started is
    /// kept, and its id is drawn at random.  Watches on the same uri are kept
    /// apart: no id is given out that is in use.  Where there was no provider,
    /// or it failed, that is the result, and nothing is kept.
    pub fn watch(&mut self, started: Result<WatchHandle<T>, VfsError>) -> (r: Result<u128, VfsError>)
        ensures
            match started {
                Err(e) => r == Err::<u128, VfsError>(e) && final(self)@ == old(self)@,
                Ok(handle) => {
                    &&& r is Ok
                    &&& !old(self)@.contains_key(r->Ok_0)
                    &&& final(self)@ == old(self)@.insert(r->Ok_0, handle)
                    &&& exists|drawn: u128|
                        was_drawn(drawn) && is_random_uuid(drawn) && #[trigger] first_free(
                            old(self)@.dom(),
                            drawn,
                            r->Ok_0,
                        )
                },
            },
    {
        match started {
            Err(e) => Err(e),
            Ok(handle) => {
                let drawn: u128 = draw_id();
                Ok(self.keep_apart(drawn, handle))
            },
        }
    }

    /// Ends a watch.  Ending one that is unknown does nothing.
    pub fn unwatch(&mut self, id: u128)
        ensures
            final(self)@ == old(self)@.remove(id),
    {
        self.inner.remove(&id);
    }

    /// Ends all watches.
    pub fn unwatch_all(&mut self)
        ensures
            final(self)@ == Map::<u128, WatchHandle<T>>::empty(),
    {
        self.inner.clear();
    }

    /// Whether a watch is in force.
    pub fn contains(&self, id: u128) -> (r: bool)
        ensures
            r == self@.contains_key(id),
    {
        self.inner.contains_key(&id)
    }
}

/// Each watch is a session of its own, even where the same id was drawn twice:
/// two watches that are in force have different ids, and ending one leaves the
/// other in force.  An id that is drawn is given out unless it is in use.
pub proof fn law_watches_are_kept_apart<T>(
    sessions: Map<u128, WatchHandle<T>>,
    drawn: u128,
    a: u128,
    first: WatchHandle<T>,
    drawn_next: u128,
    b: u128,
    second: WatchHandle<T>,
)
    requires
        first_free(sessions.dom(), drawn, a),
        first_free(sessions.insert(a, first).dom(), drawn_next, b),
    ensures
        ({
            let both = sessions.insert(a, first).insert(b, second);
            &&& a != b
            &&& both.contains_key(a) && both[a] == first
            &&& both.contains_key(b) && both[b] == second
            &&& !both.remove(a).contains_key(a)
            &&& both.remove(a).contains_key(b) && both.remove(a)[b] == second
            &&& forall|other: u128| #[trigger]
                sessions.contains_key(other) ==> both.contains_key(other) && both[other]
                    == sessions[other]
        }),
        !sessions.contains_key(drawn) ==> a == drawn,
{
    let k = choose|k: nat| free_after(sessions.dom(), drawn, k, a);
    if k > 0 {
        assert(sessions.dom().contains(id_after(drawn, 0)));
    }
}

} // verus!
