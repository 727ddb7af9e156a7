//! The association between external identifiers and store handles.

use crate::{ExternalId, Handle};
use std::collections::{HashMap, HashSet};
use vstd::prelude::*;

verus! {

/// A one-to-one association between external identifiers and handles.
///
/// The view is the map from identifier to handle. The inverse direction is
/// kept alongside, so that an entry can be found by either side. The registry
/// also remembers every identifier that ever had an entry: an identifier is
/// not given to a second shape, not even after its entry is deleted.
pub struct IdRegistry {
    by_id: HashMap<ExternalId, Handle>,
    by_handle: HashMap<Handle, ExternalId>,
    used: HashSet<ExternalId>,
}

impl View for IdRegistry {
    type V = Map<ExternalId, Handle>;

    closed spec fn view(&self) -> Map<ExternalId, Handle> {
        self.by_id@
    }
}

impl IdRegistry {
    /// The handles that some identifier is associated with.
    pub closed spec fn handles(&self) -> Set<Handle> {
        self.by_handle@.dom()
    }

    /// The identifiers that have or had an entry.
    pub closed spec fn used(&self) -> Set<ExternalId> {
        self.used@
    }

    /// The identifier that a handle is associated with.
    pub closed spec fn id_of(&self, handle: Handle) -> ExternalId
        recommends
            self.handles().contains(handle),
    {
        self.by_handle@[handle]
    }

    /// The two directions are inverse to each other.
    pub closed spec fn wf(&self) -> bool {
        &&& forall|id: ExternalId| #[trigger]
            self.by_id@.contains_key(id) ==> self.by_handle@.contains_key(self.by_id@[id])
                && self.by_handle@[self.by_id@[id]] == id
        &&& forall|h: Handle| #[trigger]
            self.by_handle@.contains_key(h) ==> self.by_id@.contains_key(self.by_handle@[h])
                && self.by_id@[self.by_handle@[h]] == h
        &&& self.by_id@.len() == self.by_handle@.len()
        &&& forall|id: ExternalId| #[trigger] self.by_id@.contains_key(id) ==> self.used@.contains(id)
    }

    /// What well-formedness means in terms of the view: the view is finite and
    /// injective, `handles` is exactly its set of values, of the same size,
    /// and every identifier with an entry counts as used.
    pub proof fn lemma_wf(&self)
        requires
            self.wf(),
        ensures
            self@.dom().finite(),
            self.handles().finite(),
            self.handles().len() == self@.len(),
            forall|id: ExternalId| #[trigger]
                self@.contains_key(id) ==> self.handles().contains(self@[id]) && self.id_of(
                    self@[id],
                ) == id,
            forall|h: Handle| #[trigger]
                self.handles().contains(h) ==> self@.contains_key(self.id_of(h)) && self@[self.id_of(
                    h,
                )] == h,
            forall|a: ExternalId, b: ExternalId|
                self@.contains_key(a) && self@.contains_key(b) && self@[a] == self@[b] ==> a == b,
            forall|id: ExternalId| #[trigger] self@.contains_key(id) ==> self.used().contains(id),
    {
        assert forall|a: ExternalId, b: ExternalId|
            self@.contains_key(a) && self@.contains_key(b) && self@[a] == self@[b] implies a
            == b by {
            assert(self.by_id@.contains_key(a));
            assert(self.by_id@.contains_key(b));
        }
    }

    /// An empty registry.
    pub fn new() -> (r: Self)
        ensures
            r.wf(),
            r@ == Map::<ExternalId, Handle>::empty(),
            r.handles() == Set::<Handle>::empty(),
            r.used() == Set::<ExternalId>::empty(),
    {
        let r = IdRegistry {
            by_id: HashMap::new(),
            by_handle: HashMap::new(),
            used: HashSet::new(),
        };
        assert(r.by_handle@.dom() =~= Set::<Handle>::empty());
        r
    }

    /// The number of entries.
    pub fn len(&self) -> (n: usize)
        ensures
            n == self@.len(),
    {
        self.by_id.len()
    }

    /// Whether there is no entry.
    pub fn is_empty(&self) -> (b: bool)
        ensures
            b == (self@.len() == 0),
    {
        self.by_id.len() == 0
    }

    /// Whether `id` has an entry.
    pub fn contains(&self, id: ExternalId) -> (b: bool)
        ensures
            b == self@.contains_key(id),
    {
        self.by_id.contains_key(&id)
    }

    /// Whether `id` has or had an entry.
    pub fn was_used(&self, id: ExternalId) -> (b: bool)
        ensures
            b == self.used().contains(id),
    {
        self.used.contains(&id)
    }

    /// Whether some identifier is associated with `handle`.
    pub fn contains_handle(&self, handle: Handle) -> (b: bool)
        ensures
            b == self.handles().contains(handle),
    {
        self.by_handle.contains_key(&handle)
    }

    /// Associates `id` with `handle`. The identifier must never have had an
    /// entry, and the handle must have none.
    pub fn register(&mut self, id: ExternalId, handle: Handle)
        requires
            old(self).wf(),
            !old(self).used().contains(id),
            !old(self).handles().contains(handle),
        ensures
            final(self).wf(),
            final(self)@ == old(self)@.insert(id, handle),
            final(self).handles() == old(self).handles().insert(handle),
            final(self).used() == old(self).used().insert(id),
            final(self).id_of(handle) == id,
            forall|h: Handle|
                old(self).handles().contains(h) ==> final(self).id_of(h) == old(self).id_of(h),
    {
        self.by_id.insert(id, handle);
        self.by_handle.insert(handle, id);
        self.used.insert(id);
        proof {
            assert(self.by_handle@.dom() =~= old(self).by_handle@.dom().insert(handle));
            assert forall|i: ExternalId| #[trigger] self.by_id@.contains_key(i) implies
                self.by_handle@.contains_key(self.by_id@[i]) && self.by_handle@[self.by_id@[i]]
                == i by {
                if i != id {
                    assert(old(self).by_id@.contains_key(i));
                }
            }
            assert forall|h: Handle| #[trigger] self.by_handle@.contains_key(h) implies
                self.by_id@.contains_key(self.by_handle@[h]) && self.by_id@[self.by_handle@[h]]
                == h by {
                if h != handle {
                    assert(old(self).by_handle@.contains_key(h));
                }
            }
        }
    }

    /// The handle that `id` is associated with, if any.
    pub fn resolve(&self, id: ExternalId) -> (r: Option<Handle>)
        ensures
            r == (if self@.contains_key(id) {
                Some(self@[id])
            } else {
                None
            }),
    {
        match self.by_id.get(&id) {
            Some(h) => Some(*h),
            None => None,
        }
    }

    /// Deletes the entry of `id`, if there is one, and returns its handle.
    pub fn remove(&mut self, id: ExternalId) -> (r: Option<Handle>)
        requires
            old(self).wf(),
        ensures
            final(self).wf(),
            final(self).used() == old(self).used(),
            final(self)@ == old(self)@.remove(id),
            r == (if old(self)@.contains_key(id) {
                Some(old(self)@[id])
            } else {
                None
            }),
            final(self).handles() == (match r {
                Some(h) => old(self).handles().remove(h),
                None => old(self).handles(),
            }),
            forall|h: Handle|
                final(self).handles().contains(h) ==> final(self).id_of(h) == old(self).id_of(h),
    {
        match self.by_id.remove(&id) {
            Some(h) => {
                self.by_handle.remove(&h);
                proof {
                    assert(old(self).by_id@.contains_key(id));
                    assert(self.by_handle@.dom() =~= old(self).by_handle@.dom().remove(h));
                    assert forall|i: ExternalId| #[trigger]
                        self.by_id@.contains_key(i) implies self.by_handle@.contains_key(
                        self.by_id@[i],
                    ) && self.by_handle@[self.by_id@[i]] == i by {
                        assert(old(self).by_id@.contains_key(i));
                    }
                    assert forall|k: Handle| #[trigger]
                        self.by_handle@.contains_key(k) implies self.by_id@.contains_key(
                        self.by_handle@[k],
                    ) && self.by_id@[self.by_handle@[k]] == k by {
                        assert(old(self).by_handle@.contains_key(k));
                    }
                }
                Some(h)
            },
            None => {
                proof {
                    assert(self.by_id@ =~= old(self).by_id@);
                }
                None
            },
        }
    }

    /// Deletes the entry associated with `handle`, if there is one, and
    /// returns its identifier.
    pub fn remove_by_handle(&mut self, handle: Handle) -> (r: Option<ExternalId>)
        requires
            old(self).wf(),
        ensures
            final(self).wf(),
            final(self).used() == old(self).used(),
            final(self).handles() == old(self).handles().remove(handle),
            r == (if old(self).handles().contains(handle) {
                Some(old(self).id_of(handle))
            } else {
                None
            }),
            final(self)@ == (match r {
                Some(id) => old(self)@.remove(id),
                None => old(self)@,
            }),
            forall|h: Handle|
                final(self).handles().contains(h) ==> final(self).id_of(h) == old(self).id_of(h),
    {
        match self.by_handle.remove(&handle) {
            Some(id) => {
                self.by_id.remove(&id);
                proof {
                    assert(old(self).by_handle@.contains_key(handle));
                    assert forall|i: ExternalId| #[trigger]
                        self.by_id@.contains_key(i) implies self.by_handle@.contains_key(
                        self.by_id@[i],
                    ) && self.by_handle@[self.by_id@[i]] == i by {
                        assert(old(self).by_id@.contains_key(i));
                    }
                    assert forall|k: Handle| #[trigger]
                        self.by_handle@.contains_key(k) implies self.by_id@.contains_key(
                        self.by_handle@[k],
                    ) && self.by_id@[self.by_handle@[k]] == k by {
                        assert(old(self).by_handle@.contains_key(k));
                    }
                }
                Some(id)
            },
            None => {
                proof {
                    assert(self.by_handle@ =~= old(self).by_handle@);
                }
                None
            },
        }
    }

    /// Deletes every entry. The identifiers stay used.
    pub fn clear(&mut self)
        ensures
            final(self).wf(),
            final(self).used() == old(self).used(),
            final(self)@ == Map::<ExternalId, Handle>::empty(),
            final(self).handles() == Set::<Handle>::empty(),
    {
        self.by_id.clear();
        self.by_handle.clear();
        proof {
            assert(self.by_handle@.dom() =~= Set::<Handle>::empty());
        }
    }
}

} // verus!
