//! The store of live shapes, keyed by handle.

use crate::shape::{advanced, Shape};
use crate::Handle;
use vstd::prelude::*;

verus! {

/// Owns all live shape records.
///
/// The view is the map from handle to shape. Handles are given out in
/// increasing order and not reused until the store is cleared.
pub struct ShapeStore<P> {
    slots: Vec<Option<Shape<P>>>,
    live: usize,
}

impl<P> View for ShapeStore<P> {
    type V = Map<Handle, Shape<P>>;

    closed spec fn view(&self) -> Map<Handle, Shape<P>> {
        model(self.slots@)
    }
}

/// The shapes that `slots` holds, each under the index of its slot.
spec fn model<P>(slots: Seq<Option<Shape<P>>>) -> Map<Handle, Shape<P>> {
    Map::new(
        |h: Handle| h < slots.len() && slots[h as int] is Some,
        |h: Handle| slots[h as int]->0,
    )
}

/// The handles below `bound` whose slot is taken.
spec fn taken<P>(slots: Seq<Option<Shape<P>>>, bound: int) -> Set<Handle> {
    Set::new(|h: Handle| h < bound && h < slots.len() && slots[h as int] is Some)
}

proof fn lemma_taken_finite<P>(slots: Seq<Option<Shape<P>>>, bound: int)
    requires
        0 <= bound,
    ensures
        taken(slots, bound).finite(),
        taken(slots, bound).len() <= bound,
    decreases bound,
{
    if bound == 0 {
        assert(taken(slots, bound) =~= Set::<Handle>::empty());
    } else {
        lemma_taken_finite(slots, bound - 1);
        let last = (bound - 1) as Handle;
        if bound - 1 <= usize::MAX && last < slots.len() && slots[last as int] is Some {
            assert(taken(slots, bound) =~= taken(slots, bound - 1).insert(last));
        } else {
            assert(taken(slots, bound) =~= taken(slots, bound - 1));
        }
    }
}

impl<P> ShapeStore<P> {
    /// The handle that the next inserted shape gets.
    pub closed spec fn next_handle(&self) -> Handle {
        self.slots.len()
    }

    /// The count of live shapes is kept.
    pub closed spec fn wf(&self) -> bool {
        self.live == self@.dom().len()
    }

    /// Every live handle lies below the next one, so the live shapes are
    /// finitely many.
    pub proof fn lemma_bounded(&self)
        ensures
            self@.dom().finite(),
            forall|h: Handle| #[trigger] self@.contains_key(h) ==> h < self.next_handle(),
    {
        lemma_taken_finite(self.slots@, self.slots@.len() as int);
        assert(self@.dom() =~= taken(self.slots@, self.slots@.len() as int));
    }

    /// An empty store.
    pub fn new() -> (s: Self)
        ensures
            s.wf(),
            s@ == Map::<Handle, Shape<P>>::empty(),
            s.next_handle() == 0,
    {
        let s = ShapeStore { slots: Vec::new(), live: 0 };
        assert(s@ =~= Map::<Handle, Shape<P>>::empty());
        s
    }

    /// The number of live shapes.
    pub fn len(&self) -> (n: usize)
        requires
            self.wf(),
        ensures
            n == self@.len(),
    {
        self.live
    }

    /// Whether no shape is live.
    pub fn is_empty(&self) -> (b: bool)
        requires
            self.wf(),
        ensures
            b == (self@.len() == 0),
    {
        self.live == 0
    }

    /// The handle that the next inserted shape gets: one more than the
    /// greatest given out since the store was new or last cleared.
    pub fn handle_bound(&self) -> (n: Handle)
        ensures
            n == self.next_handle(),
    {
        self.slots.len()
    }

    /// Whether `handle` refers to a live shape.
    pub fn contains(&self, handle: Handle) -> (b: bool)
        ensures
            b == self@.contains_key(handle),
    {
        handle < self.slots.len() && self.slots[handle].is_some()
    }

    /// The shape that `handle` refers to, if it is live.
    pub fn get(&self, handle: Handle) -> (r: Option<&Shape<P>>)
        ensures
            r == (if self@.contains_key(handle) {
                Some(&self@[handle])
            } else {
                None
            }),
    {
        if handle < self.slots.len() {
            self.slots[handle].as_ref()
        } else {
            None
        }
    }

    /// The shape that `handle` refers to, for changing it in place, if it is
    /// live.
    pub fn get_mut(&mut self, handle: Handle) -> (r: Option<&mut Shape<P>>)
        requires
            old(self).wf(),
        ensures
            final(self).wf(),
            final(self).next_handle() == old(self).next_handle(),
            match r {
                Some(shape) => {
                    &&& old(self)@.contains_key(handle)
                    &&& *shape == old(self)@[handle]
                    &&& final(self)@ == old(self)@.insert(handle, *final(shape))
                },
                None => !old(self)@.contains_key(handle) && final(self)@ == old(self)@,
            },
    {
        if handle < self.slots.len() {
            proof {
                let slots = self.slots@;
                assert forall|x: Shape<P>|
                    slots[handle as int] is Some implies #[trigger] model(
                    slots.update(handle as int, Some(x)),
                ) == model(slots).insert(handle, x) by {
                    assert(model(slots.update(handle as int, Some(x))) =~= model(slots).insert(
                        handle,
                        x,
                    ));
                }
                assert forall|x: Shape<P>|
                    slots[handle as int] is Some implies (#[trigger] model(slots).insert(
                    handle,
                    x,
                )).dom() == model(slots).dom() by {
                    assert(model(slots).insert(handle, x).dom() =~= model(slots).dom());
                }
                assert(slots.update(handle as int, None) =~= slots <== slots[handle as int] is None);
            }
            let slot = &mut self.slots[handle];
            slot.as_mut()
        } else {
            None
        }
    }

    /// Stores `shape` under a new handle and returns the handle.
    pub fn insert(&mut self, shape: Shape<P>) -> (handle: Handle)
        requires
            old(self).wf(),
        ensures
            final(self).wf(),
            handle == old(self).next_handle(),
            !old(self)@.contains_key(handle),
            final(self)@ == old(self)@.insert(handle, shape),
            final(self).next_handle() == old(self).next_handle() + 1,
    {
        let handle: usize = self.slots.len();
        proof {
            old(self).lemma_bounded();
        }
        self.slots.push(Some(shape));
        proof {
            assert(self@ =~= old(self)@.insert(handle, shape));
            assert(self@.dom() =~= old(self)@.dom().insert(handle));
            lemma_taken_finite(old(self).slots@, handle as int);
            assert(old(self)@.dom() =~= taken(old(self).slots@, handle as int));
            assert(self.live < self.slots.len());
        }
        self.live = self.live + 1;
        handle
    }

    /// Takes the shape that `handle` refers to out of the store, if it is
    /// live.
    pub fn remove(&mut self, handle: Handle) -> (r: Option<Shape<P>>)
        requires
            old(self).wf(),
        ensures
            final(self).wf(),
            r == (if old(self)@.contains_key(handle) {
                Some(old(self)@[handle])
            } else {
                None
            }),
            final(self)@ == old(self)@.remove(handle),
            final(self).next_handle() == old(self).next_handle(),
    {
        if handle < self.slots.len() {
            let mut slot: Option<Shape<P>> = None;
            self.slots.set_and_swap(handle, &mut slot);
            proof {
                old(self).lemma_bounded();
                assert(self@ =~= old(self)@.remove(handle));
                assert(self@.dom() =~= old(self)@.dom().remove(handle));
            }
            if slot.is_some() {
                self.live = self.live - 1;
            }
            slot
        } else {
            proof {
                assert(self@ =~= old(self)@.remove(handle));
            }
            None
        }
    }

    /// Removes every shape and starts the handles over.
    pub fn clear(&mut self)
        ensures
            final(self).wf(),
            final(self)@ == Map::<Handle, Shape<P>>::empty(),
            final(self).next_handle() == 0,
    {
        self.slots.clear();
        self.live = 0;
        proof {
            assert(self@ =~= Map::<Handle, Shape<P>>::empty());
        }
    }

    /// Runs one frame at the instant `now` over every live shape. The result
    /// has one entry per handle below `next_handle`: how many leading points
    /// of the shape the frame shows, or `None` where the handle is not live
    /// or the frame shows nothing of its shape.
    pub fn advance_all<F: Fn(&P, &P) -> P>(&mut self, now: u128, blend: &F) -> (frame: Vec<
        Option<usize>,
    >)
        requires
            old(self).wf(),
            forall|a: &P, b: &P| call_requires(*blend, (a, b)),
        ensures
            final(self).wf(),
            final(self).next_handle() == old(self).next_handle(),
            final(self)@.dom() == old(self)@.dom(),
            frame@.len() == old(self).next_handle(),
            forall|h: Handle|
                h < old(self).next_handle() ==> if old(self)@.contains_key(h) {
                    advanced(old(self)@[h], now, *blend, #[trigger] final(self)@[h], frame@[h as int])
                } else {
                    frame@[h as int] is None
                },
    {
        let mut frame: Vec<Option<usize>> = Vec::new();
        let n: usize = self.slots.len();
        let mut i: usize = 0;
        while i < n
            invariant
                i <= n,
                n == old(self).slots@.len(),
                self.slots@.len() == n,
                self.live == old(self).live,
                frame@.len() == i,
                forall|a: &P, b: &P| call_requires(*blend, (a, b)),
                forall|k: int| i <= k < n ==> self.slots@[k] == old(self).slots@[k],
                forall|k: int|
                    0 <= k < n ==> ((#[trigger] self.slots@[k]) is Some <==> old(self).slots@[k] is Some),
                forall|k: int|
                    0 <= k < i ==> match old(self).slots@[k] {
                        Some(pre) => advanced(
                            pre,
                            now,
                            *blend,
                            (#[trigger] self.slots@[k])->0,
                            frame@[k],
                        ),
                        None => frame@[k] is None,
                    },
            decreases n - i,
        {
            let mut slot: Option<Shape<P>> = None;
            self.slots.set_and_swap(i, &mut slot);
            match slot {
                Some(mut shape) => {
                    let visible = shape.advance(now, blend);
                    self.slots.set(i, Some(shape));
                    frame.push(visible);
                },
                None => {
                    frame.push(None);
                },
            }
            i += 1;
        }
        proof {
            assert(self@.dom() =~= old(self)@.dom());
            assert forall|h: Handle| h < old(self).next_handle() implies if old(self)@.contains_key(
                h,
            ) {
                advanced(old(self)@[h], now, *blend, #[trigger] self@[h], frame@[h as int])
            } else {
                frame@[h as int] is None
            } by {
                assert(self.slots@[h as int] is Some <==> old(self).slots@[h as int] is Some);
            }
        }
        frame
    }
}

} // verus!
