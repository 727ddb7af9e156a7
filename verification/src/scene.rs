//! The scene: the shape store with its identifier registry, the dispatch of
//! commands onto them, and the frame that animates every live shape.

use crate::command::{lemma_unknown_id_does_not_resolve, names, resolved, ShapeCommand, ShapeOp};
use crate::registry::IdRegistry;
use crate::shape::{advanced, translated, Shape};
use crate::store::ShapeStore;
use crate::{ExternalId, Handle};
use vstd::prelude::*;

verus! {

/// What became of a command.
#[derive(Clone, Copy, Debug, PartialEq, Eq)]
pub enum Outcome {
    /// The shape was stored under `handle` and its identifier registered.
    Registered { handle: Handle },
    /// The mutation was carried out.
    Applied,
    /// The mutation named an identifier that is not registered; it was
    /// dropped.
    UnknownId,
    /// The identifier of the new shape is or was registered; the shape was
    /// dropped.
    DuplicateId,
}

/// The shape store and the identifier registry, which only the render loop
/// touches.
pub struct Scene<P> {
    pub store: ShapeStore<P>,
    pub registry: IdRegistry,
}

/// `post` is `pre` at the start of a morph towards `target`: it moves from
/// the points that `pre` shows, with the progress back at zero.
pub open spec fn morphing<P>(pre: Shape<P>, target: Seq<P>, post: Shape<P>) -> bool {
    &&& post.external_id == pre.external_id
    &&& post.created_at == pre.created_at
    &&& post.draw_after == pre.draw_after
    &&& post.center == pre.center
    &&& post.draw_progress == 0
    &&& post.geometry is Moving
    &&& post.geometry->current@ == pre.geometry.origin()
    &&& post.geometry->target@ == target
}

/// `post` is `pre` after the mutation `op`, which names its shapes by handle.
/// A mutation of a handle that is not live changes nothing.
pub open spec fn performed<P, F: Fn(&P, &P) -> P>(
    pre: Scene<P>,
    op: ShapeOp<Handle, P>,
    shift: F,
    post: Scene<P>,
) -> bool {
    match op {
        ShapeOp::ClearAll => {
            &&& post.store@ == Map::<Handle, Shape<P>>::empty()
            &&& post.store.next_handle() == 0
            &&& post.registry@ == Map::<ExternalId, Handle>::empty()
            &&& post.registry.used() == pre.registry.used()
        },
        ShapeOp::DrawAfter { id, millis } => if pre.store@.contains_key(id) {
            &&& post.registry == pre.registry
            &&& post.store.next_handle() == pre.store.next_handle()
            &&& post.store@ == pre.store@.insert(
                id,
                Shape { draw_after: Some(millis), ..pre.store@[id] },
            )
        } else {
            post == pre
        },
        ShapeOp::Transition { id, target } => if pre.store@.contains_key(id) {
            &&& post.registry == pre.registry
            &&& post.store.next_handle() == pre.store.next_handle()
            &&& post.store@.contains_key(id)
            &&& translated(pre.store@[id], target, shift, post.store@[id])
            &&& post.store@ == pre.store@.insert(id, post.store@[id])
        } else {
            post == pre
        },
        ShapeOp::ClearShape(id) => if pre.store@.contains_key(id) {
            &&& post.store.next_handle() == pre.store.next_handle()
            &&& post.store@ == pre.store@.remove(id)
            &&& post.registry@ == pre.registry@.remove(pre.registry.id_of(id))
            &&& post.registry.used() == pre.registry.used()
        } else {
            post == pre
        },
        ShapeOp::ConvertShape { from, to } => if pre.store@.contains_key(to) {
            &&& post.store.next_handle() == pre.store.next_handle()
            &&& post.registry@ == pre.registry@.remove(pre.registry.id_of(to))
            &&& post.registry.used() == pre.registry.used()
            &&& if from != to && pre.store@.contains_key(from) {
                &&& post.store@.contains_key(from)
                &&& morphing(pre.store@[from], pre.store@[to].geometry.origin(), post.store@[from])
                &&& post.store@ == pre.store@.remove(to).insert(from, post.store@[from])
            } else {
                post.store@ == pre.store@.remove(to)
            }
        } else {
            post == pre
        },
    }
}

/// `post` and `outcome` are what the command `cmd` makes of `pre`.
///
/// A new shape is stored under the next handle and its identifier registered,
/// unless the identifier is or was registered before. A mutation is resolved
/// against the registry and carried out, unless one of its identifiers is
/// not registered: then nothing changes.
pub open spec fn applied<P, F: Fn(&P, &P) -> P>(
    pre: Scene<P>,
    cmd: ShapeCommand<P>,
    shift: F,
    post: Scene<P>,
    outcome: Outcome,
) -> bool {
    match cmd {
        ShapeCommand::Register(shape) => if pre.registry.used().contains(shape.external_id) {
            post == pre && outcome == Outcome::DuplicateId
        } else {
            &&& outcome == (Outcome::Registered { handle: pre.store.next_handle() })
            &&& post.store@ == pre.store@.insert(pre.store.next_handle(), shape)
            &&& post.store.next_handle() == pre.store.next_handle() + 1
            &&& post.registry@ == pre.registry@.insert(shape.external_id, pre.store.next_handle())
            &&& post.registry.used() == pre.registry.used().insert(shape.external_id)
        },
        ShapeCommand::Op(op) => match resolved(pre.registry@, op) {
            Some(by_handle) => performed(pre, by_handle, shift, post) && outcome == Outcome::Applied,
            None => post == pre && outcome == Outcome::UnknownId,
        },
    }
}

/// `post` and `outcomes` are what the commands `cmds`, carried out in order,
/// make of `pre`, with a well-formed scene after each of them.
pub open spec fn applied_all<P, F: Fn(&P, &P) -> P>(
    pre: Scene<P>,
    cmds: Seq<ShapeCommand<P>>,
    shift: F,
    post: Scene<P>,
    outcomes: Seq<Outcome>,
) -> bool
    decreases cmds.len(),
{
    if cmds.len() == 0 {
        post == pre && outcomes.len() == 0
    } else {
        &&& outcomes.len() == cmds.len()
        &&& exists|mid: Scene<P>|
            {
                &&& #[trigger] mid.wf()
                &&& applied_all(pre, cmds.drop_last(), shift, mid, outcomes.drop_last())
                &&& applied(mid, cmds.last(), shift, post, outcomes.last())
            }
        &&& post.wf()
    }
}

/// In a well-formed scene the registry has as many entries as the store has
/// live shapes.
pub proof fn lemma_counts_agree<P>(scene: Scene<P>)
    requires
        scene.wf(),
    ensures
        scene.registry@.len() == scene.store@.len(),
{
    scene.registry.lemma_wf();
}

/// After any sequence of commands on a well-formed scene, the registry has as
/// many entries as the store has live shapes.
pub proof fn lemma_counts_agree_after<P, F: Fn(&P, &P) -> P>(
    pre: Scene<P>,
    cmds: Seq<ShapeCommand<P>>,
    shift: F,
    post: Scene<P>,
    outcomes: Seq<Outcome>,
)
    requires
        pre.wf(),
        applied_all(pre, cmds, shift, post, outcomes),
    ensures
        post.registry@.len() == post.store@.len(),
{
    lemma_counts_agree(post);
}

/// No command makes a used identifier unused, and a new shape whose
/// identifier is used is dropped: an identifier is never given to a second
/// shape.
pub proof fn lemma_identifier_is_not_reused<P, F: Fn(&P, &P) -> P>(
    pre: Scene<P>,
    cmd: ShapeCommand<P>,
    shift: F,
    post: Scene<P>,
    outcome: Outcome,
)
    requires
        applied(pre, cmd, shift, post, outcome),
    ensures
        pre.registry.used().subset_of(post.registry.used()),
        cmd matches ShapeCommand::Register(shape) && pre.registry.used().contains(shape.external_id)
            ==> post == pre && outcome == Outcome::DuplicateId,
{
}

/// A mutation that names an identifier without a registry entry leaves the
/// scene as it was.
pub proof fn lemma_unknown_id_changes_nothing<P, F: Fn(&P, &P) -> P>(
    pre: Scene<P>,
    op: ShapeOp<ExternalId, P>,
    id: ExternalId,
    shift: F,
    post: Scene<P>,
    outcome: Outcome,
)
    requires
        names(op, id),
        !pre.registry@.contains_key(id),
        applied(pre, ShapeCommand::Op(op), shift, post, outcome),
    ensures
        post == pre,
        outcome == Outcome::UnknownId,
{
    lemma_unknown_id_does_not_resolve(pre.registry@, op, id);
}

/// Clearing all shapes empties the store and the registry, and a mutation
/// that names any identifier afterwards changes nothing.
pub proof fn lemma_clear_all_forgets<P, F: Fn(&P, &P) -> P>(
    pre: Scene<P>,
    shift: F,
    cleared: Scene<P>,
    first: Outcome,
    op: ShapeOp<ExternalId, P>,
    id: ExternalId,
    post: Scene<P>,
    second: Outcome,
)
    requires
        applied(pre, ShapeCommand::Op(ShapeOp::ClearAll), shift, cleared, first),
        names(op, id),
        applied(cleared, ShapeCommand::Op(op), shift, post, second),
    ensures
        cleared.store@ == Map::<Handle, Shape<P>>::empty(),
        cleared.registry@ == Map::<ExternalId, Handle>::empty(),
        post == cleared,
        second == Outcome::UnknownId,
{
    lemma_unknown_id_does_not_resolve(cleared.registry@, op, id);
}

/// Converting `from` into `to` removes `to` from the store and the registry
/// at once; where the two differ, `from` stays registered and starts to move
/// from the points it showed towards the points that `to` showed.
pub proof fn lemma_convert_removes_target<P, F: Fn(&P, &P) -> P>(
    pre: Scene<P>,
    from: ExternalId,
    to: ExternalId,
    shift: F,
    post: Scene<P>,
    outcome: Outcome,
)
    requires
        pre.wf(),
        pre.registry@.contains_key(from),
        pre.registry@.contains_key(to),
        applied(pre, ShapeCommand::Op(ShapeOp::ConvertShape { from, to }), shift, post, outcome),
    ensures
        !post.registry@.contains_key(to),
        !post.store@.contains_key(pre.registry@[to]),
        from != to ==> {
            &&& post.registry@.contains_key(from)
            &&& post.registry@[from] == pre.registry@[from]
            &&& post.store@.contains_key(pre.registry@[from])
            &&& morphing(
                pre.store@[pre.registry@[from]],
                pre.store@[pre.registry@[to]].geometry.origin(),
                post.store@[pre.registry@[from]],
            )
        },
{
    pre.registry.lemma_wf();
    let hf = pre.registry@[from];
    let ht = pre.registry@[to];
    assert(pre.registry.handles().contains(ht));
    assert(pre.registry.handles().contains(hf));
    assert(pre.store@.contains_key(ht));
    assert(pre.store@.contains_key(hf));
    assert(pre.registry.id_of(ht) == to);
    assert(resolved(pre.registry@, ShapeOp::<ExternalId, P>::ConvertShape { from, to }) == Some(
        ShapeOp::<Handle, P>::ConvertShape { from: hf, to: ht },
    ));
}

impl<P> Scene<P> {
    /// The registry has exactly one entry for each live shape, under the
    /// identifier of that shape.
    pub open spec fn wf(&self) -> bool {
        &&& self.store.wf()
        &&& self.registry.wf()
        &&& self.store@.dom() == self.registry.handles()
        &&& forall|h: Handle| #[trigger]
            self.store@.contains_key(h) ==> self.registry.id_of(h) == self.store@[h].external_id
    }

    /// An empty scene.
    pub fn new() -> (s: Self)
        ensures
            s.wf(),
            s.store@ == Map::<Handle, Shape<P>>::empty(),
            s.registry@ == Map::<ExternalId, Handle>::empty(),
            s.registry.used() == Set::<ExternalId>::empty(),
            s.store.next_handle() == 0,
    {
        Scene { store: ShapeStore::new(), registry: IdRegistry::new() }
    }

    /// Replaces each identifier in `op` by its handle. Returns `None` where
    /// one of them is not registered.
    pub fn resolve(&self, op: ShapeOp<ExternalId, P>) -> (r: Option<ShapeOp<Handle, P>>)
        ensures
            r == resolved(self.registry@, op),
    {
        match op {
            ShapeOp::DrawAfter { id, millis } => match self.registry.resolve(id) {
                Some(h) => Some(ShapeOp::DrawAfter { id: h, millis }),
                None => None,
            },
            ShapeOp::Transition { id, target } => match self.registry.resolve(id) {
                Some(h) => Some(ShapeOp::Transition { id: h, target }),
                None => None,
            },
            ShapeOp::ClearShape(id) => match self.registry.resolve(id) {
                Some(h) => Some(ShapeOp::ClearShape(h)),
                None => None,
            },
            ShapeOp::ConvertShape { from, to } => match self.registry.resolve(from) {
                Some(f) => match self.registry.resolve(to) {
                    Some(t) => Some(ShapeOp::ConvertShape { from: f, to: t }),
                    None => None,
                },
                None => None,
            },
            ShapeOp::ClearAll => Some(ShapeOp::ClearAll),
        }
    }

    /// Removes the shape under `handle` together with its registry entry, and
    /// returns it. The handle must be live.
    fn evict(&mut self, handle: Handle) -> (shape: Shape<P>)
        requires
            old(self).wf(),
            old(self).store@.contains_key(handle),
        ensures
            final(self).wf(),
            shape == old(self).store@[handle],
            final(self).store.next_handle() == old(self).store.next_handle(),
            final(self).store@ == old(self).store@.remove(handle),
            final(self).registry@ == old(self).registry@.remove(old(self).registry.id_of(handle)),
            final(self).registry.used() == old(self).registry.used(),
    {
        let removed = self.store.remove(handle);
        self.registry.remove_by_handle(handle);
        proof {
            assert(self.store@.dom() =~= self.registry.handles());
        }
        removed.unwrap()
    }

    /// Carries out the mutation `op`, which names its shapes by handle.
    /// `shift` adds an offset to a point.
    pub fn perform<F: Fn(&P, &P) -> P>(&mut self, op: ShapeOp<Handle, P>, shift: &F)
        requires
            old(self).wf(),
            forall|a: &P, b: &P| call_requires(*shift, (a, b)),
        ensures
            final(self).wf(),
            performed(*old(self), op, *shift, *final(self)),
    {
        match op {
            ShapeOp::ClearAll => {
                self.store.clear();
                self.registry.clear();
                proof {
                    assert(self.store@.dom() =~= self.registry.handles());
                }
            },
            ShapeOp::DrawAfter { id, millis } => {
                if self.store.contains(id) {
                    match self.store.get_mut(id) {
                        Some(shape) => {
                            shape.set_draw_after(millis);
                        },
                        None => {},
                    }
                    proof {
                        assert(self.store@.dom() =~= old(self).store@.dom());
                    }
                }
            },
            ShapeOp::Transition { id, target } => {
                if self.store.contains(id) {
                    match self.store.get_mut(id) {
                        Some(shape) => {
                            shape.translate(&target, shift);
                        },
                        None => {},
                    }
                    proof {
                        assert(self.store@.dom() =~= old(self).store@.dom());
                    }
                }
            },
            ShapeOp::ClearShape(id) => {
                if self.store.contains(id) {
                    self.evict(id);
                }
            },
            ShapeOp::ConvertShape { from, to } => {
                if self.store.contains(to) {
                    let captured = self.evict(to).geometry.into_origin_points();
                    if self.store.contains(from) {
                        let ghost mid = *self;
                        match self.store.get_mut(from) {
                            Some(shape) => {
                                shape.morph_into(captured);
                            },
                            None => {},
                        }
                        proof {
                            assert(self.store@.dom() =~= mid.store@.dom());
                        }
                    }
                }
            },
        }
    }

    /// Carries out one command. `shift` adds an offset to a point.
    pub fn apply<F: Fn(&P, &P) -> P>(&mut self, cmd: ShapeCommand<P>, shift: &F) -> (outcome:
        Outcome)
        requires
            old(self).wf(),
            forall|a: &P, b: &P| call_requires(*shift, (a, b)),
        ensures
            final(self).wf(),
            applied(*old(self), cmd, *shift, *final(self), outcome),
    {
        match cmd {
            ShapeCommand::Register(shape) => {
                if self.registry.was_used(shape.external_id) {
                    Outcome::DuplicateId
                } else {
                    let id: ExternalId = shape.external_id;
                    proof {
                        self.store.lemma_bounded();
                    }
                    let handle = self.store.insert(shape);
                    self.registry.register(id, handle);
                    Outcome::Registered { handle }
                }
            },
            ShapeCommand::Op(op) => match self.resolve(op) {
                Some(by_handle) => {
                    self.perform(by_handle, shift);
                    Outcome::Applied
                },
                None => Outcome::UnknownId,
            },
        }
    }

    /// Carries out the commands of one frame in order, and returns what became
    /// of each. `shift` adds an offset to a point.
    pub fn apply_all<F: Fn(&P, &P) -> P>(&mut self, cmds: Vec<ShapeCommand<P>>, shift: &F) -> (outcomes:
        Vec<Outcome>)
        requires
            old(self).wf(),
            forall|a: &P, b: &P| call_requires(*shift, (a, b)),
        ensures
            final(self).wf(),
            applied_all(*old(self), cmds@, *shift, *final(self), outcomes@),
    {
        let mut outcomes: Vec<Outcome> = Vec::new();
        let ghost all = cmds@;
        for cmd in it: cmds.into_iter()
            invariant
                it.seq() == all,
                self.wf(),
                forall|a: &P, b: &P| call_requires(*shift, (a, b)),
                outcomes@.len() == it.index(),
                applied_all(*old(self), all.take(it.index() as int), *shift, *self, outcomes@),
        {
            let ghost mid = *self;
            let ghost before = outcomes@;
            let ghost k = it.index() as int;
            let outcome = self.apply(cmd, shift);
            outcomes.push(outcome);
            proof {
                let done = all.take(k + 1);
                assert(done.drop_last() =~= all.take(k));
                assert(outcomes@.drop_last() =~= before);
                assert(done.last() == cmd);
                assert(outcomes@.last() == outcome);
                assert(applied_all(*old(self), done.drop_last(), *shift, mid, outcomes@.drop_last()));
                assert(applied(mid, done.last(), *shift, *self, outcomes@.last()));
                assert(done.len() == k + 1);
                assert(mid.wf());
                assert(outcomes@.len() == done.len());
                assert(applied_all(*old(self), done, *shift, *self, outcomes@));
            }
        }
        proof {
            assert(all.take(all.len() as int) =~= all);
        }
        outcomes
    }

    /// Runs one frame at the instant `now` over every live shape. `blend`
    /// moves a point one step towards another. The result has one entry per
    /// handle below the store's next handle: how many leading points of the
    /// shape the frame shows, or `None` where the handle is not live or the
    /// frame shows nothing of its shape.
    pub fn tick<F: Fn(&P, &P) -> P>(&mut self, now: u128, blend: &F) -> (frame: Vec<Option<usize>>)
        requires
            old(self).wf(),
            forall|a: &P, b: &P| call_requires(*blend, (a, b)),
        ensures
            final(self).wf(),
            final(self).registry == old(self).registry,
            final(self).store.next_handle() == old(self).store.next_handle(),
            final(self).store@.dom() == old(self).store@.dom(),
            frame@.len() == old(self).store.next_handle(),
            forall|h: Handle|
                h < old(self).store.next_handle() ==> if old(self).store@.contains_key(h) {
                    advanced(
                        old(self).store@[h],
                        now,
                        *blend,
                        #[trigger] final(self).store@[h],
                        frame@[h as int],
                    )
                } else {
                    frame@[h as int] is None
                },
    {
        let frame = self.store.advance_all(now, blend);
        proof {
            assert forall|h: Handle| #[trigger]
                self.store@.contains_key(h) implies self.registry.id_of(h)
                == self.store@[h].external_id by {
                assert(old(self).store@.contains_key(h));
                old(self).store.lemma_bounded();
            }
        }
        frame
    }
}

} // verus!
