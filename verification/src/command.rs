//! The commands that travel from the scripting side to the render loop.

use crate::shape::Shape;
use crate::{ExternalId, Handle};
use vstd::prelude::*;

verus! {

/// A mutation of the shape set. `T` is the way a shape is referred to: by
/// external identifier on the scripting side, by handle inside the scene.
#[derive(Clone, Debug, PartialEq)]
pub enum ShapeOp<T, P> {
    /// Reveal the shape once `millis` milliseconds have passed since its
    /// creation.
    DrawAfter { id: T, millis: u64 },
    /// Translate the shape by `target`.
    Transition { id: T, target: P },
    /// Remove the shape.
    ClearShape(T),
    /// Morph `from` into the points of `to`, and remove `to`.
    ConvertShape { from: T, to: T },
    /// Remove every shape.
    ClearAll,
}

/// What the channel carries: a new shape, or a mutation that names its
/// shapes by external identifier.
#[derive(Clone, Debug, PartialEq)]
pub enum ShapeCommand<P> {
    Register(Shape<P>),
    Op(ShapeOp<ExternalId, P>),
}

/// The mutation `op` with each identifier replaced by its handle in `ids`, or
/// `None` where `ids` lacks one of them.
pub open spec fn resolved<P>(ids: Map<ExternalId, Handle>, op: ShapeOp<ExternalId, P>) -> Option<
    ShapeOp<Handle, P>,
> {
    match op {
        ShapeOp::DrawAfter { id, millis } => if ids.contains_key(id) {
            Some(ShapeOp::DrawAfter { id: ids[id], millis })
        } else {
            None
        },
        ShapeOp::Transition { id, target } => if ids.contains_key(id) {
            Some(ShapeOp::Transition { id: ids[id], target })
        } else {
            None
        },
        ShapeOp::ClearShape(id) => if ids.contains_key(id) {
            Some(ShapeOp::ClearShape(ids[id]))
        } else {
            None
        },
        ShapeOp::ConvertShape { from, to } => if ids.contains_key(from) && ids.contains_key(to) {
            Some(ShapeOp::ConvertShape { from: ids[from], to: ids[to] })
        } else {
            None
        },
        ShapeOp::ClearAll => Some(ShapeOp::ClearAll),
    }
}

/// Whether the mutation `op` names the identifier `id`.
pub open spec fn names<P>(op: ShapeOp<ExternalId, P>, id: ExternalId) -> bool {
    match op {
        ShapeOp::DrawAfter { id: named, .. } => named == id,
        ShapeOp::Transition { id: named, .. } => named == id,
        ShapeOp::ClearShape(named) => named == id,
        ShapeOp::ConvertShape { from, to } => from == id || to == id,
        ShapeOp::ClearAll => false,
    }
}

/// A mutation that names an identifier without an entry in `ids` does not
/// resolve.
pub proof fn lemma_unknown_id_does_not_resolve<P>(
    ids: Map<ExternalId, Handle>,
    op: ShapeOp<ExternalId, P>,
    id: ExternalId,
)
    requires
        names(op, id),
        !ids.contains_key(id),
    ensures
        resolved(ids, op) is None,
{
}

impl<P> ShapeCommand<P> {
    /// The command behind the script operation `draw`: reveal without delay.
    pub fn draw(id: ExternalId) -> (c: Self)
        ensures
            c == ShapeCommand::<P>::Op(ShapeOp::DrawAfter { id, millis: 0 }),
    {
        ShapeCommand::Op(ShapeOp::DrawAfter { id, millis: 0 })
    }

    /// The command behind the script operation `transition`.
    pub fn transition(id: ExternalId, target: P) -> (c: Self)
        ensures
            c == ShapeCommand::Op(ShapeOp::Transition { id, target }),
    {
        ShapeCommand::Op(ShapeOp::Transition { id, target })
    }

    /// The command behind the script operation `convert_shape`.
    pub fn convert_shape(from: ExternalId, to: ExternalId) -> (c: Self)
        ensures
            c == ShapeCommand::<P>::Op(ShapeOp::ConvertShape { from, to }),
    {
        ShapeCommand::Op(ShapeOp::ConvertShape { from, to })
    }

    /// The command behind the script operation `clear_shape`.
    pub fn clear_shape(id: ExternalId) -> (c: Self)
        ensures
            c == ShapeCommand::<P>::Op(ShapeOp::ClearShape(id)),
    {
        ShapeCommand::Op(ShapeOp::ClearShape(id))
    }

    /// The command behind the script operation `clear_all_shapes`.
    pub fn clear_all_shapes() -> (c: Self)
        ensures
            c == ShapeCommand::<P>::Op(ShapeOp::ClearAll),
    {
        ShapeCommand::Op(ShapeOp::ClearAll)
    }
}

} // verus!
