//! The bounded channel that carries commands from the scripting thread to
//! the render loop.

use crate::command::ShapeCommand;
use crate::scene::{applied_all, Outcome, Scene};
use crate::shape::Shape;
use crate::ExternalId;
use vstd::prelude::*;

verus! {

/// `crossbeam_channel::Sender`, carried as an opaque value.
#[verifier::external_type_specification]
#[verifier::external_body]
#[verifier::reject_recursive_types(T)]
pub struct ExSender<T>(crossbeam_channel::Sender<T>);

/// `crossbeam_channel::Receiver`, carried as an opaque value.
#[verifier::external_type_specification]
#[verifier::external_body]
#[verifier::reject_recursive_types(T)]
pub struct ExReceiver<T>(crossbeam_channel::Receiver<T>);

/// `crossbeam_channel::SendError`, carried as an opaque value.
#[verifier::external_type_specification]
#[verifier::external_body]
#[verifier::reject_recursive_types(T)]
pub struct ExSendError<T>(crossbeam_channel::SendError<T>);

/// The number of commands that the channel holds before a sender blocks.
pub const CHANNEL_CAPACITY: usize = 100;

/// The greatest capacity that a bounded channel is opened with here.
pub const MAX_CAPACITY: usize = 0x3fff_ffff;

/// `crossbeam_channel::bounded`: a channel that holds at most `capacity`
/// messages. Nothing is claimed of the two ends. The capacity is limited
/// because the outside function panics where the slot count plus one,
/// rounded up to a power of two and doubled, does not fit the machine word.
#[verifier::external_body]
fn bounded<T>(capacity: usize) -> (ends: (
    crossbeam_channel::Sender<T>,
    crossbeam_channel::Receiver<T>,
))
    requires
        capacity <= MAX_CAPACITY,
{
    crossbeam_channel::bounded(capacity)
}

/// `crossbeam_channel::Sender::send`: blocks while the channel is full, and
/// fails once every receiver is gone. Nothing is claimed of the result, which
/// depends on the other side.
#[verifier::external_body]
fn send<T>(sender: &crossbeam_channel::Sender<T>, message: T) -> (r: Result<
    (),
    crossbeam_channel::SendError<T>,
>) {
    sender.send(message)
}

/// `crossbeam_channel::Receiver::try_iter`, collected: the messages that are
/// buffered, in the order they were sent, taken one by one until the channel
/// is found empty, without blocking. Nothing is claimed of the result, which
/// depends on the other side.
#[verifier::external_body]
fn try_drain<T>(receiver: &crossbeam_channel::Receiver<T>) -> (messages: Vec<T>) {
    receiver.try_iter().collect()
}

/// The render loop is gone: no receiver is left on the channel.
#[derive(Clone, Copy, Debug, PartialEq, Eq)]
pub struct Disconnected;

/// The sending end of the command channel, with the operations that the
/// scripting side is given. Each of them blocks while the channel is full and
/// fails only when the receiving end is gone.
#[verifier::reject_recursive_types(P)]
pub struct CommandOutbox<P> {
    sender: crossbeam_channel::Sender<ShapeCommand<P>>,
    capacity: usize,
}

/// The receiving end of the command channel.
#[verifier::reject_recursive_types(P)]
pub struct CommandInbox<P> {
    receiver: crossbeam_channel::Receiver<ShapeCommand<P>>,
    capacity: usize,
}

/// What a send amounts to for the scripting side: the message is in the
/// channel, or the receiving end is gone.
pub fn delivery<T>(sent: Result<(), crossbeam_channel::SendError<T>>) -> (r: Result<
    (),
    Disconnected,
>)
    ensures
        r == (if sent is Ok {
            Ok::<(), Disconnected>(())
        } else {
            Err::<(), Disconnected>(Disconnected)
        }),
{
    match sent {
        Ok(_) => Ok(()),
        Err(_) => Err(Disconnected),
    }
}

/// The answer to a script operation that returns an identifier: `id` once
/// its command is in the channel, the failure otherwise.
pub fn acknowledged(sent: Result<(), Disconnected>, id: ExternalId) -> (r: Result<
    ExternalId,
    Disconnected,
>)
    ensures
        r == (match sent {
            Ok(_) => Ok::<ExternalId, Disconnected>(id),
            Err(e) => Err::<ExternalId, Disconnected>(e),
        }),
{
    match sent {
        Ok(_) => Ok(id),
        Err(e) => Err(e),
    }
}

/// Opens the command channel, with room for `CHANNEL_CAPACITY` commands.
pub fn command_channel<P>() -> (ends: (CommandOutbox<P>, CommandInbox<P>))
    ensures
        ends.0.capacity() == CHANNEL_CAPACITY,
        ends.1.capacity() == CHANNEL_CAPACITY,
{
    let capacity: usize = CHANNEL_CAPACITY;
    let (sender, receiver) = bounded::<ShapeCommand<P>>(capacity);
    (CommandOutbox { sender, capacity }, CommandInbox { receiver, capacity })
}

impl<P> CommandOutbox<P> {
    /// The number of commands that the channel was opened for.
    pub closed spec fn spec_capacity(&self) -> usize {
        self.capacity
    }

    /// The number of commands that the channel was opened for.
    #[verifier::when_used_as_spec(spec_capacity)]
    pub fn capacity(&self) -> (n: usize)
        ensures
            n == self.spec_capacity(),
    {
        self.capacity
    }

    /// Sends `cmd`, waiting while the channel is full.
    pub fn submit(&self, cmd: ShapeCommand<P>) -> (r: Result<(), Disconnected>) {
        delivery(send(&self.sender, cmd))
    }

    /// Sends `shape` for registration and returns its identifier.
    pub fn register(&self, shape: Shape<P>) -> (r: Result<ExternalId, Disconnected>)
        ensures
            r matches Ok(id) ==> id == shape.external_id,
    {
        let id: ExternalId = shape.external_id;
        acknowledged(self.submit(ShapeCommand::Register(shape)), id)
    }

    /// Asks for the shape `id` to be revealed without delay.
    pub fn draw(&self, id: ExternalId) -> (r: Result<(), Disconnected>) {
        self.submit(ShapeCommand::draw(id))
    }

    /// Asks for the shape `id` to be translated by `target`.
    pub fn transition(&self, id: ExternalId, target: P) -> (r: Result<(), Disconnected>) {
        self.submit(ShapeCommand::transition(id, target))
    }

    /// Asks for the shape `from` to morph into `to`, and returns `from`.
    pub fn convert_shape(&self, from: ExternalId, to: ExternalId) -> (r: Result<
        ExternalId,
        Disconnected,
    >)
        ensures
            r matches Ok(id) ==> id == from,
    {
        acknowledged(self.submit(ShapeCommand::convert_shape(from, to)), from)
    }

    /// Asks for the shape `id` to be removed.
    pub fn clear_shape(&self, id: ExternalId) -> (r: Result<(), Disconnected>) {
        self.submit(ShapeCommand::clear_shape(id))
    }

    /// Asks for every shape to be removed.
    pub fn clear_all_shapes(&self) -> (r: Result<(), Disconnected>) {
        self.submit(ShapeCommand::clear_all_shapes())
    }
}

impl<P> CommandInbox<P> {
    /// The number of commands that the channel was opened for.
    pub closed spec fn spec_capacity(&self) -> usize {
        self.capacity
    }

    /// The number of commands that the channel was opened for.
    #[verifier::when_used_as_spec(spec_capacity)]
    pub fn capacity(&self) -> (n: usize)
        ensures
            n == self.spec_capacity(),
    {
        self.capacity
    }

    /// Takes the commands that are buffered at the time, in the order they
    /// were sent, without blocking.
    pub fn drain(&self) -> (cmds: Vec<ShapeCommand<P>>) {
        try_drain(&self.receiver)
    }
}

impl<P> Scene<P> {
    /// Drains `inbox` and carries out what it held, in order. Returns what
    /// became of each command. `shift` adds an offset to a point.
    pub fn receive<F: Fn(&P, &P) -> P>(&mut self, inbox: &CommandInbox<P>, shift: &F) -> (outcomes:
        Vec<Outcome>)
        requires
            old(self).wf(),
            forall|a: &P, b: &P| call_requires(*shift, (a, b)),
        ensures
            final(self).wf(),
            exists|cmds: Seq<ShapeCommand<P>>| #[trigger]
                applied_all(*old(self), cmds, *shift, *final(self), outcomes@),
    {
        let cmds = inbox.drain();
        self.apply_all(cmds, shift)
    }
}

} // verus!
