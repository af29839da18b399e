//! The decisions of the runtime: the handshake that builds the node, and the
//! dispatch of each item that the worker takes from its queue.

use crate::{reply_to, Body, Init, InitPayload, InitPayloadView, Message, Node, NodeError};
use std::sync::mpsc::Sender;
use vstd::prelude::*;

verus! {

/// One item of the worker's queue: a decoded message, an event that the node
/// raised for itself, the failure to read or decode a line, or the end of the
/// input.
#[derive(Debug)]
pub enum Inbound<P, E> {
    Message(Message<P>),
    Event(E),
    Failed { reason: String },
    Shutdown,
}

/// What the worker does after an item: send the node's messages and go on,
/// or stop.
#[derive(Debug)]
pub enum Flow<P> {
    Send(Vec<Message<P>>),
    Stop,
}

/// The first local identifier: the reply to the handshake carries it.
pub const FIRST_MSG_ID: usize = 0;

/// Answers the first inbound message. A handshake request yields the record
/// that the node is built from, the acknowledgement to send, and the first
/// identifier that is left for the node. Any other payload is refused.
pub fn handshake(first: Message<InitPayload>) -> (result: Result<
    (Init, Message<InitPayload>, usize),
    NodeError,
>)
    ensures
        match result {
            Ok((init, reply, msg_id)) => {
                &&& first.body.payload == InitPayload::Init(init)
                &&& reply@ == reply_to(first@, Some(FIRST_MSG_ID), InitPayloadView::InitOk)
                &&& msg_id == FIRST_MSG_ID + 1
            },
            Err(error) => error == NodeError::NotInit && first.body.payload is InitOk,
        },
{
    let mut msg_id: usize = FIRST_MSG_ID;
    let reply = first.reply(Some(&mut msg_id));
    let Message { src, dest, body } = reply;
    let Body { msg_id: reply_id, in_reply_to, payload } = body;
    match payload {
        InitPayload::Init(init) => {
            let reply = Message {
                src,
                dest,
                body: Body { msg_id: reply_id, in_reply_to, payload: InitPayload::InitOk },
            };
            Ok((init, reply, msg_id))
        },
        InitPayload::InitOk => Err(NodeError::NotInit),
    }
}

/// Performs the handshake and builds the node from its record and from what
/// the program has `given` it.
pub fn start<N: Node>(first: Message<InitPayload>, given: N::Start) -> (result: Result<
    (N, Message<InitPayload>),
    NodeError,
>)
    ensures
        match result {
            Ok((node, reply)) => {
                &&& first.body.payload matches InitPayload::Init(init)
                &&& node.wf()
                &&& N::init_post(init, (FIRST_MSG_ID + 1) as usize, given, node)
                &&& reply@ == reply_to(first@, Some(FIRST_MSG_ID), InitPayloadView::InitOk)
            },
            Err(error) => error == NodeError::NotInit && first.body.payload is InitOk,
        },
{
    match handshake(first) {
        Ok((init, reply, msg_id)) => Ok((N::from_init(init, msg_id, given), reply)),
        Err(error) => Err(error),
    }
}

/// Hands one item of the queue to the node. A message goes to the node's
/// message handler and an event to its event handler, and what the handler
/// gives back is what the worker sends or fails with. A failure that was
/// queued is the worker's failure. The end of the input stops the worker.
pub fn dispatch<N: Node>(node: &mut N, item: Inbound<N::Payload, N::Event>) -> (result: Result<
    Flow<N::Payload>,
    NodeError,
>)
    requires
        old(node).wf(),
    ensures
        final(node).wf(),
        match item {
            Inbound::Message(message) => match result {
                Ok(Flow::Send(out)) => N::message_step(
                    *old(node),
                    message,
                    *final(node),
                    Ok(out),
                ),
                Ok(Flow::Stop) => false,
                Err(error) => N::message_step(*old(node), message, *final(node), Err(error)),
            },
            Inbound::Event(event) => match result {
                Ok(Flow::Send(out)) => N::event_step(*old(node), event, *final(node), Ok(out)),
                Ok(Flow::Stop) => false,
                Err(error) => N::event_step(*old(node), event, *final(node), Err(error)),
            },
            Inbound::Failed { reason } => *final(node) == *old(node) && result == Err::<
                Flow<N::Payload>,
                NodeError,
            >(NodeError::Input { reason }),
            Inbound::Shutdown => *final(node) == *old(node) && result matches Ok(Flow::Stop),
        },
{
    match item {
        Inbound::Message(message) => match node.step_message(message) {
            Ok(out) => Ok(Flow::Send(out)),
            Err(error) => Err(error),
        },
        Inbound::Event(event) => match node.step_event(event) {
            Ok(out) => Ok(Flow::Send(out)),
            Err(error) => Err(error),
        },
        Inbound::Failed { reason } => Err(NodeError::Input { reason }),
        Inbound::Shutdown => Ok(Flow::Stop),
    }
}

/// The sending half of a channel of the standard library. Nothing of its
/// state is visible here.
#[verifier::external_type_specification]
#[verifier::external_body]
#[verifier::reject_recursive_types(T)]
pub struct ExSender<T>(Sender<T>);

/// Calls `std::sync::mpsc::Sender::send` and tells whether the item was
/// taken. That depends on whether the receiving half still exists, so
/// nothing is claimed of the answer.
#[verifier::external_body]
fn push<T>(queue: &Sender<T>, item: T) -> (taken: bool) {
    match queue.send(item) {
        Ok(()) => true,
        Err(_) => false,
    }
}

/// The handle by which a timer puts events into the worker's queue.
#[verifier::reject_recursive_types(P)]
#[verifier::reject_recursive_types(T)]
pub struct EventSender<P, T>(Sender<Inbound<P, T>>);

/// The queue is closed: the worker is gone.
#[derive(Debug, Clone, Copy, PartialEq, Eq)]
pub struct EventSendError;

impl<P, T> EventSender<P, T> {
    /// The handle for the queue that `queue` sends to.
    pub fn new(queue: Sender<Inbound<P, T>>) -> (sender: Self)
        ensures
            sender.queue() == queue,
    {
        EventSender(queue)
    }

    /// What `send` answers when the queue took the item, and when not.
    pub fn outcome(taken: bool) -> (result: Result<(), EventSendError>)
        ensures
            result is Ok <==> taken,
    {
        if taken {
            Ok(())
        } else {
            Err(EventSendError)
        }
    }

    /// The item that stands for `event` in the worker's queue.
    pub fn item(event: T) -> (item: Inbound<P, T>)
        ensures
            item == Inbound::<P, T>::Event(event),
    {
        Inbound::Event(event)
    }

    /// Puts `event` at the end of the worker's queue, as the item that
    /// [`EventSender::item`] makes of it, and answers as
    /// [`EventSender::outcome`] says. It fails where the queue is closed,
    /// which tells a timer to stop. Whether the queue is closed is not in the
    /// handle's hands, so nothing is said of the answer; the handle stays the
    /// handle of the same queue.
    pub fn send(&mut self, event: T) -> (result: Result<(), EventSendError>)
        ensures
            final(self).queue() == old(self).queue(),
    {
        Self::outcome(push(&self.0, Self::item(event)))
    }

    /// The sending half that the handle puts its events into.
    pub closed spec fn queue(&self) -> Sender<Inbound<P, T>> {
        self.0
    }
}

} // verus!
