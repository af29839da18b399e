//! Building blocks for nodes that exchange newline-delimited envelopes with
//! their peers: the envelope model, the handshake, the event dispatch of the
//! runtime, and the node implementations built on them.

use vstd::prelude::*;

pub mod counter;
pub mod echo;
pub mod gossip;
pub mod logs;
pub mod runtime;
pub mod services;
pub mod unique;

pub use runtime::{dispatch, handshake, start, EventSendError, EventSender, Flow, Inbound};

verus! {

/// The outer record of every message: who sent it, who it is for, and its body.
#[derive(Debug, Clone, PartialEq, Eq)]
pub struct Message<P> {
    pub src: String,
    pub dest: String,
    pub body: Body<P>,
}

/// The body of a message: an optional local identifier, an optional
/// back-reference to the request it answers, and the payload.
#[derive(Debug, Clone, PartialEq, Eq)]
pub struct Body<P> {
    pub msg_id: Option<usize>,
    pub in_reply_to: Option<usize>,
    pub payload: P,
}

/// The mathematical content of a [`Message`]: identifiers as character
/// sequences and the payload by its own view.
pub ghost struct Envelope<V> {
    pub src: Seq<char>,
    pub dest: Seq<char>,
    pub msg_id: Option<usize>,
    pub in_reply_to: Option<usize>,
    pub payload: V,
}

impl<P: View> View for Message<P> {
    type V = Envelope<P::V>;

    open spec fn view(&self) -> Envelope<P::V> {
        Envelope {
            src: self.src@,
            dest: self.dest@,
            msg_id: self.body.msg_id,
            in_reply_to: self.body.in_reply_to,
            payload: self.body.payload@,
        }
    }
}

/// The contents of a list of outbound messages, in order.
pub open spec fn sent<P: View>(out: Seq<Message<P>>) -> Seq<Envelope<P::V>> {
    Seq::new(out.len(), |i: int| out[i]@)
}

/// What a step hands back, by its content: the messages to send, or the error.
pub open spec fn outcome<P: View>(result: Result<Vec<Message<P>>, NodeError>) -> Result<
    Seq<Envelope<P::V>>,
    NodeError,
> {
    match result {
        Ok(out) => Ok(sent(out@)),
        Err(error) => Err(error),
    }
}

/// The envelope that answers `request` with `payload` under identifier `id`.
pub open spec fn reply_to<V, W>(request: Envelope<V>, id: Option<usize>, payload: W) -> Envelope<W> {
    Envelope {
        src: request.dest,
        dest: request.src,
        msg_id: id,
        in_reply_to: request.msg_id,
        payload,
    }
}

/// A list that holds `message` alone.
pub(crate) fn one<P: View>(message: Message<P>) -> (out: Vec<Message<P>>)
    ensures
        out@ == seq![message],
        sent(out@) == seq![message@],
{
    let mut out: Vec<Message<P>> = Vec::new();
    out.push(message);
    assert(out@ =~= seq![message]);
    assert(sent(out@) =~= seq![message@]);
    out
}

/// The empty list of messages.
pub(crate) fn nothing<P: View>() -> (out: Vec<Message<P>>)
    ensures
        out@ == Seq::<Message<P>>::empty(),
        sent(out@) == Seq::<Envelope<P::V>>::empty(),
{
    let out: Vec<Message<P>> = Vec::new();
    assert(sent(out@) =~= Seq::<Envelope<P::V>>::empty());
    out
}

/// Hands out the next local identifier: returns the counter's value and
/// advances the counter by one.
pub fn next_msg_id(id: &mut usize) -> (issued: usize)
    requires
        *old(id) < usize::MAX,
    ensures
        issued == *old(id),
        *final(id) == *old(id) + 1,
{
    let current: usize = *id;
    *id = current + 1;
    current
}

impl<P> Message<P> {
    /// Builds the reply envelope to `self`: source and destination are swapped,
    /// the payload is carried over, and the reply refers back to the request's
    /// identifier. With a counter given, the reply gets the counter's value as
    /// its own identifier and the counter advances by one; without one the
    /// reply has no identifier.
    pub fn reply(self, id: Option<&mut usize>) -> (r: Self)
        requires
            id matches Some(counter) ==> *counter < usize::MAX,
        ensures
            r.src == self.dest,
            r.dest == self.src,
            r.body.payload == self.body.payload,
            r.body.in_reply_to == self.body.msg_id,
            match id {
                Some(counter) => r.body.msg_id == Some(*counter) && *final(counter) == *counter
                    + 1,
                None => r.body.msg_id is None,
            },
    {
        let Message { src, dest, body } = self;
        let Body { payload, msg_id, in_reply_to: _ } = body;
        let new_msg_id: Option<usize> = match id {
            Some(counter) => Some(next_msg_id(counter)),
            None => None,
        };
        Message { src: dest, dest: src, body: Body { msg_id: new_msg_id, in_reply_to: msg_id, payload } }
    }
}

/// The handshake record: this node's identity and the identities of the
/// nodes of the cluster, in the order in which they were announced.
#[derive(Debug, Clone, PartialEq, Eq)]
pub struct Init {
    pub node_id: String,
    pub node_ids: Vec<String>,
}

/// The two payloads of the handshake.
#[derive(Debug, Clone, PartialEq, Eq)]
pub enum InitPayload {
    Init(Init),
    InitOk,
}

/// The content of an [`Init`].
pub ghost struct InitView {
    pub node_id: Seq<char>,
    pub node_ids: Seq<Seq<char>>,
}

/// The content of an [`InitPayload`].
pub ghost enum InitPayloadView {
    Init(InitView),
    InitOk,
}

impl View for Init {
    type V = InitView;

    open spec fn view(&self) -> InitView {
        InitView {
            node_id: self.node_id@,
            node_ids: Seq::new(self.node_ids@.len(), |i: int| self.node_ids@[i]@),
        }
    }
}

impl View for InitPayload {
    type V = InitPayloadView;

    open spec fn view(&self) -> InitPayloadView {
        match self {
            InitPayload::Init(init) => InitPayloadView::Init(init@),
            InitPayload::InitOk => InitPayloadView::InitOk,
        }
    }
}

/// The event type of a node that has no internal events: it has no values.
#[derive(Debug, Clone, Copy, PartialEq, Eq)]
pub enum Never {
    Unreachable(core::convert::Infallible),
}

/// Why a node, or the runtime on its behalf, gives up. Every one of these is
/// fatal: the process reports it and exits.
#[derive(Debug, Clone, PartialEq, Eq)]
pub enum NodeError {
    /// The first inbound message was not the handshake request.
    NotInit,
    /// An inbound line could not be read or decoded.
    Input { reason: String },
    /// The payload is not one that this node accepts.
    UnexpectedPayload,
    /// Gossip arrived from a node that the handshake did not announce.
    UnknownGossipNode,
    /// A reply of the store carries no reference to a request.
    MissingInReplyTo,
    /// The store confirmed a compare-and-swap that this node has no record of.
    UnknownAttempt { msg_id: usize },
    /// The store confirmed an attempt that folded more than the local total.
    FoldExceedsLocal { msg_id: usize },
    /// The store reported an error code that this node does not know.
    UnknownStoreError { code: u32 },
    /// A peer is known to have more values than a 32-bit number counts.
    TooManyKnown,
    /// The local identifiers are used up.
    MsgIdExhausted,
    /// A total does not fit the machine's integers.
    CounterOverflow,
}

/// A node implementation: built from the handshake record, it reacts to one
/// inbound message or one internal event at a time and answers with the
/// messages to send.
pub trait Node: Sized {
    /// The payloads this node receives and sends.
    type Payload;

    /// The events this node raises for itself.
    type Event;

    /// What the program hands the node at its start.
    type Start;

    /// The invariant of the node's state.
    spec fn wf(&self) -> bool;

    /// What holds of a node just built from a handshake.
    spec fn init_post(init: Init, msg_id: usize, start: Self::Start, node: Self) -> bool;

    /// How the state before and after one inbound message, and the result,
    /// are related.
    spec fn message_step(
        pre: Self,
        message: Message<Self::Payload>,
        post: Self,
        result: Result<Vec<Message<Self::Payload>>, NodeError>,
    ) -> bool;

    /// How the state before and after one internal event, and the result,
    /// are related.
    spec fn event_step(
        pre: Self,
        event: Self::Event,
        post: Self,
        result: Result<Vec<Message<Self::Payload>>, NodeError>,
    ) -> bool;

    /// The timer that the node asks for: the interval in milliseconds and the
    /// event to raise each time it has passed; `None` for a node without one.
    spec fn ticks(&self) -> Option<(u64, Self::Event)>;

    /// The timer that the node asks for.
    fn timer(&self) -> (timer: Option<(u64, Self::Event)>)
        ensures
            timer == self.ticks(),
    ;

    /// Builds the node from the handshake record. `msg_id` is the first local
    /// identifier that the node may issue.
    fn from_init(init: Init, msg_id: usize, start: Self::Start) -> (node: Self)
        ensures
            node.wf(),
            Self::init_post(init, msg_id, start, node),
    ;

    /// Handles one inbound message and returns the messages to send.
    fn step_message(&mut self, message: Message<Self::Payload>) -> (result: Result<
        Vec<Message<Self::Payload>>,
        NodeError,
    >)
        requires
            old(self).wf(),
        ensures
            final(self).wf(),
            Self::message_step(*old(self), message, *final(self), result),
    ;

    /// Handles one internal event and returns the messages to send.
    fn step_event(&mut self, event: Self::Event) -> (result: Result<
        Vec<Message<Self::Payload>>,
        NodeError,
    >)
        requires
            old(self).wf(),
        ensures
            final(self).wf(),
            Self::event_step(*old(self), event, *final(self), result),
    ;
}

} // verus!
