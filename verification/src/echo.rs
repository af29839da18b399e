//! The echo service: every request is answered with its own text.

use crate::{reply_to, sent, Init, Message, Never, Node, NodeError};
use vstd::prelude::*;

verus! {

/// The state of an echo node: the next local identifier.
pub struct Echo {
    msg_id: usize,
}

/// The payloads of the echo service.
#[derive(Debug, Clone, PartialEq, Eq)]
pub enum Payload {
    Echo { echo: String },
    EchoOk { echo: String },
}

/// The content of a [`Payload`].
pub ghost enum PayloadView {
    Echo { echo: Seq<char> },
    EchoOk { echo: Seq<char> },
}

impl View for Payload {
    type V = PayloadView;

    open spec fn view(&self) -> PayloadView {
        match self {
            Payload::Echo { echo } => PayloadView::Echo { echo: echo@ },
            Payload::EchoOk { echo } => PayloadView::EchoOk { echo: echo@ },
        }
    }
}

impl Echo {
    /// The next local identifier.
    pub closed spec fn next_id(&self) -> usize {
        self.msg_id
    }

    /// The next local identifier.
    pub fn msg_id(&self) -> (id: usize)
        ensures
            id == self.next_id(),
    {
        self.msg_id
    }
}

impl Node for Echo {
    type Payload = Payload;

    type Event = Never;

    type Start = ();

    open spec fn wf(&self) -> bool {
        true
    }

    open spec fn init_post(init: Init, msg_id: usize, start: (), node: Self) -> bool {
        node.next_id() == msg_id
    }

    /// An `Echo` request is answered with `EchoOk` carrying the same text and
    /// consumes one identifier; an `EchoOk` is refused. With the identifiers
    /// used up nothing is sent and nothing changes.
    open spec fn message_step(
        pre: Self,
        message: Message<Payload>,
        post: Self,
        result: Result<Vec<Message<Payload>>, NodeError>,
    ) -> bool {
        if pre.next_id() == usize::MAX {
            post.next_id() == pre.next_id() && result == Err::<Vec<Message<Payload>>, NodeError>(
                NodeError::MsgIdExhausted,
            )
        } else {
            &&& post.next_id() == pre.next_id() + 1
            &&& match message.body.payload {
                Payload::Echo { echo } => {
                    &&& result matches Ok(out)
                    &&& sent(out@) == seq![
                        reply_to(
                            message@,
                            Some(pre.next_id()),
                            PayloadView::EchoOk { echo: echo@ },
                        ),
                    ]
                },
                Payload::EchoOk { .. } => result == Err::<Vec<Message<Payload>>, NodeError>(
                    NodeError::UnexpectedPayload,
                ),
            }
        }
    }

    open spec fn event_step(
        pre: Self,
        event: Never,
        post: Self,
        result: Result<Vec<Message<Payload>>, NodeError>,
    ) -> bool {
        &&& post.next_id() == pre.next_id()
        &&& result matches Ok(out)
        &&& out@.len() == 0
    }

    open spec fn ticks(&self) -> Option<(u64, Never)> {
        None
    }

    fn timer(&self) -> (timer: Option<(u64, Never)>) {
        None
    }

    fn from_init(_init: Init, msg_id: usize, _start: ()) -> (node: Self) {
        Echo { msg_id }
    }

    fn step_message(&mut self, message: Message<Payload>) -> (result: Result<
        Vec<Message<Payload>>,
        NodeError,
    >) {
        if self.msg_id == usize::MAX {
            return Err(NodeError::MsgIdExhausted);
        }
        let ghost request = message@;
        let mut reply = message.reply(Some(&mut self.msg_id));
        match reply.body.payload {
            Payload::Echo { echo } => {
                reply.body.payload = Payload::EchoOk { echo };
                let out = vec![reply];
                assert(sent(out@) =~= seq![
                    reply_to(request, Some(old(self).msg_id), PayloadView::EchoOk { echo: echo@ }),
                ]);
                Ok(out)
            },
            Payload::EchoOk { .. } => Err(NodeError::UnexpectedPayload),
        }
    }

    fn step_event(&mut self, event: Never) -> (result: Result<Vec<Message<Payload>>, NodeError>) {
        Ok(Vec::new())
    }
}

} // verus!
