//! The payloads of the log store, split into what the node accepts and what
//! it sends.

use crate::logs::{Payload, PayloadView};
use vstd::prelude::*;
use vstd::std_specs::convert::FromSpecImpl;

verus! {

/// A client's request to the log store.
#[derive(Debug, Clone, PartialEq, Eq)]
pub enum LogsReceive {
    Send { key: String, msg: usize },
    Poll { offsets: Vec<(String, usize)> },
    CommitOffsets { offsets: Vec<(String, usize)> },
    ListCommittedOffsets { keys: Vec<String> },
}

/// The log store's response to a client.
#[derive(Debug, Clone, PartialEq, Eq)]
pub enum LogsSend {
    SendOk { offset: usize },
    PollOk { msgs: Vec<(String, Vec<(usize, usize)>)> },
    CommitOffsetsOk,
    ListCommittedOffsetsOk { offsets: Vec<(String, usize)> },
}

impl PayloadView {
    /// Whether the payload is a request, which the node accepts, and not a
    /// response, which it only sends.
    pub open spec fn is_request(self) -> bool {
        match self {
            PayloadView::Send { .. } | PayloadView::Poll { .. } | PayloadView::CommitOffsets { .. }
            | PayloadView::ListCommittedOffsets { .. } => true,
            PayloadView::SendOk { .. } | PayloadView::PollOk { .. } | PayloadView::CommitOffsetsOk
            | PayloadView::ListCommittedOffsetsOk { .. } => false,
        }
    }
}

impl LogsReceive {
    /// The wire shape of the request.
    pub open spec fn wire(self) -> Payload {
        match self {
            LogsReceive::Send { key, msg } => Payload::Send { key, msg },
            LogsReceive::Poll { offsets } => Payload::Poll { offsets },
            LogsReceive::CommitOffsets { offsets } => Payload::CommitOffsets { offsets },
            LogsReceive::ListCommittedOffsets { keys } => Payload::ListCommittedOffsets { keys },
        }
    }

    /// Sorts out the requests among the payloads. A response is handed back
    /// unchanged as the error.
    pub fn try_from(raw: Payload) -> (role: Result<LogsReceive, Payload>)
        ensures
            match role {
                Ok(request) => raw@.is_request() && request.wire() == raw,
                Err(refused) => !raw@.is_request() && refused == raw,
            },
    {
        match raw {
            Payload::Send { key, msg } => Ok(LogsReceive::Send { key, msg }),
            Payload::Poll { offsets } => Ok(LogsReceive::Poll { offsets }),
            Payload::CommitOffsets { offsets } => Ok(LogsReceive::CommitOffsets { offsets }),
            Payload::ListCommittedOffsets { keys } => Ok(
                LogsReceive::ListCommittedOffsets { keys },
            ),
            Payload::SendOk { offset } => Err(Payload::SendOk { offset }),
            Payload::PollOk { msgs } => Err(Payload::PollOk { msgs }),
            Payload::CommitOffsetsOk => Err(Payload::CommitOffsetsOk),
            Payload::ListCommittedOffsetsOk { offsets } => Err(
                Payload::ListCommittedOffsetsOk { offsets },
            ),
        }
    }
}

impl From<LogsReceive> for Payload {
    fn from(msg: LogsReceive) -> (raw: Payload)
        ensures
            raw@.is_request(),
    {
        match msg {
            LogsReceive::Send { key, msg } => Payload::Send { key, msg },
            LogsReceive::Poll { offsets } => Payload::Poll { offsets },
            LogsReceive::CommitOffsets { offsets } => Payload::CommitOffsets { offsets },
            LogsReceive::ListCommittedOffsets { keys } => Payload::ListCommittedOffsets { keys },
        }
    }
}

impl FromSpecImpl<LogsReceive> for Payload {
    open spec fn obeys_from_spec() -> bool {
        true
    }

    open spec fn from_spec(msg: LogsReceive) -> Payload {
        msg.wire()
    }
}

impl From<LogsSend> for Payload {
    fn from(msg: LogsSend) -> (raw: Payload)
        ensures
            !raw@.is_request(),
    {
        match msg {
            LogsSend::SendOk { offset } => Payload::SendOk { offset },
            LogsSend::PollOk { msgs } => Payload::PollOk { msgs },
            LogsSend::CommitOffsetsOk => Payload::CommitOffsetsOk,
            LogsSend::ListCommittedOffsetsOk { offsets } => Payload::ListCommittedOffsetsOk {
                offsets,
            },
        }
    }
}

impl FromSpecImpl<LogsSend> for Payload {
    open spec fn obeys_from_spec() -> bool {
        true
    }

    open spec fn from_spec(msg: LogsSend) -> Payload {
        match msg {
            LogsSend::SendOk { offset } => Payload::SendOk { offset },
            LogsSend::PollOk { msgs } => Payload::PollOk { msgs },
            LogsSend::CommitOffsetsOk => Payload::CommitOffsetsOk,
            LogsSend::ListCommittedOffsetsOk { offsets } => Payload::ListCommittedOffsetsOk {
                offsets,
            },
        }
    }
}

} // verus!
