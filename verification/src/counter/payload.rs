//! The payloads of the counter node: the flat set that travels on the wire,
//! and its split into what the node receives and what it sends, towards the
//! clients and towards the store.

use crate::services::key_value;
use crate::services::key_value::{ReceiveView, SendView};
use vstd::prelude::*;
use vstd::std_specs::convert::FromSpecImpl;

verus! {

/// Every payload shape that the counter node can read from or write to the
/// wire. A `Read` with a key is a request to the store; one without is a
/// client's request to the node.
#[derive(Debug, Clone, PartialEq, Eq)]
#[allow(inconsistent_fields)]
pub enum Raw {
    Add { delta: usize },
    AddOk,
    ReadOk { value: usize },
    Read { key: Option<String> },
    Write { key: String, value: usize },
    WriteOk,
    Cas { key: String, from: usize, to: usize },
    CasOk,
    Error { code: key_value::ErrorCode, text: String },
}

/// The content of a [`Raw`].
#[allow(inconsistent_fields)]
pub ghost enum RawView {
    Add { delta: usize },
    AddOk,
    ReadOk { value: usize },
    Read { key: Option<Seq<char>> },
    Write { key: Seq<char>, value: usize },
    WriteOk,
    Cas { key: Seq<char>, from: usize, to: usize },
    CasOk,
    Error { code: key_value::ErrorCode, text: Seq<char> },
}

impl View for Raw {
    type V = RawView;

    open spec fn view(&self) -> RawView {
        match self {
            Raw::Add { delta } => RawView::Add { delta: *delta },
            Raw::AddOk => RawView::AddOk,
            Raw::ReadOk { value } => RawView::ReadOk { value: *value },
            Raw::Read { key } => RawView::Read {
                key: match key {
                    Some(key) => Some(key@),
                    None => None,
                },
            },
            Raw::Write { key, value } => RawView::Write { key: key@, value: *value },
            Raw::WriteOk => RawView::WriteOk,
            Raw::Cas { key, from, to } => RawView::Cas { key: key@, from: *from, to: *to },
            Raw::CasOk => RawView::CasOk,
            Raw::Error { code, text } => RawView::Error { code: *code, text: text@ },
        }
    }
}

/// A request to the store, under the name that the counter's payloads give it.
pub type KeyValueSend = key_value::Send;

/// A response of the store, under the name that the counter's payloads give
/// it.
pub type KeyValueReceive = key_value::Receive;

/// The store's error codes, under the name that the counter's payloads give
/// them.
pub type KvErrorCode = key_value::Code;

/// A payload with its direction: one that the node accepts, or one that it
/// sends.
#[derive(Debug, Clone, PartialEq, Eq)]
pub enum Typed {
    Receive(Receive),
    Send(Send),
}

/// What the node accepts: a response of the store or a request of a client.
#[derive(Debug, Clone, PartialEq, Eq)]
pub enum Receive {
    Kv(key_value::Receive),
    Count(CountReceive),
}

/// What the node sends: a request to the store or a response to a client.
#[derive(Debug, Clone, PartialEq, Eq)]
pub enum Send {
    Kv(key_value::Send),
    Count(CountSend),
}

/// A client's request.
#[derive(Debug, Clone, Copy, PartialEq, Eq)]
pub enum CountReceive {
    Add { delta: usize },
    Read,
}

/// The node's response to a client.
#[derive(Debug, Clone, Copy, PartialEq, Eq)]
pub enum CountSend {
    AddOk,
    ReadOk { value: usize },
}

/// The content of a [`Receive`].
pub ghost enum ReceiveRole {
    Kv(ReceiveView),
    Count(CountReceive),
}

impl View for Receive {
    type V = ReceiveRole;

    open spec fn view(&self) -> ReceiveRole {
        match self {
            Receive::Kv(kv) => ReceiveRole::Kv(kv@),
            Receive::Count(count) => ReceiveRole::Count(*count),
        }
    }
}

impl RawView {
    /// The role of a payload that arrives at the node. The shapes that the
    /// node only ever sends have none.
    pub open spec fn received(self) -> Option<ReceiveRole> {
        match self {
            RawView::Add { delta } => Some(ReceiveRole::Count(CountReceive::Add { delta })),
            RawView::Read { key: None } => Some(ReceiveRole::Count(CountReceive::Read)),
            RawView::ReadOk { value } => Some(ReceiveRole::Kv(ReceiveView::ReadOk { value })),
            RawView::WriteOk => Some(ReceiveRole::Kv(ReceiveView::WriteOk)),
            RawView::CasOk => Some(ReceiveRole::Kv(ReceiveView::CasOk)),
            RawView::Error { code, text } => Some(
                ReceiveRole::Kv(ReceiveView::Error { code, text }),
            ),
            RawView::Read { key: Some(_) } | RawView::Write { .. } | RawView::Cas { .. }
            | RawView::AddOk => None,
        }
    }

    /// The wire shape of a request to the store.
    pub open spec fn of_kv_send(request: SendView) -> RawView {
        match request {
            SendView::Read { key } => RawView::Read { key: Some(key) },
            SendView::Write { key, value } => RawView::Write { key, value },
            SendView::Cas { key, from, to } => RawView::Cas { key, from, to },
        }
    }

    /// The wire shape of a response of the store.
    pub open spec fn of_kv_receive(response: ReceiveView) -> RawView {
        match response {
            ReceiveView::ReadOk { value } => RawView::ReadOk { value },
            ReceiveView::WriteOk => RawView::WriteOk,
            ReceiveView::CasOk => RawView::CasOk,
            ReceiveView::Error { code, text } => RawView::Error { code, text },
        }
    }

    /// The wire shape of a client's request.
    pub open spec fn of_count_receive(request: CountReceive) -> RawView {
        match request {
            CountReceive::Add { delta } => RawView::Add { delta },
            CountReceive::Read => RawView::Read { key: None },
        }
    }

    /// The wire shape of a response to a client.
    pub open spec fn of_count_send(response: CountSend) -> RawView {
        match response {
            CountSend::AddOk => RawView::AddOk,
            CountSend::ReadOk { value } => RawView::ReadOk { value },
        }
    }
}

impl Receive {
    /// Sorts a payload that arrived into its role. A shape that the node only
    /// ever sends is handed back unchanged as the error.
    pub fn try_from(raw: Raw) -> (role: Result<Receive, Raw>)
        ensures
            match role {
                Ok(accepted) => raw@.received() == Some(accepted@),
                Err(refused) => raw@.received() is None && refused == raw,
            },
    {
        match raw {
            Raw::Add { delta } => Ok(Receive::Count(CountReceive::Add { delta })),
            Raw::Read { key: None } => Ok(Receive::Count(CountReceive::Read)),
            Raw::ReadOk { value } => Ok(Receive::Kv(key_value::Receive::ReadOk { value })),
            Raw::WriteOk => Ok(Receive::Kv(key_value::Receive::WriteOk)),
            Raw::CasOk => Ok(Receive::Kv(key_value::Receive::CasOk)),
            Raw::Error { code, text } => Ok(
                Receive::Kv(key_value::Receive::Error { code, text }),
            ),
            Raw::Read { key: Some(key) } => Err(Raw::Read { key: Some(key) }),
            Raw::Write { key, value } => Err(Raw::Write { key, value }),
            Raw::Cas { key, from, to } => Err(Raw::Cas { key, from, to }),
            Raw::AddOk => Err(Raw::AddOk),
        }
    }
}

impl From<key_value::Send> for Raw {
    fn from(msg: key_value::Send) -> (raw: Raw)
        ensures
            raw@ == RawView::of_kv_send(msg@),
    {
        match msg {
            key_value::Send::Read { key } => Raw::Read { key: Some(key) },
            key_value::Send::Write { key, value } => Raw::Write { key, value },
            key_value::Send::Cas { key, from, to } => Raw::Cas { key, from, to },
        }
    }
}

impl FromSpecImpl<key_value::Send> for Raw {
    open spec fn obeys_from_spec() -> bool {
        true
    }

    open spec fn from_spec(msg: key_value::Send) -> Raw {
        match msg {
            key_value::Send::Read { key } => Raw::Read { key: Some(key) },
            key_value::Send::Write { key, value } => Raw::Write { key, value },
            key_value::Send::Cas { key, from, to } => Raw::Cas { key, from, to },
        }
    }
}

impl From<key_value::Receive> for Raw {
    fn from(msg: key_value::Receive) -> (raw: Raw)
        ensures
            raw@ == RawView::of_kv_receive(msg@),
    {
        match msg {
            key_value::Receive::ReadOk { value } => Raw::ReadOk { value },
            key_value::Receive::WriteOk => Raw::WriteOk,
            key_value::Receive::CasOk => Raw::CasOk,
            key_value::Receive::Error { code, text } => Raw::Error { code, text },
        }
    }
}

impl FromSpecImpl<key_value::Receive> for Raw {
    open spec fn obeys_from_spec() -> bool {
        true
    }

    open spec fn from_spec(msg: key_value::Receive) -> Raw {
        match msg {
            key_value::Receive::ReadOk { value } => Raw::ReadOk { value },
            key_value::Receive::WriteOk => Raw::WriteOk,
            key_value::Receive::CasOk => Raw::CasOk,
            key_value::Receive::Error { code, text } => Raw::Error { code, text },
        }
    }
}

impl From<CountReceive> for Raw {
    fn from(msg: CountReceive) -> (raw: Raw)
        ensures
            raw@ == RawView::of_count_receive(msg),
    {
        match msg {
            CountReceive::Add { delta } => Raw::Add { delta },
            CountReceive::Read => Raw::Read { key: None },
        }
    }
}

impl FromSpecImpl<CountReceive> for Raw {
    open spec fn obeys_from_spec() -> bool {
        true
    }

    open spec fn from_spec(msg: CountReceive) -> Raw {
        match msg {
            CountReceive::Add { delta } => Raw::Add { delta },
            CountReceive::Read => Raw::Read { key: None },
        }
    }
}

impl From<CountSend> for Raw {
    fn from(msg: CountSend) -> (raw: Raw)
        ensures
            raw@ == RawView::of_count_send(msg),
    {
        match msg {
            CountSend::AddOk => Raw::AddOk,
            CountSend::ReadOk { value } => Raw::ReadOk { value },
        }
    }
}

impl FromSpecImpl<CountSend> for Raw {
    open spec fn obeys_from_spec() -> bool {
        true
    }

    open spec fn from_spec(msg: CountSend) -> Raw {
        match msg {
            CountSend::AddOk => Raw::AddOk,
            CountSend::ReadOk { value } => Raw::ReadOk { value },
        }
    }
}

impl From<Send> for Raw {
    fn from(msg: Send) -> (raw: Raw)
        ensures
            raw@ == (match msg {
                Send::Kv(request) => RawView::of_kv_send(request@),
                Send::Count(response) => RawView::of_count_send(response),
            }),
    {
        match msg {
            Send::Kv(request) => Raw::from(request),
            Send::Count(response) => Raw::from(response),
        }
    }
}

impl FromSpecImpl<Send> for Raw {
    open spec fn obeys_from_spec() -> bool {
        true
    }

    open spec fn from_spec(msg: Send) -> Raw {
        match msg {
            Send::Kv(key_value::Send::Read { key }) => Raw::Read { key: Some(key) },
            Send::Kv(key_value::Send::Write { key, value }) => Raw::Write { key, value },
            Send::Kv(key_value::Send::Cas { key, from, to }) => Raw::Cas { key, from, to },
            Send::Count(CountSend::AddOk) => Raw::AddOk,
            Send::Count(CountSend::ReadOk { value }) => Raw::ReadOk { value },
        }
    }
}

/// A payload that the node sends never reads back as one that it accepts,
/// except `ReadOk`, which both the store and the node send.
pub proof fn lemma_sent_shapes_are_refused(request: SendView, response: CountSend)
    ensures
        RawView::of_kv_send(request).received() is None,
        response is AddOk ==> RawView::of_count_send(response).received() is None,
{
}

/// A payload that the node accepts keeps its role on the way to the wire and
/// back.
pub proof fn lemma_received_round_trip(response: ReceiveView, request: CountReceive)
    ensures
        RawView::of_kv_receive(response).received() == Some(ReceiveRole::Kv(response)),
        RawView::of_count_receive(request).received() == Some(ReceiveRole::Count(request)),
{
}

} // verus!
