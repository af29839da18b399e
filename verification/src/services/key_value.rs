//! The requests and responses of the harness's key-value stores, and the
//! classification of the error codes they report.

use vstd::prelude::*;
use vstd::std_specs::convert::FromSpecImpl;

verus! {

/// The sequentially consistent store's node identifier.
pub const NODE_ID: &'static str = "seq-kv";

/// A request to the store.
#[derive(Debug, Clone, PartialEq, Eq)]
pub enum Send {
    Read { key: String },
    Write { key: String, value: usize },
    Cas { key: String, from: usize, to: usize },
}

/// A response of the store.
#[derive(Debug, Clone, PartialEq, Eq)]
pub enum Receive {
    ReadOk { value: usize },
    WriteOk,
    CasOk,
    Error { code: Code, text: String },
}

/// The content of a [`Send`].
pub ghost enum SendView {
    Read { key: Seq<char> },
    Write { key: Seq<char>, value: usize },
    Cas { key: Seq<char>, from: usize, to: usize },
}

/// The content of a [`Receive`].
pub ghost enum ReceiveView {
    ReadOk { value: usize },
    WriteOk,
    CasOk,
    Error { code: Code, text: Seq<char> },
}

impl View for Send {
    type V = SendView;

    open spec fn view(&self) -> SendView {
        match self {
            Send::Read { key } => SendView::Read { key: key@ },
            Send::Write { key, value } => SendView::Write { key: key@, value: *value },
            Send::Cas { key, from, to } => SendView::Cas { key: key@, from: *from, to: *to },
        }
    }
}

impl View for Receive {
    type V = ReceiveView;

    open spec fn view(&self) -> ReceiveView {
        match self {
            Receive::ReadOk { value } => ReceiveView::ReadOk { value: *value },
            Receive::WriteOk => ReceiveView::WriteOk,
            Receive::CasOk => ReceiveView::CasOk,
            Receive::Error { code, text } => ReceiveView::Error { code: *code, text: text@ },
        }
    }
}

/// The store's error codes: the two that a client recovers from, and every
/// other code as a plain number.
#[derive(Debug, Clone, Copy, PartialEq, Eq)]
pub enum Code {
    KeyNotFound,
    CasFromMismatch,
    Unknown(u32),
}

/// The name under which the payloads carry a [`Code`].
pub type ErrorCode = Code;

/// The code that reports a key that was never written.
pub const KEY_NOT_FOUND: u32 = 20;

/// The code that reports a compare-and-swap whose expected value was stale.
pub const CAS_FROM_MISMATCH: u32 = 22;

impl Code {
    /// The class of the number `code`.
    pub open spec fn of(code: u32) -> Code {
        if code == KEY_NOT_FOUND {
            Code::KeyNotFound
        } else if code == CAS_FROM_MISMATCH {
            Code::CasFromMismatch
        } else {
            Code::Unknown(code)
        }
    }

    /// The number that the code is sent as.
    pub open spec fn number(self) -> u32 {
        match self {
            Code::KeyNotFound => KEY_NOT_FOUND,
            Code::CasFromMismatch => CAS_FROM_MISMATCH,
            Code::Unknown(unknown) => unknown,
        }
    }

    /// A code is canonical unless it hides one of the two known numbers in
    /// `Unknown`.
    pub open spec fn canonical(self) -> bool {
        self matches Code::Unknown(unknown) ==> unknown != KEY_NOT_FOUND && unknown
            != CAS_FROM_MISMATCH
    }
}

impl From<u32> for Code {
    fn from(code: u32) -> (class: Code) {
        if code == KEY_NOT_FOUND {
            Code::KeyNotFound
        } else if code == CAS_FROM_MISMATCH {
            Code::CasFromMismatch
        } else {
            Code::Unknown(code)
        }
    }
}

impl FromSpecImpl<u32> for Code {
    open spec fn obeys_from_spec() -> bool {
        true
    }

    open spec fn from_spec(code: u32) -> Code {
        Code::of(code)
    }
}

impl From<Code> for u32 {
    fn from(code: Code) -> (number: u32) {
        match code {
            Code::KeyNotFound => KEY_NOT_FOUND,
            Code::CasFromMismatch => CAS_FROM_MISMATCH,
            Code::Unknown(unknown) => unknown,
        }
    }
}

impl FromSpecImpl<Code> for u32 {
    open spec fn obeys_from_spec() -> bool {
        true
    }

    open spec fn from_spec(code: Code) -> u32 {
        code.number()
    }
}

/// Every number survives the way through its class and back, and every
/// canonical class survives the way through its number and back.
pub proof fn lemma_code_round_trip(number: u32, class: Code)
    ensures
        Code::of(number).number() == number,
        Code::of(number).canonical(),
        class.canonical() ==> Code::of(class.number()) == class,
{
}

} // verus!
