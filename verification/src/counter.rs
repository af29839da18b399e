//! The replicated counter: increments are buffered locally and folded into a
//! total that a compare-and-swap store keeps for all nodes.

use crate::counter::mismatch::{current_value, mismatch_value};
use crate::counter::payload::{CountReceive, CountSend, Raw, RawView, Receive, ReceiveRole};
use crate::services::key_value;
use crate::services::key_value::{Code, ReceiveView, SendView};
use crate::{nothing, one, outcome, reply_to, Body, Envelope, Init, Message, Node, NodeError};
use std::collections::VecDeque;
use vstd::prelude::*;
use vstd::std_specs::vecdeque::*;

pub mod laws;
pub mod mismatch;
pub mod payload;

verus! {

/// The time between two fold rounds, in milliseconds.
pub const CENTRAL_UPDATE_INTERVAL_MS: u64 = 1000;

/// The key under which the store keeps the total.
pub const KEY_COUNT: &'static str = "c";

/// A view of the stored total: its value, and the identifier of the request
/// whose reply established it.
#[derive(Debug, Clone, Copy, PartialEq, Eq)]
pub struct CentralSnapshot {
    pub counter: usize,
    pub msg_id: usize,
}

/// A fold attempt, or a confirmation: the view of the stored total that it
/// establishes, and how much of the local total that view already contains.
#[derive(Debug, Clone, Copy, PartialEq, Eq)]
pub struct Snapshot {
    pub local_count_to_subtract: usize,
    pub central: CentralSnapshot,
}

/// The internal events of the counter node.
#[derive(Debug, Clone, Copy, PartialEq, Eq)]
pub enum Event {
    /// The timer asks for a fold round.
    CentralSnapshot,
}

/// The state of a counter node.
pub struct Counter {
    msg_id: usize,
    node_id: String,
    local_counter: usize,
    central_snapshot: Option<CentralSnapshot>,
    chronological_updates: VecDeque<Snapshot>,
}

/// The content of a [`Counter`]: the next local identifier, the node's name,
/// the increments not yet folded, the last confirmed view of the stored
/// total, and the fold attempts in flight, oldest first.
#[verifier::ext_equal]
pub ghost struct CounterState {
    pub msg_id: usize,
    pub node_id: Seq<char>,
    pub local: usize,
    pub central: Option<CentralSnapshot>,
    pub pending: Seq<Snapshot>,
}

/// The attempts are in strictly ascending order of their identifiers.
pub open spec fn ascending(pending: Seq<Snapshot>) -> bool {
    forall|i: int, j: int|
        0 <= i < j < pending.len() ==> pending[i].central.msg_id < pending[j].central.msg_id
}

/// The test that holds of the attempts made after request `id`.
pub open spec fn later_than(id: usize) -> spec_fn(Snapshot) -> bool {
    |attempt: Snapshot| attempt.central.msg_id > id
}

/// The step of a node that does nothing but fail.
pub open spec fn fails(state: CounterState, error: NodeError) -> (CounterState, Result<
    Seq<Envelope<RawView>>,
    NodeError,
>) {
    (state, Err(error))
}

/// The step of a node that sends nothing.
pub open spec fn silent(state: CounterState) -> (CounterState, Result<
    Seq<Envelope<RawView>>,
    NodeError,
>) {
    (state, Ok(Seq::empty()))
}

impl CounterState {
    /// The invariant: the attempts in flight are in ascending order of their
    /// identifiers, and each identifier has been issued already.
    pub open spec fn wf(self) -> bool {
        &&& ascending(self.pending)
        &&& forall|i: int|
            0 <= i < self.pending.len() ==> (#[trigger] self.pending[i]).central.msg_id
                < self.msg_id
    }

    /// The last confirmed value of the stored total, zero before the first
    /// confirmation.
    pub open spec fn central_value(self) -> usize {
        match self.central {
            Some(central) => central.counter,
            None => 0,
        }
    }

    /// What a client reads: the confirmed value and the local increments.
    pub open spec fn total(self) -> int {
        self.central_value() + self.local
    }

    /// The attempt in flight that request `id` made, if there is one.
    pub open spec fn attempt(self, id: usize) -> Option<Snapshot> {
        if exists|i: int| 0 <= i < self.pending.len() && self.pending[i].central.msg_id == id {
            let i = choose|i: int|
                0 <= i < self.pending.len() && self.pending[i].central.msg_id == id;
            Some(self.pending[i])
        } else {
            None
        }
    }

    /// The state with `id` consumed as a local identifier.
    pub open spec fn issue(self) -> CounterState {
        CounterState { msg_id: (self.msg_id + 1) as usize, ..self }
    }

    /// The state after a client added `delta`.
    pub open spec fn add(self, delta: usize) -> CounterState {
        CounterState { local: (self.local + delta) as usize, ..self }
    }

    /// Whether a confirmation is taken as the new view of the stored total:
    /// always where it answers an attempt in flight, and otherwise only where
    /// it does not lower the value already confirmed.
    pub open spec fn adopts(self, snapshot: Snapshot) -> bool {
        ||| self.attempt(snapshot.central.msg_id) is Some
        ||| self.central is None
        ||| snapshot.central.counter >= self.central_value()
    }

    /// The state after the confirmation `snapshot`: the attempts made up to
    /// its request are dropped; where it is adopted, it becomes the view of
    /// the stored total, and what it already contains of the local
    /// increments leaves the local total.
    pub open spec fn apply(self, snapshot: Snapshot) -> CounterState {
        let kept = self.pending.filter(later_than(snapshot.central.msg_id));
        if self.adopts(snapshot) {
            CounterState {
                central: Some(snapshot.central),
                local: (self.local - snapshot.local_count_to_subtract) as usize,
                pending: kept,
                ..self
            }
        } else {
            CounterState { pending: kept, ..self }
        }
    }

    /// Whether a fold round has anything to fold: there are local increments,
    /// and the newest attempt in flight does not already stand for them.
    pub open spec fn folds(self) -> bool {
        &&& self.local != 0
        &&& !(self.pending.len() > 0 && self.pending.last().local_count_to_subtract
            == self.local)
    }

    /// The envelope that carries `request` to the store under the next local
    /// identifier.
    pub open spec fn request(self, request: SendView) -> Envelope<RawView> {
        Envelope {
            src: self.node_id,
            dest: key_value::NODE_ID@,
            msg_id: Some(self.msg_id),
            in_reply_to: None,
            payload: RawView::of_kv_send(request),
        }
    }

    /// The step that sends `request` to the store, unless the identifiers are
    /// used up.
    pub open spec fn ask(self, request: SendView) -> (CounterState, Result<
        Seq<Envelope<RawView>>,
        NodeError,
    >) {
        if self.msg_id == usize::MAX {
            fails(self, NodeError::MsgIdExhausted)
        } else {
            (self.issue(), Ok(seq![self.request(request)]))
        }
    }

    /// The fold round. With nothing to fold the node reads the stored total.
    /// Otherwise it asks the store to raise the total from the confirmed
    /// value by the local increments, and records the attempt as the newest
    /// one in flight.
    pub open spec fn on_event(self) -> (CounterState, Result<Seq<Envelope<RawView>>, NodeError>) {
        if !self.folds() {
            self.ask(SendView::Read { key: KEY_COUNT@ })
        } else if self.msg_id == usize::MAX {
            fails(self, NodeError::MsgIdExhausted)
        } else if self.total() > usize::MAX {
            fails(self, NodeError::CounterOverflow)
        } else {
            let from = self.central_value();
            let to = self.total() as usize;
            let attempt = Snapshot {
                local_count_to_subtract: self.local,
                central: CentralSnapshot { counter: to, msg_id: self.msg_id },
            };
            (
                CounterState { pending: self.pending.push(attempt), ..self.issue() },
                Ok(seq![self.request(SendView::Cas { key: KEY_COUNT@, from, to })]),
            )
        }
    }

    /// The confirmation of the attempt that request `id` made.
    pub open spec fn on_cas_ok(self, id: usize) -> (CounterState, Result<
        Seq<Envelope<RawView>>,
        NodeError,
    >) {
        match self.attempt(id) {
            None => fails(self, NodeError::UnknownAttempt { msg_id: id }),
            Some(attempt) => if attempt.local_count_to_subtract > self.local {
                fails(self, NodeError::FoldExceedsLocal { msg_id: id })
            } else {
                silent(self.apply(attempt))
            },
        }
    }

    /// The view of the stored total that a reply to request `id` reports
    /// without confirming an attempt.
    pub open spec fn reported(value: usize, id: usize) -> Snapshot {
        Snapshot {
            local_count_to_subtract: 0,
            central: CentralSnapshot { counter: value, msg_id: id },
        }
    }

    /// The store's reply `response` to request `id`.
    pub open spec fn on_store(self, response: ReceiveView, id: usize) -> (CounterState, Result<
        Seq<Envelope<RawView>>,
        NodeError,
    >) {
        match response {
            ReceiveView::ReadOk { value } => silent(self.apply(Self::reported(value, id))),
            ReceiveView::WriteOk => silent(self.apply(Self::reported(0, id))),
            ReceiveView::CasOk => self.on_cas_ok(id),
            ReceiveView::Error { code, text } => match code {
                Code::KeyNotFound => self.ask(SendView::Write { key: KEY_COUNT@, value: 0 }),
                Code::CasFromMismatch => match mismatch_value(text) {
                    Some(value) => silent(self.apply(Self::reported(value, id))),
                    None => self.ask(SendView::Read { key: KEY_COUNT@ }),
                },
                Code::Unknown(code) => fails(self, NodeError::UnknownStoreError { code }),
            },
        }
    }

    /// One inbound message. Every message that is looked at consumes one
    /// local identifier, which a reply to a client carries.
    pub open spec fn on_message(self, message: Envelope<RawView>) -> (CounterState, Result<
        Seq<Envelope<RawView>>,
        NodeError,
    >) {
        if self.msg_id == usize::MAX {
            fails(self, NodeError::MsgIdExhausted)
        } else {
            let id = Some(self.msg_id);
            let state = self.issue();
            match message.payload.received() {
                None => fails(state, NodeError::UnexpectedPayload),
                Some(ReceiveRole::Count(CountReceive::Add { delta })) => if state.local + delta
                    > usize::MAX {
                    fails(state, NodeError::CounterOverflow)
                } else {
                    (state.add(delta), Ok(seq![reply_to(message, id, RawView::AddOk)]))
                },
                Some(ReceiveRole::Count(CountReceive::Read)) => if state.total() > usize::MAX {
                    fails(state, NodeError::CounterOverflow)
                } else {
                    (
                        state,
                        Ok(
                            seq![
                                reply_to(
                                    message,
                                    id,
                                    RawView::ReadOk { value: state.total() as usize },
                                ),
                            ],
                        ),
                    )
                },
                Some(ReceiveRole::Kv(response)) => match message.in_reply_to {
                    None => fails(state, NodeError::MissingInReplyTo),
                    Some(request) => state.on_store(response, request),
                },
            }
        }
    }
}

/// Where every entry passes the test, the filter keeps the sequence.
proof fn lemma_filter_keeps_all(attempts: Seq<Snapshot>, id: usize)
    requires
        forall|i: int| 0 <= i < attempts.len() ==> (#[trigger] attempts[i]).central.msg_id > id,
    ensures
        attempts.filter(later_than(id)) == attempts,
    decreases attempts.len(),
{
    reveal(Seq::filter);
    if attempts.len() > 0 {
        lemma_filter_keeps_all(attempts.drop_last(), id);
        assert(attempts.drop_last().push(attempts.last()) =~= attempts);
    }
}

/// Where no entry passes the test, the filter keeps nothing.
proof fn lemma_filter_drops_all(attempts: Seq<Snapshot>, id: usize)
    requires
        forall|i: int| 0 <= i < attempts.len() ==> (#[trigger] attempts[i]).central.msg_id <= id,
    ensures
        attempts.filter(later_than(id)) == Seq::<Snapshot>::empty(),
    decreases attempts.len(),
{
    reveal(Seq::filter);
    if attempts.len() > 0 {
        lemma_filter_drops_all(attempts.drop_last(), id);
    }
}

/// In ascending attempts, the ones made after request `id` are what is left
/// behind the first `cut` entries, where those are the ones made up to `id`.
pub proof fn lemma_later_attempts_are_a_suffix(attempts: Seq<Snapshot>, id: usize, cut: int)
    requires
        0 <= cut <= attempts.len(),
        forall|i: int| 0 <= i < cut ==> (#[trigger] attempts[i]).central.msg_id <= id,
        forall|i: int|
            cut <= i < attempts.len() ==> (#[trigger] attempts[i]).central.msg_id > id,
    ensures
        attempts.filter(later_than(id)) == attempts.skip(cut),
{
    let head = attempts.take(cut);
    let tail = attempts.skip(cut);
    assert(head + tail =~= attempts);
    Seq::filter_distributes_over_add(head, tail, later_than(id));
    lemma_filter_drops_all(head, id);
    lemma_filter_keeps_all(tail, id);
    assert(Seq::<Snapshot>::empty() + tail =~= tail);
}

impl View for Counter {
    type V = CounterState;

    closed spec fn view(&self) -> CounterState {
        CounterState {
            msg_id: self.msg_id,
            node_id: self.node_id@,
            local: self.local_counter,
            central: self.central_snapshot,
            pending: self.chronological_updates@,
        }
    }
}

impl Counter {
    /// The increments that are not folded into the stored total yet.
    pub fn local_counter(&self) -> (local: usize)
        ensures
            local == self@.local,
    {
        self.local_counter
    }

    /// The last confirmed view of the stored total.
    pub fn central_snapshot(&self) -> (central: Option<CentralSnapshot>)
        ensures
            central == self@.central,
    {
        self.central_snapshot
    }

    /// The next local identifier.
    pub fn msg_id(&self) -> (id: usize)
        ensures
            id == self@.msg_id,
    {
        self.msg_id
    }

    /// The fold attempts in flight, oldest first.
    pub fn pending_attempts(&self) -> (pending: Vec<Snapshot>)
        ensures
            pending@ == self@.pending,
    {
        broadcast use group_vec_dequeue_axioms;

        let mut pending: Vec<Snapshot> = Vec::new();
        let n: usize = self.chronological_updates.len();
        let mut i: usize = 0;
        while i < n
            invariant
                n == self.chronological_updates@.len(),
                0 <= i <= n,
                pending@ == self.chronological_updates@.take(i as int),
            decreases n - i,
        {
            pending.push(self.chronological_updates[i]);
            assert(pending@ =~= self.chronological_updates@.take(i as int + 1));
            i = i + 1;
        }
        assert(pending@ =~= self.chronological_updates@);
        pending
    }

    /// The last confirmed value of the stored total, zero before the first
    /// confirmation.
    fn central_value(&self) -> (value: usize)
        ensures
            value == self@.central_value(),
    {
        match self.central_snapshot {
            Some(central) => central.counter,
            None => 0,
        }
    }

    /// Wraps `request` into an envelope to the store and consumes the local
    /// identifier that the envelope carries.
    fn kv_message(&mut self, request: key_value::Send) -> (message: Message<Raw>)
        requires
            old(self)@.msg_id < usize::MAX,
        ensures
            final(self)@ == old(self)@.issue(),
            message@ == old(self)@.request(request@),
    {
        let msg_id: usize = crate::next_msg_id(&mut self.msg_id);
        let payload: Raw = Raw::from(request);
        Message {
            src: self.node_id.clone(),
            dest: key_value::NODE_ID.to_owned(),
            body: Body { msg_id: Some(msg_id), in_reply_to: None, payload },
        }
    }

    /// Finds the attempt in flight that request `msg_id` made, by bisection.
    fn find_attempt(&self, msg_id: usize) -> (found: Option<Snapshot>)
        requires
            self@.wf(),
        ensures
            found == self@.attempt(msg_id),
    {
        broadcast use group_vec_dequeue_axioms;

        let mut lo: usize = 0;
        let mut hi: usize = self.chronological_updates.len();
        while lo < hi
            invariant
                0 <= lo <= hi <= self.chronological_updates@.len(),
                ascending(self.chronological_updates@),
                forall|i: int|
                    0 <= i < lo ==> (#[trigger] self.chronological_updates@[i]).central.msg_id
                        < msg_id,
                forall|i: int|
                    hi <= i < self.chronological_updates@.len() ==> (
                    #[trigger] self.chronological_updates@[i]).central.msg_id > msg_id,
            decreases hi - lo,
        {
            let mid: usize = lo + (hi - lo) / 2;
            let entry: Snapshot = self.chronological_updates[mid];
            if entry.central.msg_id == msg_id {
                assert(self@.pending[mid as int].central.msg_id == msg_id);
                return Some(entry);
            } else if entry.central.msg_id < msg_id {
                lo = mid + 1;
            } else {
                hi = mid;
            }
        }
        None
    }

    /// Applies a confirmation of the stored total: drops the attempts made up
    /// to its request and, where the confirmation is adopted, makes it the
    /// view of the stored total and takes what it already contains out of the
    /// local total.
    pub fn update_with_snapshot(&mut self, snapshot: Snapshot)
        requires
            old(self)@.wf(),
            old(self)@.adopts(snapshot) ==> snapshot.local_count_to_subtract <= old(self)@.local,
        ensures
            final(self)@.wf(),
            final(self)@ == old(self)@.apply(snapshot),
    {
        broadcast use group_vec_dequeue_axioms;

        let ghost before = self.chronological_updates@;
        let mut answered: bool = false;
        let ghost mut cut: int = 0;
        loop
            invariant
                0 <= cut <= before.len(),
                ascending(before),
                self.chronological_updates@ == before.skip(cut),
                forall|i: int|
                    0 <= i < cut ==> (#[trigger] before[i]).central.msg_id
                        <= snapshot.central.msg_id,
                answered <==> exists|i: int|
                    0 <= i < cut && before[i].central.msg_id == snapshot.central.msg_id,
                self.msg_id == old(self).msg_id,
                self.node_id == old(self).node_id,
                self.local_counter == old(self).local_counter,
                self.central_snapshot == old(self).central_snapshot,
            ensures
                0 <= cut <= before.len(),
                self.chronological_updates@ == before.skip(cut),
                forall|i: int|
                    0 <= i < cut ==> (#[trigger] before[i]).central.msg_id
                        <= snapshot.central.msg_id,
                forall|i: int|
                    cut <= i < before.len() ==> (#[trigger] before[i]).central.msg_id
                        > snapshot.central.msg_id,
                answered <==> exists|i: int|
                    0 <= i < cut && before[i].central.msg_id == snapshot.central.msg_id,
                self.msg_id == old(self).msg_id,
                self.node_id == old(self).node_id,
                self.local_counter == old(self).local_counter,
                self.central_snapshot == old(self).central_snapshot,
            decreases before.len() - cut,
        {
            if self.chronological_updates.len() == 0 {
                break ;
            }
            let front: Snapshot = self.chronological_updates[0];
            assert(front == before[cut]);
            if front.central.msg_id > snapshot.central.msg_id {
                break ;
            }
            if front.central.msg_id == snapshot.central.msg_id {
                answered = true;
            }
            let _ = self.chronological_updates.pop_front();
            proof {
                cut = cut + 1;
            }
            assert(self.chronological_updates@ =~= before.skip(cut));
        }
        proof {
            lemma_later_attempts_are_a_suffix(before, snapshot.central.msg_id, cut);
            assert(answered <==> old(self)@.attempt(snapshot.central.msg_id) is Some);
        }
        let adopted: bool = answered || match self.central_snapshot {
            None => true,
            Some(central) => snapshot.central.counter >= central.counter,
        };
        if adopted {
            self.central_snapshot = Some(snapshot.central);
            self.local_counter = self.local_counter - snapshot.local_count_to_subtract;
        }
        assert(self@ =~= old(self)@.apply(snapshot));
    }

    /// Applies the store's confirmation of the attempt that request `msg_id`
    /// made. A confirmation of no attempt in flight is an error, and so is
    /// one of an attempt that folded more than the local total holds; either
    /// leaves the state as it is.
    pub fn update_snapshot_cas_succeeded(&mut self, msg_id: usize) -> (result: Result<
        (),
        NodeError,
    >)
        requires
            old(self)@.wf(),
        ensures
            final(self)@.wf(),
            final(self)@ == old(self)@.on_cas_ok(msg_id).0,
            match result {
                Ok(()) => old(self)@.on_cas_ok(msg_id).1 is Ok,
                Err(error) => old(self)@.on_cas_ok(msg_id).1 == Err::<
                    Seq<Envelope<RawView>>,
                    NodeError,
                >(error),
            },
    {
        match self.find_attempt(msg_id) {
            None => Err(NodeError::UnknownAttempt { msg_id }),
            Some(update) => {
                if update.local_count_to_subtract > self.local_counter {
                    Err(NodeError::FoldExceedsLocal { msg_id })
                } else {
                    self.update_with_snapshot(update);
                    Ok(())
                }
            },
        }
    }
}

impl Counter {
    /// Handles the store's reply `response` to request `msg_id`.
    fn store_reply(&mut self, response: key_value::Receive, msg_id: usize) -> (result: Result<
        Vec<Message<Raw>>,
        NodeError,
    >)
        requires
            old(self)@.wf(),
        ensures
            final(self)@.wf(),
            (final(self)@, outcome(result)) == old(self)@.on_store(response@, msg_id),
    {
        match response {
            key_value::Receive::ReadOk { value } => {
                self.update_with_snapshot(
                    Snapshot {
                        local_count_to_subtract: 0,
                        central: CentralSnapshot { counter: value, msg_id },
                    },
                );
                Ok(nothing())
            },
            key_value::Receive::WriteOk => {
                self.update_with_snapshot(
                    Snapshot {
                        local_count_to_subtract: 0,
                        central: CentralSnapshot { counter: 0, msg_id },
                    },
                );
                Ok(nothing())
            },
            key_value::Receive::CasOk => match self.update_snapshot_cas_succeeded(msg_id) {
                Ok(()) => Ok(nothing()),
                Err(error) => Err(error),
            },
            key_value::Receive::Error { code, text } => match code {
                Code::KeyNotFound => self.ask(
                    key_value::Send::Write { key: KEY_COUNT.to_owned(), value: 0 },
                ),
                Code::CasFromMismatch => match current_value(text.as_str()) {
                    Some(counter) => {
                        self.update_with_snapshot(
                            Snapshot {
                                local_count_to_subtract: 0,
                                central: CentralSnapshot { counter, msg_id },
                            },
                        );
                        Ok(nothing())
                    },
                    None => self.ask(key_value::Send::Read { key: KEY_COUNT.to_owned() }),
                },
                Code::Unknown(code) => Err(NodeError::UnknownStoreError { code }),
            },
        }
    }

    /// Sends `request` to the store, unless the identifiers are used up.
    fn ask(&mut self, request: key_value::Send) -> (result: Result<Vec<Message<Raw>>, NodeError>)
        requires
            old(self)@.wf(),
        ensures
            final(self)@.wf(),
            (final(self)@, outcome(result)) == old(self)@.ask(request@),
    {
        if self.msg_id == usize::MAX {
            Err(NodeError::MsgIdExhausted)
        } else {
            Ok(one(self.kv_message(request)))
        }
    }
}

impl Node for Counter {
    type Payload = Raw;

    type Event = Event;

    type Start = ();

    open spec fn wf(&self) -> bool {
        self@.wf()
    }

    /// A new node has folded nothing, confirmed nothing and attempted nothing.
    open spec fn init_post(init: Init, msg_id: usize, start: (), node: Self) -> bool {
        node@ == (CounterState {
            msg_id,
            node_id: init.node_id@,
            local: 0,
            central: None,
            pending: Seq::empty(),
        })
    }

    open spec fn message_step(
        pre: Self,
        message: Message<Raw>,
        post: Self,
        result: Result<Vec<Message<Raw>>, NodeError>,
    ) -> bool {
        (post@, outcome(result)) == pre@.on_message(message@)
    }

    open spec fn event_step(
        pre: Self,
        event: Event,
        post: Self,
        result: Result<Vec<Message<Raw>>, NodeError>,
    ) -> bool {
        (post@, outcome(result)) == pre@.on_event()
    }

    /// The node asks for a fold round at a fixed interval.
    open spec fn ticks(&self) -> Option<(u64, Event)> {
        Some((CENTRAL_UPDATE_INTERVAL_MS, Event::CentralSnapshot))
    }

    fn timer(&self) -> (timer: Option<(u64, Event)>) {
        Some((CENTRAL_UPDATE_INTERVAL_MS, Event::CentralSnapshot))
    }

    fn from_init(init: Init, msg_id: usize, _start: ()) -> (node: Self) {
        Counter {
            msg_id,
            node_id: init.node_id,
            local_counter: 0,
            central_snapshot: None,
            chronological_updates: VecDeque::new(),
        }
    }

    fn step_message(&mut self, message: Message<Raw>) -> (result: Result<
        Vec<Message<Raw>>,
        NodeError,
    >) {
        if self.msg_id == usize::MAX {
            return Err(NodeError::MsgIdExhausted);
        }
        let ghost request = message@;
        let request_id: Option<usize> = message.body.in_reply_to;
        let reply = message.reply(Some(&mut self.msg_id));
        let Message { src, dest, body } = reply;
        let Body { msg_id: reply_id, in_reply_to, payload } = body;
        let receive_payload: Receive = match Receive::try_from(payload) {
            Ok(accepted) => accepted,
            Err(_) => {
                return Err(NodeError::UnexpectedPayload);
            },
        };
        match receive_payload {
            Receive::Count(count) => match count {
                CountReceive::Add { delta } => {
                    match self.local_counter.checked_add(delta) {
                        None => Err(NodeError::CounterOverflow),
                        Some(sum) => {
                            self.local_counter = sum;
                            let payload: Raw = Raw::from(CountSend::AddOk);
                            let answer = Message {
                                src,
                                dest,
                                body: Body { msg_id: reply_id, in_reply_to, payload },
                            };
                            assert(answer@ == reply_to(request, reply_id, RawView::AddOk));
                            Ok(one(answer))
                        },
                    }
                },
                CountReceive::Read => {
                    match self.local_counter.checked_add(self.central_value()) {
                        None => Err(NodeError::CounterOverflow),
                        Some(value) => {
                            let payload: Raw = Raw::from(CountSend::ReadOk { value });
                            let answer = Message {
                                src,
                                dest,
                                body: Body { msg_id: reply_id, in_reply_to, payload },
                            };
                            assert(answer@ == reply_to(
                                request,
                                reply_id,
                                RawView::ReadOk { value },
                            ));
                            Ok(one(answer))
                        },
                    }
                },
            },
            Receive::Kv(kv) => match request_id {
                None => Err(NodeError::MissingInReplyTo),
                Some(msg_id) => self.store_reply(kv, msg_id),
            },
        }
    }

    fn step_event(&mut self, event: Event) -> (result: Result<Vec<Message<Raw>>, NodeError>) {
        broadcast use group_vec_dequeue_axioms;

        let n: usize = self.chronological_updates.len();
        let no_change_since_last_send: bool = n > 0 && self.chronological_updates[n
            - 1].local_count_to_subtract == self.local_counter;
        if no_change_since_last_send || self.local_counter == 0 {
            return self.ask(key_value::Send::Read { key: KEY_COUNT.to_owned() });
        }
        if self.msg_id == usize::MAX {
            return Err(NodeError::MsgIdExhausted);
        }
        let counter_from: usize = self.central_value();
        let counter_to: usize = match counter_from.checked_add(self.local_counter) {
            Some(sum) => sum,
            None => {
                return Err(NodeError::CounterOverflow);
            },
        };
        let msg_id: usize = self.msg_id;
        let message = self.kv_message(
            key_value::Send::Cas { key: KEY_COUNT.to_owned(), from: counter_from, to: counter_to },
        );
        self.chronological_updates.push_back(
            Snapshot {
                local_count_to_subtract: self.local_counter,
                central: CentralSnapshot { counter: counter_to, msg_id },
            },
        );
        Ok(one(message))
    }
}

} // verus!
