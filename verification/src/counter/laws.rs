//! What holds of the counter node over every run: the order of the attempts
//! in flight, the total that clients read, and the recovery from the store's
//! errors.

use crate::counter::payload::RawView;
use crate::counter::{ascending, later_than, CounterState, Snapshot, KEY_COUNT};
use crate::services::key_value;
use crate::services::key_value::Code;
use crate::{Envelope, NodeError};
use vstd::prelude::*;

verus! {

/// One thing that happens to a counter node: a message arrives, or the timer
/// asks for a fold round.
pub ghost enum Input {
    Message(Envelope<RawView>),
    Fold,
}

impl Input {
    /// The inputs that involve no reply of the store: a client's `Add`, and
    /// the fold round.
    pub open spec fn is_local(self) -> bool {
        self matches Input::Message(message) ==> message.payload is Add
    }
}

impl CounterState {
    /// The state after one input.
    pub open spec fn next(self, input: Input) -> CounterState {
        match input {
            Input::Message(message) => self.on_message(message).0,
            Input::Fold => self.on_event().0,
        }
    }

    /// The state after a run of inputs, the first one first.
    pub open spec fn after(self, inputs: Seq<Input>) -> CounterState
        decreases inputs.len(),
    {
        if inputs.len() == 0 {
            self
        } else {
            self.after(inputs.drop_last()).next(inputs.last())
        }
    }
}

/// In ascending attempts, those made up to request `id` come first: the
/// result is how many they are.
pub proof fn lemma_attempts_split(pending: Seq<Snapshot>, id: usize) -> (cut: int)
    requires
        ascending(pending),
    ensures
        0 <= cut <= pending.len(),
        forall|i: int| 0 <= i < cut ==> (#[trigger] pending[i]).central.msg_id <= id,
        forall|i: int| cut <= i < pending.len() ==> (#[trigger] pending[i]).central.msg_id > id,
        pending.filter(later_than(id)) == pending.skip(cut),
    decreases pending.len(),
{
    let cut = if pending.len() == 0 {
        0
    } else if pending.last().central.msg_id <= id {
        pending.len() as int
    } else {
        let shorter = pending.drop_last();
        assert forall|i: int, j: int| 0 <= i < j < shorter.len() implies shorter[i].central.msg_id
            < shorter[j].central.msg_id by {
            assert(shorter[i] == pending[i] && shorter[j] == pending[j]);
        }
        let cut = lemma_attempts_split(shorter, id);
        assert forall|i: int| 0 <= i < cut implies (#[trigger] pending[i]).central.msg_id
            <= id by {
            assert(pending[i] == shorter[i]);
        }
        assert forall|i: int| cut <= i < pending.len() implies (#[trigger] pending[i]).central.msg_id
            > id by {
            if i < shorter.len() {
                assert(pending[i] == shorter[i]);
            }
        }
        cut
    };
    assert forall|i: int| 0 <= i < cut implies (#[trigger] pending[i]).central.msg_id <= id by {
        if 0 < pending.len() && pending.last().central.msg_id <= id && i < pending.len() - 1 {
            assert(pending[i].central.msg_id < pending[pending.len() - 1].central.msg_id);
        }
    }
    crate::counter::lemma_later_attempts_are_a_suffix(pending, id, cut);
    cut
}

/// Applying a confirmation keeps the attempts in flight in order.
pub proof fn lemma_apply_keeps_wf(state: CounterState, snapshot: Snapshot)
    requires
        state.wf(),
    ensures
        state.apply(snapshot).wf(),
{
    let cut = lemma_attempts_split(state.pending, snapshot.central.msg_id);
    let kept = state.pending.skip(cut);
    assert forall|i: int, j: int| 0 <= i < j < kept.len() implies kept[i].central.msg_id
        < kept[j].central.msg_id by {
        assert(kept[i] == state.pending[cut + i]);
        assert(kept[j] == state.pending[cut + j]);
    }
    assert forall|i: int| 0 <= i < kept.len() implies (#[trigger] kept[i]).central.msg_id
        < state.msg_id by {
        assert(kept[i] == state.pending[cut + i]);
    }
}

/// The attempts in flight stay in ascending order of their identifiers
/// through every input, whatever it is and whether it is refused or not.
pub proof fn lemma_step_keeps_wf(state: CounterState, input: Input)
    requires
        state.wf(),
    ensures
        state.next(input).wf(),
{
    match input {
        Input::Fold => {},
        Input::Message(message) => {
            if state.msg_id < usize::MAX {
                let issued = state.issue();
                assert(issued.wf());
                if let Some(id) = message.in_reply_to {
                    assert forall|snapshot: Snapshot| #[trigger] issued.apply(snapshot).wf() by {
                        lemma_apply_keeps_wf(issued, snapshot);
                    }
                }
            }
        },
    }
}

/// The attempts in flight are in ascending order of their identifiers after
/// every run of inputs.
pub proof fn lemma_run_keeps_wf(state: CounterState, inputs: Seq<Input>)
    requires
        state.wf(),
    ensures
        state.after(inputs).wf(),
        ascending(state.after(inputs).pending),
    decreases inputs.len(),
{
    if inputs.len() > 0 {
        lemma_run_keeps_wf(state, inputs.drop_last());
        lemma_step_keeps_wf(state.after(inputs.drop_last()), inputs.last());
    }
}

/// A client's `Add` and a fold round never lower what a client reads: an
/// `Add` that is accepted raises it by its amount, a fold round leaves it as
/// it is.
pub proof fn lemma_local_step_never_lowers_total(state: CounterState, input: Input)
    requires
        input.is_local(),
    ensures
        state.next(input).total() >= state.total(),
        state.next(input).local >= 0,
        input is Fold ==> state.next(input).total() == state.total(),
        input matches Input::Message(message) ==> match state.on_message(message).1 {
            Ok(_) => message.payload matches RawView::Add { delta } && state.next(input).total()
                == state.total() + delta,
            Err(_) => state.next(input).total() == state.total(),
        },
{
}

/// Over every interleaving of `Add` requests and fold rounds, what a client
/// reads never falls, and the local total is never negative.
pub proof fn lemma_total_never_falls(state: CounterState, inputs: Seq<Input>)
    requires
        forall|i: int| 0 <= i < inputs.len() ==> (#[trigger] inputs[i]).is_local(),
    ensures
        state.after(inputs).total() >= state.total(),
        state.after(inputs).local >= 0,
        forall|n: int|
            0 <= n <= inputs.len() ==> (#[trigger] state.after(inputs.take(n))).total()
                <= state.after(inputs).total(),
    decreases inputs.len(),
{
    if inputs.len() > 0 {
        let shorter = inputs.drop_last();
        lemma_total_never_falls(state, shorter);
        lemma_local_step_never_lowers_total(state.after(shorter), inputs.last());
        assert forall|n: int| 0 <= n <= inputs.len() implies (#[trigger] state.after(
            inputs.take(n),
        )).total() <= state.after(inputs).total() by {
            if n == inputs.len() {
                assert(inputs.take(n) =~= inputs);
            } else {
                assert(inputs.take(n) =~= shorter.take(n));
            }
        }
    } else {
        assert forall|n: int| 0 <= n <= inputs.len() implies (#[trigger] state.after(
            inputs.take(n),
        )).total() <= state.after(inputs).total() by {
            assert(inputs.take(n) =~= inputs);
        }
    }
}

/// A reply that answers no attempt in flight never lowers the confirmed
/// value of the stored total.
pub proof fn lemma_stale_reply_never_lowers_confirmed(state: CounterState, snapshot: Snapshot)
    requires
        state.attempt(snapshot.central.msg_id) is None,
    ensures
        state.apply(snapshot).central_value() >= state.central_value(),
        snapshot.local_count_to_subtract == 0 ==> state.apply(snapshot).total() >= state.total(),
{
}

/// A `CasOk` that refers to no attempt in flight is refused, and refused as
/// an unknown attempt.
pub proof fn lemma_unknown_cas_ok_is_refused(
    state: CounterState,
    message: Envelope<RawView>,
    id: usize,
)
    requires
        state.msg_id < usize::MAX,
        message.payload is CasOk,
        message.in_reply_to == Some(id),
        forall|i: int|
            0 <= i < state.pending.len() ==> (#[trigger] state.pending[i]).central.msg_id != id,
    ensures
        state.on_message(message).1 == Err::<Seq<Envelope<RawView>>, NodeError>(
            NodeError::UnknownAttempt { msg_id: id },
        ),
        state.on_message(message).0.pending == state.pending,
{
}

/// The store's report that the key was never written makes the node send
/// exactly one message, the `Write` of zero under the counter's key, and
/// leaves the attempts in flight, the local total and the confirmed view as
/// they were.
pub proof fn lemma_key_not_found_sends_one_write(
    state: CounterState,
    message: Envelope<RawView>,
    text: Seq<char>,
    id: usize,
)
    requires
        state.msg_id + 1 < usize::MAX,
        message.payload == (RawView::Error { code: Code::of(key_value::KEY_NOT_FOUND), text }),
        message.in_reply_to == Some(id),
    ensures
        state.on_message(message).1 == Ok::<Seq<Envelope<RawView>>, NodeError>(
            seq![
                Envelope {
                    src: state.node_id,
                    dest: key_value::NODE_ID@,
                    msg_id: Some((state.msg_id + 1) as usize),
                    in_reply_to: None,
                    payload: RawView::Write { key: KEY_COUNT@, value: 0 },
                },
            ],
        ),
        state.on_message(message).0 == (CounterState {
            msg_id: (state.msg_id + 2) as usize,
            ..state
        }),
        state.wf() ==> state.on_message(message).0.wf() && forall|i: int|
            0 <= i < state.pending.len() ==> (#[trigger] state.pending[i]).central.msg_id
                < state.msg_id + 1,
{
}

/// An `Add` within the machine's range is answered. While the identifiers
/// last, the local total rises by the amount, the confirmed view and the
/// attempts in flight stay as they are, and exactly one message is sent: the
/// `AddOk` to the sender, under the identifier that the request consumed.
pub proof fn lemma_add_is_answered(state: CounterState, message: Envelope<RawView>, delta: usize)
    requires
        state.msg_id < usize::MAX,
        message.payload == (RawView::Add { delta }),
        state.local + delta <= usize::MAX,
    ensures
        state.on_message(message).1 == Ok::<Seq<Envelope<RawView>>, NodeError>(
            seq![
                Envelope {
                    src: message.dest,
                    dest: message.src,
                    msg_id: Some(state.msg_id),
                    in_reply_to: message.msg_id,
                    payload: RawView::AddOk,
                },
            ],
        ),
        state.on_message(message).0 == (CounterState {
            msg_id: (state.msg_id + 1) as usize,
            local: (state.local + delta) as usize,
            ..state
        }),
{
}

impl CounterState {
    /// Whether `message` is a reply of the store to the request that made
    /// one of the attempts in flight.
    pub open spec fn answers_attempt(self, message: Envelope<RawView>) -> bool {
        &&& message.payload.received() matches Some(crate::counter::payload::ReceiveRole::Kv(_))
        &&& message.in_reply_to matches Some(id)
        &&& self.attempt(id) is Some
    }
}

/// A message that is accepted and answers no attempt in flight never lowers
/// what a client reads: not a client's request, not a report of the stored
/// total that no attempt asked for, not an error of the store.
pub proof fn lemma_accepted_message_never_lowers_total(
    state: CounterState,
    message: Envelope<RawView>,
)
    requires
        !state.answers_attempt(message),
        state.on_message(message).1 is Ok,
    ensures
        state.on_message(message).0.total() >= state.total(),
        state.on_message(message).0.local >= 0,
        state.on_message(message).0.central_value() >= state.central_value(),
{
    if state.msg_id < usize::MAX {
        let issued = state.issue();
        if message.in_reply_to is Some && state.attempt(message.in_reply_to.unwrap()) is None {
            let id = message.in_reply_to.unwrap();
            assert(issued.attempt(id) == state.attempt(id));
            assert forall|snapshot: Snapshot|
                snapshot.central.msg_id == id && snapshot.local_count_to_subtract
                    == 0 implies #[trigger] issued.apply(snapshot).total() >= issued.total()
                && issued.apply(snapshot).central_value() >= issued.central_value() by {
                lemma_stale_reply_never_lowers_confirmed(issued, snapshot);
            }
        }
    }
}

} // verus!
