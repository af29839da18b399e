//! What holds of the broadcast node over every run: what it knows only
//! grows, what it believes of a peer comes from that peer alone, a gossip
//! message repeats no more than its cap, and one delivered message of gossip
//! brings the receiver level with the sender.

use crate::gossip::{BroadcastState, PayloadView, PeerView};
use crate::Envelope;
use vstd::prelude::*;

verus! {

/// One thing that happens to a broadcast node: a message arrives, or the
/// timer asks for a gossip round.
pub ghost enum Input {
    Message(Envelope<PayloadView>),
    Round,
}

impl Input {
    /// The values that the input carries to the node: the value of a
    /// `Broadcast`, the values of a `Gossip`.
    pub open spec fn carried(self) -> Set<usize> {
        match self {
            Input::Message(message) => match message.payload {
                PayloadView::Broadcast { message: value } => set![value],
                PayloadView::Gossip { messages } => messages,
                _ => Set::empty(),
            },
            Input::Round => Set::empty(),
        }
    }

    /// The values that the input carries as gossip from the node called `id`.
    pub open spec fn gossiped_by(self, id: Seq<char>) -> Set<usize> {
        match self {
            Input::Message(message) => match message.payload {
                PayloadView::Gossip { messages } => if message.src == id {
                    messages
                } else {
                    Set::empty()
                },
                _ => Set::empty(),
            },
            Input::Round => Set::empty(),
        }
    }
}

/// All values that a run of inputs carries to the node.
pub open spec fn carried(inputs: Seq<Input>) -> Set<usize>
    decreases inputs.len(),
{
    if inputs.len() == 0 {
        Set::empty()
    } else {
        carried(inputs.drop_last()).union(inputs.last().carried())
    }
}

/// All values that a run of inputs carries as gossip from the node called
/// `id`.
pub open spec fn gossiped_by(inputs: Seq<Input>, id: Seq<char>) -> Set<usize>
    decreases inputs.len(),
{
    if inputs.len() == 0 {
        Set::empty()
    } else {
        gossiped_by(inputs.drop_last(), id).union(inputs.last().gossiped_by(id))
    }
}

impl BroadcastState {
    /// The state after one input. A gossip round changes nothing.
    pub open spec fn next(self, input: Input) -> BroadcastState {
        match input {
            Input::Message(message) => self.on_message(message).0,
            Input::Round => self,
        }
    }

    /// The state after a run of inputs, the first one first.
    pub open spec fn after(self, inputs: Seq<Input>) -> BroadcastState
        decreases inputs.len(),
    {
        if inputs.len() == 0 {
            self
        } else {
            self.after(inputs.drop_last()).next(inputs.last())
        }
    }
}

/// Through one input the peers stay who they are, the node forgets nothing
/// and learns only what the input carries, and what it believes a peer to
/// know grows only by what that peer itself gossips. This holds whether the
/// input is refused or not; where a message is accepted, the node knows
/// afterwards exactly what it knew and what the message carried.
pub proof fn lemma_step(state: BroadcastState, input: Input)
    requires
        state.wf(),
        input.carried().finite(),
    ensures
        state.next(input).wf(),
        state.next(input).peers.len() == state.peers.len(),
        state.next(input).node_id == state.node_id,
        state.next(input).params == state.params,
        state.known.subset_of(state.next(input).known),
        state.next(input).known.subset_of(state.known.union(input.carried())),
        input matches Input::Message(message) && state.on_message(message).1 is Ok
            ==> state.next(input).known == state.known.union(input.carried()),
        forall|p: int|
            #![trigger state.next(input).peers[p]]
            0 <= p < state.peers.len() ==> {
                &&& state.next(input).peers[p].id == state.peers[p].id
                &&& state.peers[p].knows.subset_of(state.next(input).peers[p].knows)
                &&& state.next(input).peers[p].knows.subset_of(
                    state.peers[p].knows.union(input.gossiped_by(state.peers[p].id)),
                )
            },
{
    if let Input::Message(message) = input {
        if state.on_message(message).1 is Ok {
            assert(state.next(input).known =~= state.known.union(input.carried()));
        }
        if state.msg_id < usize::MAX {
            if let PayloadView::Gossip { messages } = message.payload {
                let learned = state.issue().learn(messages);
                if let Some(q) = learned.peer(message.src) {
                    let heard = learned.hear(q, messages);
                    assert(heard == state.next(input));
                    assert forall|p: int, r: int| 0 <= p < r < heard.peers.len() implies heard.peers[p].id
                        != heard.peers[r].id by {
                        assert(state.peers[p].id != state.peers[r].id);
                    }
                    assert forall|p: int| 0 <= p < heard.peers.len() implies (
                    #[trigger] heard.peers[p]).knows.subset_of(heard.known) by {
                        assert(state.peers[p].knows.subset_of(state.known));
                    }
                    assert forall|p: int|
                        #![trigger heard.peers[p]]
                        0 <= p < state.peers.len() implies heard.peers[p].knows.subset_of(
                        state.peers[p].knows.union(input.gossiped_by(state.peers[p].id)),
                    ) by {
                        if p != q {
                            assert(heard.peers[p] == state.peers[p]);
                        }
                    }
                } else {
                    assert forall|p: int| 0 <= p < learned.peers.len() implies (
                    #[trigger] learned.peers[p]).knows.subset_of(learned.known) by {
                        assert(state.peers[p].knows.subset_of(state.known));
                    }
                }
            } else if let PayloadView::Broadcast { message: value } = message.payload {
                let learned = state.issue().learn(set![value]);
                assert forall|p: int| 0 <= p < learned.peers.len() implies (
                #[trigger] learned.peers[p]).knows.subset_of(learned.known) by {
                    assert(state.peers[p].knows.subset_of(state.known));
                }
            }
        }
    }
}

/// Over every run of inputs the node forgets nothing and knows in the end
/// exactly what it knew and what the inputs carried to it, as long as its
/// identifiers last; and what it believes a peer to know is never more than
/// what it believed before and what that peer itself gossiped.
pub proof fn lemma_run(state: BroadcastState, inputs: Seq<Input>)
    requires
        state.wf(),
        forall|i: int| 0 <= i < inputs.len() ==> (#[trigger] inputs[i]).carried().finite(),
    ensures
        state.after(inputs).wf(),
        state.after(inputs).peers.len() == state.peers.len(),
        state.known.subset_of(state.after(inputs).known),
        state.after(inputs).known.subset_of(state.known.union(carried(inputs))),
        forall|p: int|
            #![trigger state.after(inputs).peers[p]]
            0 <= p < state.peers.len() ==> {
                &&& state.after(inputs).peers[p].id == state.peers[p].id
                &&& state.peers[p].knows.subset_of(state.after(inputs).peers[p].knows)
                &&& state.after(inputs).peers[p].knows.subset_of(
                    state.peers[p].knows.union(gossiped_by(inputs, state.peers[p].id)),
                )
            },
    decreases inputs.len(),
{
    if inputs.len() > 0 {
        let shorter = inputs.drop_last();
        let middle = state.after(shorter);
        lemma_run(state, shorter);
        lemma_step(middle, inputs.last());
        assert forall|p: int|
            #![trigger state.after(inputs).peers[p]]
            0 <= p < state.peers.len() implies {
            &&& state.after(inputs).peers[p].id == state.peers[p].id
            &&& state.peers[p].knows.subset_of(state.after(inputs).peers[p].knows)
            &&& state.after(inputs).peers[p].knows.subset_of(
                state.peers[p].knows.union(gossiped_by(inputs, state.peers[p].id)),
            )
        } by {
            assert(middle.peers[p].id == state.peers[p].id);
            assert(middle.next(inputs.last()).peers[p].knows.subset_of(
                middle.peers[p].knows.union(inputs.last().gossiped_by(middle.peers[p].id)),
            ));
        }
    }
}

/// A node that the handshake has just built believes of a peer, after any
/// run, only values that this peer itself gossiped to it.
pub proof fn lemma_peer_knowledge_comes_from_the_peer(
    node_id: Seq<char>,
    ids: Seq<Seq<char>>,
    msg_id: usize,
    params: crate::gossip::Params,
    inputs: Seq<Input>,
    p: int,
)
    requires
        forall|i: int| 0 <= i < inputs.len() ==> (#[trigger] inputs[i]).carried().finite(),
        0 <= p < BroadcastState::initial(node_id, ids, msg_id, params).peers.len(),
    ensures
        ({
            let start = BroadcastState::initial(node_id, ids, msg_id, params);
            &&& start.wf()
            &&& start.after(inputs).peers[p].id == start.peers[p].id
            &&& start.after(inputs).peers[p].knows.subset_of(
                gossiped_by(inputs, start.peers[p].id),
            )
            &&& start.after(inputs).known.subset_of(carried(inputs))
        }),
{
    let start = BroadcastState::initial(node_id, ids, msg_id, params);
    crate::gossip::lemma_distinct(ids);
    assert forall|a: int, b: int| 0 <= a < b < start.peers.len() implies start.peers[a].id
        != start.peers[b].id by {
        assert(crate::gossip::distinct(ids)[a] != crate::gossip::distinct(ids)[b]);
    }
    lemma_run(start, inputs);
}

/// With the share and the floor of the presets, a message of gossip holds,
/// beyond the values that the peer lacks, at most a tenth of their number
/// and ten.
pub proof fn lemma_gossip_within_preset_cap(
    state: BroadcastState,
    p: int,
    envelope: Envelope<PayloadView>,
)
    requires
        state.params.additional_cap_percent == 10,
        state.params.additional_cap_floor == 10,
        state.is_gossip_to(p, envelope),
    ensures
        envelope.payload matches PayloadView::Gossip { messages } && messages.difference(
            state.lacking(p),
        ).len() <= state.lacking(p).len() / 10 + 10,
{
    crate::gossip::lemma_preset_cap(state.lacking(p).len());
}

/// Every message of a gossip round is the node's gossip to one of its peers.
pub proof fn lemma_round_is_gossip(
    state: BroadcastState,
    upto: int,
    out: Seq<Envelope<PayloadView>>,
    k: int,
) -> (p: int)
    requires
        state.is_round(upto, out),
        0 <= k < out.len(),
    ensures
        0 <= p < upto,
        state.is_gossip_to(p, out[k]),
    decreases upto,
{
    if out.len() > 0 && state.is_gossip_to(upto - 1, out.last()) && state.is_round(
        upto - 1,
        out.drop_last(),
    ) {
        if k == out.len() - 1 {
            upto - 1
        } else {
            lemma_round_is_gossip(state, upto - 1, out.drop_last(), k)
        }
    } else {
        lemma_round_is_gossip(state, upto - 1, out, k)
    }
}

/// A gossip round leaves out no peer that lacks a value: for each such peer
/// among the first `upto`, some message of the round is the gossip to it.
pub proof fn lemma_round_reaches_every_lacking_peer(
    state: BroadcastState,
    upto: int,
    out: Seq<Envelope<PayloadView>>,
    p: int,
) -> (k: int)
    requires
        state.is_round(upto, out),
        0 <= p < upto,
        !state.lacking(p).is_empty(),
    ensures
        0 <= k < out.len(),
        state.is_gossip_to(p, out[k]),
    decreases upto,
{
    if out.len() > 0 && state.is_gossip_to(upto - 1, out.last()) && state.is_round(
        upto - 1,
        out.drop_last(),
    ) {
        if p == upto - 1 {
            out.len() - 1
        } else {
            lemma_round_reaches_every_lacking_peer(state, upto - 1, out.drop_last(), p)
        }
    } else {
        lemma_round_reaches_every_lacking_peer(state, upto - 1, out, p)
    }
}

/// One delivered message of gossip brings the receiver level with the
/// sender. Where the sender's belief about the receiver holds only values
/// that the receiver knows, the receiver knows after the message exactly
/// what the two of them knew before.
pub proof fn lemma_delivery_levels(
    receiver: BroadcastState,
    sender: BroadcastState,
    p: int,
    envelope: Envelope<PayloadView>,
)
    requires
        sender.wf(),
        receiver.wf(),
        receiver.msg_id < usize::MAX,
        0 <= p < sender.peers.len(),
        sender.is_gossip_to(p, envelope),
        sender.peers[p].knows.subset_of(receiver.known),
    ensures
        receiver.on_message(envelope).0.known == sender.known.union(receiver.known),
{
    let after = receiver.on_message(envelope).0;
    assert(after.known =~= sender.known.union(receiver.known));
}

/// All that the nodes of `senders` know, taken together.
pub open spec fn known_together(senders: Seq<BroadcastState>) -> Set<usize>
    decreases senders.len(),
{
    if senders.len() == 0 {
        Set::empty()
    } else {
        known_together(senders.drop_last()).union(senders.last().known)
    }
}

/// The arrival of the messages `envelopes`, one after the other.
pub open spec fn deliveries(envelopes: Seq<Envelope<PayloadView>>) -> Seq<Input> {
    Seq::new(envelopes.len(), |k: int| Input::Message(envelopes[k]))
}

/// As long as the identifiers last, each message that arrives consumes one.
pub proof fn lemma_deliveries_consume_identifiers(
    receiver: BroadcastState,
    envelopes: Seq<Envelope<PayloadView>>,
)
    requires
        receiver.msg_id + envelopes.len() <= usize::MAX,
    ensures
        receiver.after(deliveries(envelopes)).msg_id == receiver.msg_id + envelopes.len(),
    decreases envelopes.len(),
{
    if envelopes.len() > 0 {
        lemma_deliveries_consume_identifiers(receiver, envelopes.drop_last());
        assert(deliveries(envelopes).drop_last() =~= deliveries(envelopes.drop_last()));
    }
}

/// Gossip brings a node level with all who gossip to it. Let every node of
/// `senders` believe of the receiver only what the receiver knows, and let
/// one message of gossip from each of them arrive, in any order: the
/// receiver then knows exactly what it and all of them knew. A sender whose
/// round passed the receiver over lacks nothing that the receiver knows not,
/// so the same holds with that sender left out.
pub proof fn lemma_deliveries_level(
    receiver: BroadcastState,
    senders: Seq<BroadcastState>,
    places: Seq<int>,
    envelopes: Seq<Envelope<PayloadView>>,
)
    requires
        receiver.wf(),
        receiver.msg_id + envelopes.len() <= usize::MAX,
        senders.len() == envelopes.len(),
        places.len() == envelopes.len(),
        forall|k: int|
            #![trigger senders[k]]
            0 <= k < senders.len() ==> {
                &&& senders[k].wf()
                &&& 0 <= places[k] < senders[k].peers.len()
                &&& senders[k].is_gossip_to(places[k], envelopes[k])
                &&& senders[k].peers[places[k]].knows.subset_of(receiver.known)
            },
    ensures
        receiver.after(deliveries(envelopes)).wf(),
        receiver.after(deliveries(envelopes)).known == receiver.known.union(
            known_together(senders),
        ),
    decreases envelopes.len(),
{
    if envelopes.len() == 0 {
        assert(receiver.known.union(known_together(senders)) =~= receiver.known);
    } else {
        let n = envelopes.len() - 1;
        let shorter = envelopes.drop_last();
        assert(deliveries(envelopes).drop_last() =~= deliveries(shorter));
        assert(deliveries(envelopes).last() == Input::Message(envelopes[n]));
        assert forall|k: int| #![trigger senders.drop_last()[k]] 0 <= k < n implies {
            &&& senders.drop_last()[k].wf()
            &&& 0 <= places.drop_last()[k] < senders.drop_last()[k].peers.len()
            &&& senders.drop_last()[k].is_gossip_to(places.drop_last()[k], shorter[k])
            &&& senders.drop_last()[k].peers[places.drop_last()[k]].knows.subset_of(
                receiver.known,
            )
        } by {
            assert(senders.drop_last()[k] == senders[k]);
        }
        lemma_deliveries_level(receiver, senders.drop_last(), places.drop_last(), shorter);
        lemma_deliveries_consume_identifiers(receiver, shorter);
        let middle = receiver.after(deliveries(shorter));
        let sender = senders[n];
        assert(sender == senders.last());
        assert(sender.peers[places[n]].knows.subset_of(middle.known));
        lemma_delivery_levels(middle, sender, places[n], envelopes[n]);
        lemma_step(middle, Input::Message(envelopes[n]));
        assert(receiver.after(deliveries(envelopes)).known =~= receiver.known.union(
            known_together(senders),
        ));
    }
}

/// A peer that a gossip round passes over holds no news for it: the node
/// believes the peer to know all that the node knows. Where that belief
/// holds only what the peer knows, the peer knows all of it indeed.
pub proof fn lemma_passed_over_peer_knows_all(
    sender: BroadcastState,
    receiver: BroadcastState,
    p: int,
)
    requires
        sender.wf(),
        0 <= p < sender.peers.len(),
        sender.lacking(p).is_empty(),
        sender.peers[p].knows.subset_of(receiver.known),
    ensures
        sender.known.subset_of(receiver.known),
{
    assert forall|v: usize| sender.known.contains(v) implies receiver.known.contains(v) by {
        if !sender.peers[p].knows.contains(v) {
            assert(sender.lacking(p).contains(v));
        }
    }
}

/// Gossip arrives. Let a node send its gossip to a peer of which it
/// believes only what that peer knows. Whatever happens to the peer before
/// the message reaches it and whatever happens after, from the arrival on
/// the peer knows all that the sender knew when it sent the message, and
/// never more than what it knew itself and what its inputs carried.
pub proof fn lemma_gossip_arrives(
    sender: BroadcastState,
    receiver: BroadcastState,
    p: int,
    envelope: Envelope<PayloadView>,
    before: Seq<Input>,
    later: Seq<Input>,
)
    requires
        sender.wf(),
        receiver.wf(),
        0 <= p < sender.peers.len(),
        sender.is_gossip_to(p, envelope),
        sender.peers[p].knows.subset_of(receiver.known),
        forall|i: int| 0 <= i < before.len() ==> (#[trigger] before[i]).carried().finite(),
        forall|i: int| 0 <= i < later.len() ==> (#[trigger] later[i]).carried().finite(),
        receiver.after(before).msg_id < usize::MAX,
    ensures
        ({
            let run = (before + seq![Input::Message(envelope)]) + later;
            &&& sender.known.subset_of(receiver.after(run).known)
            &&& receiver.after(run).known.subset_of(receiver.known.union(carried(run)))
        }),
{
    let arrival = Input::Message(envelope);
    let run = (before + seq![arrival]) + later;
    let met = receiver.after(before);
    lemma_run(receiver, before);
    lemma_step(met, arrival);
    assert((before + seq![arrival]).drop_last() =~= before);
    assert(receiver.after(before + seq![arrival]) == met.next(arrival));
    assert(sender.known.subset_of(met.next(arrival).known)) by {
        assert forall|v: usize| sender.known.contains(v) implies met.next(arrival).known.contains(
            v,
        ) by {
            if sender.peers[p].knows.contains(v) {
                assert(receiver.known.contains(v));
                assert(met.known.contains(v));
            } else {
                assert(sender.lacking(p).contains(v));
            }
        }
    }
    lemma_after_joins(receiver, before + seq![arrival], later);
    lemma_run(met.next(arrival), later);
    assert forall|i: int| 0 <= i < run.len() implies (#[trigger] run[i]).carried().finite() by {
        if i < before.len() {
            assert(run[i] == before[i]);
        } else if i == before.len() {
            assert(run[i] == arrival);
        } else {
            assert(run[i] == later[i - before.len() - 1]);
        }
    }
    lemma_run(receiver, run);
}

/// A run in two parts ends where the second part ends when it starts
/// where the first part ended.
pub proof fn lemma_after_joins(state: BroadcastState, first: Seq<Input>, second: Seq<Input>)
    ensures
        state.after(first + second) == state.after(first).after(second),
    decreases second.len(),
{
    if second.len() == 0 {
        assert(first + second =~= first);
    } else {
        lemma_after_joins(state, first, second.drop_last());
        assert((first + second).drop_last() =~= first + second.drop_last());
        assert((first + second).last() == second.last());
    }
}

/// What a node believes of a peer stays true of the peer. Let `truth` hold
/// all that a peer knows, and let the node believe of the peer only values
/// of `truth`. When gossip of the peer arrives that holds only values of
/// `truth`, as all that the peer ever sends does, the node still believes
/// of it only values of `truth`.
pub proof fn lemma_belief_stays_sound(
    receiver: BroadcastState,
    q: int,
    envelope: Envelope<PayloadView>,
    truth: Set<usize>,
)
    requires
        receiver.wf(),
        0 <= q < receiver.peers.len(),
        receiver.peers[q].knows.subset_of(truth),
        envelope.payload matches PayloadView::Gossip { messages } && messages.finite() && (
        envelope.src == receiver.peers[q].id ==> messages.subset_of(truth)),
    ensures
        receiver.on_message(envelope).0.peers.len() == receiver.peers.len(),
        receiver.on_message(envelope).0.peers[q].id == receiver.peers[q].id,
        receiver.on_message(envelope).0.peers[q].knows.subset_of(truth),
{
    let input = Input::Message(envelope);
    lemma_step(receiver, input);
    assert(receiver.next(input).peers[q].knows.subset_of(
        receiver.peers[q].knows.union(input.gossiped_by(receiver.peers[q].id)),
    ));
}

/// No two peers share a name, so a name finds its peer.
pub proof fn lemma_name_finds_its_peer(state: BroadcastState, p: int)
    requires
        state.wf(),
        0 <= p < state.peers.len(),
    ensures
        state.peer(state.peers[p].id) == Some(p),
{
    let q = state.peer(state.peers[p].id).unwrap();
    assert(0 <= q < state.peers.len() && state.peers[q].id == state.peers[p].id);
    if q < p {
        assert(state.peers[q].id != state.peers[p].id);
    } else if p < q {
        assert(state.peers[p].id != state.peers[q].id);
    }
}

/// Gossip of a peer is taken in. While the identifiers last, gossip from a
/// node that is among the peers is accepted and answered with nothing; the
/// node then knows what it knew and the values of the gossip, believes the
/// same of the sender, and believes of every other peer what it believed
/// before.
pub proof fn lemma_gossip_of_a_peer_is_taken_in(
    state: BroadcastState,
    message: Envelope<PayloadView>,
    values: Set<usize>,
    p: int,
)
    requires
        state.wf(),
        state.msg_id < usize::MAX,
        message.payload == (PayloadView::Gossip { messages: values }),
        0 <= p < state.peers.len(),
        state.peers[p].id == message.src,
    ensures
        state.on_message(message).1 == Ok::<Seq<Envelope<PayloadView>>, crate::NodeError>(
            Seq::empty(),
        ),
        state.on_message(message).0.msg_id == state.msg_id + 1,
        state.on_message(message).0.known == state.known.union(values),
        state.on_message(message).0.peers == state.peers.update(
            p,
            PeerView { id: state.peers[p].id, knows: state.peers[p].knows.union(values) },
        ),
{
    let learned = state.issue().learn(values);
    assert forall|a: int, b: int| 0 <= a < b < learned.peers.len() implies learned.peers[a].id
        != learned.peers[b].id by {
        assert(state.peers[a].id != state.peers[b].id);
    }
    let q = learned.peer(message.src).unwrap();
    assert(learned.peers[p].id == message.src);
    assert(0 <= q < learned.peers.len() && learned.peers[q].id == message.src);
    if q < p {
        assert(learned.peers[q].id != learned.peers[p].id);
    } else if p < q {
        assert(learned.peers[p].id != learned.peers[q].id);
    }
}

/// A message changes at most one belief. The names of the peers never
/// change. Accepted gossip from one of the peers adds its values to what
/// the node believes of that peer; every other belief, and every belief
/// through any other message, accepted or refused, stays as it was.
pub proof fn lemma_message_changes_one_belief(
    state: BroadcastState,
    message: Envelope<PayloadView>,
)
    requires
        state.wf(),
    ensures
        state.on_message(message).0.peer_knowledge().dom() == state.peer_knowledge().dom(),
        state.on_message(message).0.peer_knowledge() == if state.on_message(message).1 is Ok
            && message.payload is Gossip {
            state.peer_knowledge().insert(
                message.src,
                state.peer_knowledge()[message.src].union(message.payload->Gossip_messages),
            )
        } else {
            state.peer_knowledge()
        },
        state.on_message(message).1 is Ok && message.payload is Gossip
            ==> state.peer_knowledge().dom().contains(message.src),
{
    let after = state.on_message(message).0;
    let before_map = state.peer_knowledge();
    if state.msg_id < usize::MAX && message.payload is Gossip && state.on_message(message).1 is Ok {
        let values = message.payload->Gossip_messages;
        let learned = state.issue().learn(values);
        let p = learned.peer(message.src).unwrap();
        assert(0 <= p < state.peers.len() && state.peers[p].id == message.src);
        lemma_gossip_of_a_peer_is_taken_in(state, message, values, p);
        lemma_name_finds_its_peer(state, p);
        let target = before_map.insert(message.src, before_map[message.src].union(values));
        assert forall|a: int, b: int| 0 <= a < b < after.peers.len() implies after.peers[a].id
            != after.peers[b].id by {
            assert(state.peers[a].id != state.peers[b].id);
        }
        assert forall|id: Seq<char>| after.peer(id) == state.peer(id) by {
            lemma_same_names_same_places(state, after, id);
        }
        assert(after.peer_knowledge() =~= target) by {
            assert forall|id: Seq<char>| #[trigger]
                after.peer_knowledge().dom().contains(id) implies after.peer_knowledge()[id]
                == target[id] by {
                let q = state.peer(id).unwrap();
                assert(0 <= q < state.peers.len() && state.peers[q].id == id);
            }
        }
        assert(after.peer_knowledge().dom() =~= before_map.dom());
    } else {
        assert(after.peers =~= state.peers);
        assert forall|id: Seq<char>| after.peer(id) == state.peer(id) by {
            lemma_same_names_same_places(state, after, id);
        }
        assert(after.peer_knowledge() =~= before_map);
    }
}

/// Two states whose peers bear the same names in the same order find each
/// name at the same place.
pub proof fn lemma_same_names_same_places(a: BroadcastState, b: BroadcastState, id: Seq<char>)
    requires
        a.wf(),
        a.peers.len() == b.peers.len(),
        forall|p: int| 0 <= p < a.peers.len() ==> (#[trigger] b.peers[p]).id == a.peers[p].id,
    ensures
        a.peer(id) == b.peer(id),
{
    if exists|p: int| 0 <= p < a.peers.len() && a.peers[p].id == id {
        let p = a.peer(id).unwrap();
        assert(b.peers[p].id == id);
        let q = b.peer(id).unwrap();
        assert(0 <= q < b.peers.len() && b.peers[q].id == id);
        assert(a.peers[q].id == b.peers[q].id);
        if q < p {
            assert(a.peers[q].id != a.peers[p].id);
        } else if p < q {
            assert(a.peers[p].id != a.peers[q].id);
        }
    } else {
        if exists|q: int| 0 <= q < b.peers.len() && b.peers[q].id == id {
            let q = b.peer(id).unwrap();
            assert(a.peers[q].id == b.peers[q].id);
        }
    }
}

/// A gossip round sends no peer two messages.
pub proof fn lemma_round_sends_at_most_one_to_each(
    state: BroadcastState,
    upto: int,
    out: Seq<Envelope<PayloadView>>,
    j: int,
    k: int,
)
    requires
        state.wf(),
        upto <= state.peers.len(),
        state.is_round(upto, out),
        0 <= j < k < out.len(),
    ensures
        out[j].dest != out[k].dest,
    decreases upto,
{
    if out.len() > 0 && state.is_gossip_to(upto - 1, out.last()) && state.is_round(
        upto - 1,
        out.drop_last(),
    ) {
        if k == out.len() - 1 {
            let p = lemma_round_is_gossip(state, upto - 1, out.drop_last(), j);
            assert(out.drop_last()[j] == out[j]);
            assert(state.peers[p].id != state.peers[upto - 1].id);
        } else {
            lemma_round_sends_at_most_one_to_each(state, upto - 1, out.drop_last(), j, k);
        }
    } else {
        lemma_round_sends_at_most_one_to_each(state, upto - 1, out, j, k);
    }
}

/// With the share and the floor of the presets, every message of a gossip
/// round goes to one of the peers and holds, beyond the values that this
/// peer lacks, at most a tenth of their number and ten.
pub proof fn lemma_round_within_preset_cap(
    state: BroadcastState,
    out: Seq<Envelope<PayloadView>>,
    k: int,
) -> (p: int)
    requires
        state.params.additional_cap_percent == 10,
        state.params.additional_cap_floor == 10,
        state.is_round(state.peers.len() as int, out),
        0 <= k < out.len(),
    ensures
        0 <= p < state.peers.len(),
        out[k].dest == state.peers[p].id,
        state.lacking(p).subset_of(out[k].payload->Gossip_messages),
        out[k].payload matches PayloadView::Gossip { messages } && messages.difference(
            state.lacking(p),
        ).len() <= state.lacking(p).len() / 10 + 10,
{
    let p = lemma_round_is_gossip(state, state.peers.len() as int, out, k);
    lemma_gossip_within_preset_cap(state, p, out[k]);
    p
}

} // verus!
