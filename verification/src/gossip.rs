//! The broadcast service: every node collects the values it has seen and
//! gossips to each peer what that peer may not know yet.

use crate::{nothing, one, outcome, reply_to, sent, Body, Envelope, Init, Message, Node, NodeError};
use rand::rngs::ThreadRng;
use rand::Rng;
use std::collections::{HashMap, HashSet};
use vstd::prelude::*;
use vstd::std_specs::hash::*;
use vstd::std_specs::iter::IteratorSpec;

pub mod laws;

verus! {

/// The thread-local random number generator of the `rand` crate. Nothing of
/// its state is visible here.
#[verifier::external_type_specification]
#[verifier::external_body]
pub struct ExThreadRng(ThreadRng);

/// `rand::thread_rng` hands out the calling thread's generator. Nothing is
/// claimed of it.
pub assume_specification[ rand::thread_rng ]() -> (rng: ThreadRng)
;

/// Calls `Rng::gen_ratio` on the thread's generator: a draw that is true
/// with probability `numerator / denominator`. The method panics where the
/// denominator is zero or below the numerator, so these are left out. Of the
/// draw itself only its two certain cases are claimed, as the crate
/// documents them: equal numbers always give `true`, a zero numerator always
/// gives `false`.
#[verifier::external_body]
fn gen_ratio(rng: &mut ThreadRng, numerator: u32, denominator: u32) -> (hit: bool)
    requires
        0 < denominator,
        numerator <= denominator,
    ensures
        numerator == denominator ==> hit,
        numerator == 0 ==> !hit,
{
    rng.gen_ratio(numerator, denominator)
}

/// The tuning of the gossip: the time between two rounds, and how many
/// values that a peer is already known to have may ride along in one message,
/// as a share of the values the peer lacks and as a least allowance.
#[derive(Debug, Clone, Copy, PartialEq, Eq)]
pub struct Params {
    /// The time between two gossip rounds, in milliseconds.
    pub gossip_interval_ms: u64,
    /// The share of the number of lacking values, in hundredths.
    pub additional_cap_percent: u32,
    /// The allowance that holds however few values are lacking.
    pub additional_cap_floor: u32,
}

/// The most values already known to a peer that one message may repeat, when
/// the peer lacks `lacking` values: the given share of `lacking`, rounded
/// down and held to the range of the machine's 32-bit numbers, but never less
/// than the floor.
pub open spec fn cap_of(percent: u32, floor: u32, lacking: nat) -> nat {
    let share = lacking * percent / 100;
    let held = if share > u32::MAX {
        u32::MAX as nat
    } else {
        share as nat
    };
    if held > floor {
        held
    } else {
        floor as nat
    }
}

/// The argument that selects the preset with short intervals.
pub const MODE_LOW_LATENCY: &'static str = "--low-latency";

/// The argument that selects the preset with long intervals.
pub const MODE_LOW_BANDWIDTH: &'static str = "--low-bandwidth";

/// Why the program's arguments select no preset.
#[derive(Debug, Clone, PartialEq, Eq)]
pub enum ModeError {
    /// The first argument names no preset.
    UnknownArgument { argument: String },
    /// There is more than one argument.
    ExtraArgument { argument: String },
}

impl Params {
    /// The preset that is used when no other is asked for.
    pub fn default_mode() -> (params: Params)
        ensures
            params == (Params {
                gossip_interval_ms: 530,
                additional_cap_percent: 10,
                additional_cap_floor: 10,
            }),
    {
        Params { gossip_interval_ms: 530, additional_cap_percent: 10, additional_cap_floor: 10 }
    }

    /// The preset that gossips more often.
    pub fn low_latency() -> (params: Params)
        ensures
            params == (Params {
                gossip_interval_ms: 400,
                additional_cap_percent: 10,
                additional_cap_floor: 10,
            }),
    {
        Params { gossip_interval_ms: 400, additional_cap_percent: 10, additional_cap_floor: 10 }
    }

    /// The preset that gossips less often.
    pub fn low_bandwidth() -> (params: Params)
        ensures
            params == (Params {
                gossip_interval_ms: 1500,
                additional_cap_percent: 10,
                additional_cap_floor: 10,
            }),
    {
        Params { gossip_interval_ms: 1500, additional_cap_percent: 10, additional_cap_floor: 10 }
    }

    /// The preset that the arguments select, the program's own name not among
    /// them.
    pub open spec fn selected(args: Seq<Seq<char>>) -> Option<Params> {
        if args.len() == 0 {
            Some(
                Params {
                    gossip_interval_ms: 530,
                    additional_cap_percent: 10,
                    additional_cap_floor: 10,
                },
            )
        } else if args.len() == 1 && args[0] == MODE_LOW_BANDWIDTH@ {
            Some(
                Params {
                    gossip_interval_ms: 1500,
                    additional_cap_percent: 10,
                    additional_cap_floor: 10,
                },
            )
        } else if args.len() == 1 && args[0] == MODE_LOW_LATENCY@ {
            Some(
                Params {
                    gossip_interval_ms: 400,
                    additional_cap_percent: 10,
                    additional_cap_floor: 10,
                },
            )
        } else {
            None
        }
    }

    /// Selects the preset from the program's arguments, the program's own name
    /// not among them: none selects the default, one names a preset. An
    /// argument that names none is refused, and so is a second argument
    /// behind one that names a preset.
    pub fn from_args(args: &Vec<String>) -> (mode: Result<Params, ModeError>)
        ensures
            match mode {
                Ok(params) => Self::selected(Seq::new(args@.len(), |i: int| args@[i]@)) == Some(
                    params,
                ),
                Err(ModeError::UnknownArgument { argument }) => {
                    &&& args@.len() >= 1
                    &&& argument@ == args@[0]@
                    &&& args@[0]@ != MODE_LOW_BANDWIDTH@
                    &&& args@[0]@ != MODE_LOW_LATENCY@
                },
                Err(ModeError::ExtraArgument { argument }) => {
                    &&& args@.len() >= 2
                    &&& argument@ == args@[1]@
                    &&& (args@[0]@ == MODE_LOW_BANDWIDTH@ || args@[0]@ == MODE_LOW_LATENCY@)
                },
            },
    {
        if args.len() == 0 {
            return Ok(Self::default_mode());
        }
        let low_bandwidth: String = MODE_LOW_BANDWIDTH.to_owned();
        let low_latency: String = MODE_LOW_LATENCY.to_owned();
        let params = if args[0] == low_bandwidth {
            Self::low_bandwidth()
        } else if args[0] == low_latency {
            Self::low_latency()
        } else {
            return Err(ModeError::UnknownArgument { argument: args[0].clone() });
        };
        if args.len() > 1 {
            return Err(ModeError::ExtraArgument { argument: args[1].clone() });
        }
        Ok(params)
    }

    /// The most values already known to a peer that one message may repeat,
    /// when the peer lacks `notify_of_len` values.
    pub fn calculate_cap(self, notify_of_len: usize) -> (cap: u32)
        ensures
            cap == cap_of(
                self.additional_cap_percent,
                self.additional_cap_floor,
                notify_of_len as nat,
            ),
    {
        assert((notify_of_len as u128) * (self.additional_cap_percent as u128)
            <= 0xffff_ffff_ffff_ffff * 0xffff_ffff) by (nonlinear_arith)
            requires
                notify_of_len <= 0xffff_ffff_ffff_ffff,
                self.additional_cap_percent <= 0xffff_ffff,
        ;
        let share: u128 = (notify_of_len as u128) * (self.additional_cap_percent as u128) / 100;
        let held: u32 = if share > u32::MAX as u128 {
            u32::MAX
        } else {
            share as u32
        };
        if held > self.additional_cap_floor {
            held
        } else {
            self.additional_cap_floor
        }
    }
}

/// With the share and the floor of the presets, a message repeats at most a
/// tenth of the number of lacking values, but may always repeat ten, and so
/// never more than a tenth of that number and ten.
pub proof fn lemma_preset_cap(lacking: nat)
    ensures
        cap_of(10, 10, lacking) <= lacking / 10 + 10,
        cap_of(10, 10, lacking) >= 10,
        lacking / 10 <= u32::MAX ==> cap_of(10, 10, lacking) == if lacking / 10 > 10 {
            lacking / 10
        } else {
            10
        },
{
    assert(lacking * 10 / 100 == lacking / 10) by (nonlinear_arith);
}

/// The elements of `set`, each once, in the order in which the set hands
/// them out.
pub fn elements(set: &HashSet<usize>) -> (list: Vec<usize>)
    ensures
        list@.no_duplicates(),
        list@.to_set() == set@,
{
    broadcast use group_hash_axioms;

    let mut list: Vec<usize> = Vec::new();
    for value in it: set.iter()
        invariant
            list@ == it.seq().take(it.index()).unref(),
            it.seq() == set.iter().remaining(),
            it.index() == it.seq().len() ==> list@.no_duplicates() && list@.to_set() == set@,
    {
        let ghost before = list@;
        list.push(*value);
        assert(it.seq().take(it.index() + 1).unref() =~= before.push(*value));
        assert(it.index() + 1 == it.seq().len() ==> list@.no_duplicates() && list@.to_set()
            == set@) by {
            assert(it.index() + 1 == it.seq().len() ==> it.seq().take(it.index() + 1)
                =~= it.seq());
            assert forall|i: int, j: int|
                it.index() + 1 == it.seq().len() && 0 <= i < j < list@.len() implies list@[i]
                != list@[j] by {
                assert(it.seq()[i] != it.seq()[j]);
            }
        }
    }
    list
}

/// The values that a node knows and a peer is not known to know.
pub open spec fn lacking(known: Set<usize>, peer_knows: Set<usize>) -> Set<usize> {
    known.difference(peer_knows)
}

/// What makes `payload` a message of gossip to a peer: it holds every value
/// that the peer lacks, only values that the node knows, and beyond the
/// lacking ones at most `cap` values.
pub open spec fn is_gossip(
    known: Set<usize>,
    peer_knows: Set<usize>,
    cap: nat,
    payload: Set<usize>,
) -> bool {
    &&& lacking(known, peer_knows).subset_of(payload)
    &&& payload.subset_of(known)
    &&& payload.finite()
    &&& payload.difference(lacking(known, peer_knows)).len() <= cap
}

/// Of the values `already_known` to a peer, those that ride along: the ones
/// whose draw came out true, in their order, as long as fewer than `cap` have
/// been taken. A value without a draw is not taken.
pub open spec fn reaffirmed(already_known: Seq<usize>, draws: Seq<bool>, cap: nat) -> Seq<usize>
    decreases already_known.len(),
{
    if already_known.len() == 0 {
        Seq::empty()
    } else {
        let last = already_known.len() - 1;
        let earlier = reaffirmed(already_known.drop_last(), draws, cap);
        if last < draws.len() && draws[last] && earlier.len() < cap {
            earlier.push(already_known[last])
        } else {
            earlier
        }
    }
}

/// The values that ride along are some of the values already known, each at
/// most once, and at most `cap` of them.
pub proof fn lemma_reaffirmed_is_capped(already_known: Seq<usize>, draws: Seq<bool>, cap: nat)
    requires
        already_known.no_duplicates(),
    ensures
        reaffirmed(already_known, draws, cap).len() <= cap,
        reaffirmed(already_known, draws, cap).len() <= already_known.len(),
        reaffirmed(already_known, draws, cap).no_duplicates(),
        reaffirmed(already_known, draws, cap).to_set().subset_of(already_known.to_set()),
    decreases already_known.len(),
{
    if already_known.len() > 0 {
        let shorter = already_known.drop_last();
        lemma_reaffirmed_is_capped(shorter, draws, cap);
        let earlier = reaffirmed(shorter, draws, cap);
        assert forall|i: int| 0 <= i < earlier.len() implies earlier[i]
            != already_known.last() by {
            assert(earlier.to_set().contains(earlier[i]));
            assert(shorter.to_set().contains(earlier[i]));
            let j = choose|j: int| 0 <= j < shorter.len() && shorter[j] == earlier[i];
            assert(already_known[j] == earlier[i]);
        }
        assert forall|v: usize| #[trigger]
            reaffirmed(already_known, draws, cap).to_set().contains(
                v,
            ) implies already_known.to_set().contains(v) by {
            let taken = reaffirmed(already_known, draws, cap);
            let i = choose|i: int| 0 <= i < taken.len() && taken[i] == v;
            if i < earlier.len() {
                assert(earlier.to_set().contains(earlier[i]));
                assert(shorter.to_set().contains(v));
                let j = choose|j: int| 0 <= j < shorter.len() && shorter[j] == v;
                assert(already_known[j] == v);
            } else {
                assert(already_known[already_known.len() - 1] == v);
            }
        }
    }
}

/// Sorts what the node knows by whether the peer is known to know it.
pub fn partition(known: &HashSet<usize>, peer_knows: &HashSet<usize>) -> (parts: (
    Vec<usize>,
    Vec<usize>,
))
    ensures
        parts.0@.no_duplicates(),
        parts.1@.no_duplicates(),
        parts.0@.to_set() == known@.intersect(peer_knows@),
        parts.1@.to_set() == lacking(known@, peer_knows@),
{
    broadcast use group_hash_axioms;

    let all: Vec<usize> = elements(known);
    let mut already_known: Vec<usize> = Vec::new();
    let mut notify_of: Vec<usize> = Vec::new();
    let mut i: usize = 0;
    while i < all.len()
        invariant
            0 <= i <= all@.len(),
            all@.no_duplicates(),
            already_known@.no_duplicates(),
            notify_of@.no_duplicates(),
            forall|v: usize| #[trigger]
                already_known@.contains(v) <==> all@.take(i as int).contains(v)
                    && peer_knows@.contains(v),
            forall|v: usize| #[trigger]
                notify_of@.contains(v) <==> all@.take(i as int).contains(v)
                    && !peer_knows@.contains(v),
        decreases all@.len() - i,
    {
        let value: usize = all[i];
        let ghost seen = all@.take(i as int);
        assert(all@.take(i as int + 1) =~= seen.push(value));
        assert(!seen.contains(value)) by {
            if seen.contains(value) {
                let j = choose|j: int| 0 <= j < seen.len() && seen[j] == value;
                assert(all@[j] == all@[i as int]);
            }
        }
        if peer_knows.contains(&value) {
            let ghost before = already_known@;
            already_known.push(value);
            assert forall|v: usize| #[trigger]
                already_known@.contains(v) <==> seen.push(value).contains(v)
                    && peer_knows@.contains(v) by {
                lemma_push_contains(before, value, v);
                lemma_push_contains(seen, value, v);
            }
            assert forall|v: usize| #[trigger]
                notify_of@.contains(v) <==> seen.push(value).contains(v) && !peer_knows@.contains(
                    v,
                ) by {
                lemma_push_contains(seen, value, v);
            }
            proof {
                assert(!before.contains(value));
                lemma_push_keeps_distinct(before, value);
            }
        } else {
            let ghost before = notify_of@;
            notify_of.push(value);
            assert forall|v: usize| #[trigger]
                notify_of@.contains(v) <==> seen.push(value).contains(v) && !peer_knows@.contains(
                    v,
                ) by {
                lemma_push_contains(before, value, v);
                lemma_push_contains(seen, value, v);
            }
            assert forall|v: usize| #[trigger]
                already_known@.contains(v) <==> seen.push(value).contains(v)
                    && peer_knows@.contains(v) by {
                lemma_push_contains(seen, value, v);
            }
            proof {
                assert(!before.contains(value));
                lemma_push_keeps_distinct(before, value);
            }
        }
        i = i + 1;
    }
    assert(all@.take(i as int) =~= all@);
    assert(already_known@.to_set() =~= known@.intersect(peer_knows@)) by {
        assert forall|v: usize|
            already_known@.to_set().contains(v) <==> known@.intersect(peer_knows@).contains(
                v,
            ) by {
            assert(all@.to_set().contains(v) <==> all@.contains(v));
        }
    }
    assert(notify_of@.to_set() =~= lacking(known@, peer_knows@)) by {
        assert forall|v: usize|
            notify_of@.to_set().contains(v) <==> lacking(known@, peer_knows@).contains(v) by {
            assert(all@.to_set().contains(v) <==> all@.contains(v));
        }
    }
    (already_known, notify_of)
}

/// A sequence with `value` pushed holds what it held, and `value`.
pub proof fn lemma_push_contains(list: Seq<usize>, value: usize, v: usize)
    ensures
        list.push(value).contains(v) <==> list.contains(v) || v == value,
{
    if list.contains(v) {
        let j = choose|j: int| 0 <= j < list.len() && list[j] == v;
        assert(list.push(value)[j] == v);
    }
    if v == value {
        assert(list.push(value)[list.len() as int] == v);
    }
}

/// A sequence without repeats stays so when a value that it lacks is pushed.
pub proof fn lemma_push_keeps_distinct(list: Seq<usize>, value: usize)
    requires
        list.no_duplicates(),
        !list.contains(value),
    ensures
        list.push(value).no_duplicates(),
{
    assert forall|i: int, j: int|
        0 <= i < list.push(value).len() && 0 <= j < list.push(value).len() && i
            != j implies list.push(value)[i] != list.push(value)[j] by {
        if i < list.len() && j < list.len() {
        } else if i < list.len() {
            assert(list.contains(list[i]));
        } else {
            assert(list.contains(list[j]));
        }
    }
}

/// Picks, from the values `already_known` to a peer, those that ride along
/// in a message, by the draws made for them.
pub fn reaffirm(already_known: &Vec<usize>, draws: &Vec<bool>, cap: u32) -> (taken: Vec<usize>)
    ensures
        taken@ == reaffirmed(already_known@, draws@, cap as nat),
{
    let mut taken: Vec<usize> = Vec::new();
    let mut i: usize = 0;
    while i < already_known.len()
        invariant
            0 <= i <= already_known@.len(),
            taken@ == reaffirmed(already_known@.take(i as int), draws@, cap as nat),
            taken@.len() <= i,
        decreases already_known@.len() - i,
    {
        assert(already_known@.take(i as int + 1).drop_last() =~= already_known@.take(i as int));
        if i < draws.len() && draws[i] && taken.len() < cap as usize {
            taken.push(already_known[i]);
        }
        i = i + 1;
    }
    assert(already_known@.take(i as int) =~= already_known@);
    taken
}

/// The chance with which each of `count` values already known to a peer is
/// drawn to ride along, as a ratio: the cap out of `count`, so that on
/// average the cap is met, and certainty where the cap is no less than
/// `count`.
pub fn chance(cap: u32, count: u32) -> (chance: (u32, u32))
    ensures
        chance.0 == if cap < count {
            cap
        } else {
            count
        },
        chance.1 == count,
{
    if cap < count {
        (cap, count)
    } else {
        (count, count)
    }
}

/// Makes one draw for each of `count` values, each true with probability
/// `numerator / denominator`.
fn draw(rng: &mut ThreadRng, numerator: u32, denominator: u32, count: u32) -> (draws: Vec<bool>)
    requires
        0 < denominator,
        numerator <= denominator,
    ensures
        draws@.len() == count,
        numerator == denominator ==> forall|i: int| 0 <= i < count ==> draws@[i],
        numerator == 0 ==> forall|i: int| 0 <= i < count ==> !draws@[i],
{
    let mut draws: Vec<bool> = Vec::new();
    let mut i: u32 = 0;
    while i < count
        invariant
            0 <= i <= count,
            0 < denominator,
            numerator <= denominator,
            draws@.len() == i,
            numerator == denominator ==> forall|j: int| 0 <= j < i ==> draws@[j],
            numerator == 0 ==> forall|j: int| 0 <= j < i ==> !draws@[j],
        decreases count - i,
    {
        let hit: bool = gen_ratio(rng, numerator, denominator);
        draws.push(hit);
        i = i + 1;
    }
    draws
}

/// The message for a peer: every value that the peer lacks, and the values
/// that ride along by the draws.
pub open spec fn composed(
    notify_of: Seq<usize>,
    already_known: Seq<usize>,
    draws: Seq<bool>,
    cap: nat,
) -> Set<usize> {
    notify_of.to_set().union(reaffirmed(already_known, draws, cap).to_set())
}

/// Puts the message for a peer together from the values that the peer lacks
/// and the values it is known to have, given the draws made for the latter.
pub fn compose(
    notify_of: &Vec<usize>,
    already_known: &Vec<usize>,
    draws: &Vec<bool>,
    cap: u32,
) -> (payload: HashSet<usize>)
    ensures
        payload@ == composed(notify_of@, already_known@, draws@, cap as nat),
{
    let taken: Vec<usize> = reaffirm(already_known, draws, cap);
    let mut payload: HashSet<usize> = HashSet::new();
    extend(&mut payload, notify_of);
    extend(&mut payload, &taken);
    assert(payload@ =~= composed(notify_of@, already_known@, draws@, cap as nat));
    payload
}

/// Adds every value of `values` to `set`.
pub fn extend(set: &mut HashSet<usize>, values: &Vec<usize>)
    ensures
        final(set)@ == old(set)@.union(values@.to_set()),
{
    broadcast use group_hash_axioms;

    let mut i: usize = 0;
    while i < values.len()
        invariant
            0 <= i <= values@.len(),
            set@ == old(set)@.union(values@.take(i as int).to_set()),
        decreases values@.len() - i,
    {
        let ghost before = set@;
        set.insert(values[i]);
        assert(values@.take(i as int + 1) =~= values@.take(i as int).push(values@[i as int]));
        assert(set@ =~= old(set)@.union(values@.take(i as int + 1).to_set())) by {
            assert forall|v: usize|
                set@.contains(v) <==> old(set)@.union(
                    values@.take(i as int + 1).to_set(),
                ).contains(v) by {
                lemma_push_contains(values@.take(i as int), values@[i as int], v);
                assert(values@.take(i as int + 1).to_set().contains(v) <==> values@.take(
                    i as int + 1,
                ).contains(v));
                assert(values@.take(i as int).to_set().contains(v) <==> values@.take(
                    i as int,
                ).contains(v));
            }
        }
        i = i + 1;
    }
    assert(values@.take(i as int) =~= values@);
}

/// A message put together for a peer is a message of gossip to it.
pub proof fn lemma_composed_is_gossip(
    known: Set<usize>,
    peer_knows: Set<usize>,
    notify_of: Seq<usize>,
    already_known: Seq<usize>,
    draws: Seq<bool>,
    cap: nat,
)
    requires
        already_known.no_duplicates(),
        already_known.to_set() == known.intersect(peer_knows),
        notify_of.to_set() == lacking(known, peer_knows),
    ensures
        is_gossip(known, peer_knows, cap, composed(notify_of, already_known, draws, cap)),
{
    let taken = reaffirmed(already_known, draws, cap);
    let payload = composed(notify_of, already_known, draws, cap);
    lemma_reaffirmed_is_capped(already_known, draws, cap);
    vstd::seq_lib::seq_to_set_is_finite(notify_of);
    vstd::seq_lib::seq_to_set_is_finite(taken);
    taken.unique_seq_to_set();
    assert(payload.difference(lacking(known, peer_knows)).subset_of(taken.to_set()));
    vstd::set_lib::lemma_len_subset(
        payload.difference(lacking(known, peer_knows)),
        taken.to_set(),
    );
}

/// The payloads of the broadcast service.
#[derive(Debug, PartialEq, Eq)]
pub enum Payload {
    Broadcast { message: usize },
    BroadcastOk,
    Read,
    ReadOk { messages: HashSet<usize> },
    Topology { topology: HashMap<String, Vec<String>> },
    TopologyOk,
    Gossip { messages: HashSet<usize> },
}

/// The content of a [`Payload`].
pub ghost enum PayloadView {
    Broadcast { message: usize },
    BroadcastOk,
    Read,
    ReadOk { messages: Set<usize> },
    Topology { topology: Map<String, Vec<String>> },
    TopologyOk,
    Gossip { messages: Set<usize> },
}

impl View for Payload {
    type V = PayloadView;

    open spec fn view(&self) -> PayloadView {
        match self {
            Payload::Broadcast { message } => PayloadView::Broadcast { message: *message },
            Payload::BroadcastOk => PayloadView::BroadcastOk,
            Payload::Read => PayloadView::Read,
            Payload::ReadOk { messages } => PayloadView::ReadOk { messages: messages@ },
            Payload::Topology { topology } => PayloadView::Topology { topology: topology@ },
            Payload::TopologyOk => PayloadView::TopologyOk,
            Payload::Gossip { messages } => PayloadView::Gossip { messages: messages@ },
        }
    }
}

/// A set with the elements of `set`.
pub fn copy_of(set: &HashSet<usize>) -> (copy: HashSet<usize>)
    ensures
        copy@ == set@,
{
    let list: Vec<usize> = elements(set);
    let mut copy: HashSet<usize> = HashSet::new();
    extend(&mut copy, &list);
    assert(copy@ =~= set@);
    copy
}

impl Clone for Payload {
    fn clone(&self) -> (copy: Payload)
        ensures
            copy@ == self@,
    {
        match self {
            Payload::Broadcast { message } => Payload::Broadcast { message: *message },
            Payload::BroadcastOk => Payload::BroadcastOk,
            Payload::Read => Payload::Read,
            Payload::ReadOk { messages } => Payload::ReadOk { messages: copy_of(messages) },
            Payload::Topology { topology } => Payload::Topology { topology: topology.clone() },
            Payload::TopologyOk => Payload::TopologyOk,
            Payload::Gossip { messages } => Payload::Gossip { messages: copy_of(messages) },
        }
    }
}

/// The internal events of the broadcast node.
#[derive(Debug, Clone, Copy, PartialEq, Eq)]
pub enum Event {
    /// The timer asks for a gossip round.
    StartGossip,
}

/// What a node holds about one peer: its name, and the values that the peer
/// has shown to know.
pub struct Peer {
    id: String,
    knows: HashSet<usize>,
}

/// The state of a broadcast node.
pub struct Broadcast {
    params: Params,
    msg_id: usize,
    node_id: String,
    messages: HashSet<usize>,
    others_know: Vec<Peer>,
}

/// The content of a [`Peer`].
pub ghost struct PeerView {
    pub id: Seq<char>,
    pub knows: Set<usize>,
}

/// The content of a [`Broadcast`]: the next local identifier, the node's
/// name, its tuning, the values it knows, and its peers in the order of the
/// handshake, each with the values it has shown to know.
#[verifier::ext_equal]
pub ghost struct BroadcastState {
    pub msg_id: usize,
    pub node_id: Seq<char>,
    pub params: Params,
    pub known: Set<usize>,
    pub peers: Seq<PeerView>,
}

/// The names in `ids`, each once, in the order of their first appearance.
pub open spec fn distinct(ids: Seq<Seq<char>>) -> Seq<Seq<char>>
    decreases ids.len(),
{
    if ids.len() == 0 {
        Seq::empty()
    } else {
        let earlier = distinct(ids.drop_last());
        if earlier.contains(ids.last()) {
            earlier
        } else {
            earlier.push(ids.last())
        }
    }
}

/// The step of a node that does nothing but fail.
pub open spec fn fails(state: BroadcastState, error: NodeError) -> (BroadcastState, Result<
    Seq<Envelope<PayloadView>>,
    NodeError,
>) {
    (state, Err(error))
}

impl BroadcastState {
    /// The invariant: no two peers share a name, the node knows finitely
    /// many values, and what a peer has shown to know the node knows too.
    pub open spec fn wf(self) -> bool {
        &&& forall|p: int, q: int|
            0 <= p < q < self.peers.len() ==> self.peers[p].id != self.peers[q].id
        &&& self.known.finite()
        &&& forall|p: int|
            0 <= p < self.peers.len() ==> (#[trigger] self.peers[p]).knows.subset_of(self.known)
    }

    /// The state of a node that the handshake has just built.
    pub open spec fn initial(init: Seq<char>, ids: Seq<Seq<char>>, msg_id: usize, params: Params)
        -> BroadcastState {
        BroadcastState {
            msg_id,
            node_id: init,
            params,
            known: Set::empty(),
            peers: Seq::new(
                distinct(ids).len(),
                |p: int| PeerView { id: distinct(ids)[p], knows: Set::empty() },
            ),
        }
    }

    /// The node's estimate of what each peer knows, by the peer's name.
    pub open spec fn peer_knowledge(self) -> Map<Seq<char>, Set<usize>> {
        Map::new(
            |id: Seq<char>| self.peer(id) is Some,
            |id: Seq<char>| self.peers[self.peer(id).unwrap()].knows,
        )
    }

    /// The place of the peer called `id`, if there is one.
    pub open spec fn peer(self, id: Seq<char>) -> Option<int> {
        if exists|p: int| 0 <= p < self.peers.len() && self.peers[p].id == id {
            Some(choose|p: int| 0 <= p < self.peers.len() && self.peers[p].id == id)
        } else {
            None
        }
    }

    /// The state with one local identifier consumed.
    pub open spec fn issue(self) -> BroadcastState {
        BroadcastState { msg_id: (self.msg_id + 1) as usize, ..self }
    }

    /// The state after the node learned `values`.
    pub open spec fn learn(self, values: Set<usize>) -> BroadcastState {
        BroadcastState { known: self.known.union(values), ..self }
    }

    /// The state after peer `p` showed that it knows `values`.
    pub open spec fn hear(self, p: int, values: Set<usize>) -> BroadcastState {
        BroadcastState {
            peers: self.peers.update(
                p,
                PeerView { id: self.peers[p].id, knows: self.peers[p].knows.union(values) },
            ),
            ..self
        }
    }

    /// One inbound message. Every message that is looked at consumes one
    /// local identifier, which a reply carries. Gossip is taken in before its
    /// sender is looked up, so what an unknown sender gossips is learned too.
    pub open spec fn on_message(self, message: Envelope<PayloadView>) -> (BroadcastState, Result<
        Seq<Envelope<PayloadView>>,
        NodeError,
    >) {
        if self.msg_id == usize::MAX {
            fails(self, NodeError::MsgIdExhausted)
        } else {
            let id = Some(self.msg_id);
            let state = self.issue();
            match message.payload {
                PayloadView::Broadcast { message: value } => (
                    state.learn(set![value]),
                    Ok(seq![reply_to(message, id, PayloadView::BroadcastOk)]),
                ),
                PayloadView::Read => (
                    state,
                    Ok(seq![reply_to(message, id, PayloadView::ReadOk { messages: state.known })]),
                ),
                PayloadView::Topology { .. } => (
                    state,
                    Ok(seq![reply_to(message, id, PayloadView::TopologyOk)]),
                ),
                PayloadView::BroadcastOk | PayloadView::ReadOk { .. } | PayloadView::TopologyOk => fails(
                    state,
                    NodeError::UnexpectedPayload,
                ),
                PayloadView::Gossip { messages } => {
                    let learned = state.learn(messages);
                    match learned.peer(message.src) {
                        None => fails(learned, NodeError::UnknownGossipNode),
                        Some(p) => (learned.hear(p, messages), Ok(Seq::empty())),
                    }
                },
            }
        }
    }

    /// The values that peer `p` lacks, as far as the node can tell.
    pub open spec fn lacking(self, p: int) -> Set<usize> {
        lacking(self.known, self.peers[p].knows)
    }

    /// The most values that a message to peer `p` may repeat.
    pub open spec fn cap(self, p: int) -> nat {
        cap_of(
            self.params.additional_cap_percent,
            self.params.additional_cap_floor,
            self.lacking(p).len(),
        )
    }

    /// What makes `envelope` this node's gossip to peer `p`: it goes from
    /// the node to the peer without identifiers, and carries at least one
    /// value: all that the peer lacks, and of the rest no more than the cap.
    pub open spec fn is_gossip_to(self, p: int, envelope: Envelope<PayloadView>) -> bool {
        &&& envelope.src == self.node_id
        &&& envelope.dest == self.peers[p].id
        &&& envelope.msg_id is None
        &&& envelope.in_reply_to is None
        &&& envelope.payload matches PayloadView::Gossip { messages }
        &&& messages.len() > 0
        &&& is_gossip(self.known, self.peers[p].knows, self.cap(p), messages)
    }

    /// What makes `out` a gossip round for the first `upto` peers: in the
    /// order of the peers, one message of gossip to each; a peer may be
    /// passed over only if it lacks nothing.
    pub open spec fn is_round(self, upto: int, out: Seq<Envelope<PayloadView>>) -> bool
        decreases upto,
    {
        if upto <= 0 {
            out.len() == 0
        } else {
            ||| {
                &&& out.len() > 0
                &&& self.is_gossip_to(upto - 1, out.last())
                &&& self.is_round(upto - 1, out.drop_last())
            }
            ||| {
                &&& self.lacking(upto - 1).is_empty()
                &&& self.is_round(upto - 1, out)
            }
        }
    }
}

impl View for Peer {
    type V = PeerView;

    closed spec fn view(&self) -> PeerView {
        PeerView { id: self.id@, knows: self.knows@ }
    }
}

impl View for Broadcast {
    type V = BroadcastState;

    closed spec fn view(&self) -> BroadcastState {
        BroadcastState {
            msg_id: self.msg_id,
            node_id: self.node_id@,
            params: self.params,
            known: self.messages@,
            peers: Seq::new(self.others_know@.len(), |p: int| self.others_know@[p]@),
        }
    }
}

impl Broadcast {
    /// The next local identifier.
    pub fn msg_id(&self) -> (id: usize)
        ensures
            id == self@.msg_id,
    {
        self.msg_id
    }

    /// The tuning that the node was started with.
    pub fn params(&self) -> (params: Params)
        ensures
            params == self@.params,
    {
        self.params
    }

    /// The values that the node knows.
    pub fn messages(&self) -> (known: HashSet<usize>)
        ensures
            known@ == self@.known,
    {
        copy_of(&self.messages)
    }

    /// The names of the peers, in the order of the handshake.
    pub fn peers(&self) -> (ids: Vec<String>)
        ensures
            ids@.len() == self@.peers.len(),
            forall|p: int| 0 <= p < ids@.len() ==> ids@[p]@ == self@.peers[p].id,
    {
        let mut ids: Vec<String> = Vec::new();
        let mut p: usize = 0;
        while p < self.others_know.len()
            invariant
                0 <= p <= self.others_know@.len(),
                ids@.len() == p,
                forall|q: int| 0 <= q < p ==> ids@[q]@ == self.others_know@[q].id@,
            decreases self.others_know@.len() - p,
        {
            ids.push(self.others_know[p].id.clone());
            p = p + 1;
        }
        ids
    }

    /// The place of the peer called `id`, if there is one.
    fn find_peer(&self, id: &String) -> (place: Option<usize>)
        requires
            self@.wf(),
        ensures
            match place {
                Some(p) => self@.peer(id@) == Some(p as int) && p < self@.peers.len(),
                None => self@.peer(id@) is None,
            },
    {
        let mut p: usize = 0;
        while p < self.others_know.len()
            invariant
                0 <= p <= self.others_know@.len(),
                self@.wf(),
                forall|q: int| 0 <= q < p ==> self@.peers[q].id != id@,
            decreases self.others_know@.len() - p,
        {
            if self.others_know[p].id == *id {
                proof {
                    assert(self@.peers[p as int].id == id@);
                    let q = self@.peer(id@).unwrap();
                    assert(0 <= q < self@.peers.len() && self@.peers[q].id == id@);
                    if q < p {
                        assert(self@.peers[q].id != self@.peers[p as int].id);
                    } else if p < q {
                        assert(self@.peers[p as int].id != self@.peers[q].id);
                    }
                }
                return Some(p);
            }
            p = p + 1;
        }
        None
    }

    /// What peer `p` has shown to know, or nothing for a place beyond the
    /// peers.
    pub fn peer_knows(&self, p: usize) -> (knows: Option<HashSet<usize>>)
        ensures
            match knows {
                Some(knows) => p < self@.peers.len() && knows@ == self@.peers[p as int].knows,
                None => p >= self@.peers.len(),
            },
    {
        if p < self.others_know.len() {
            Some(copy_of(&self.others_know[p].knows))
        } else {
            None
        }
    }

    /// The message of gossip for peer `p`: all that the peer lacks and,
    /// drawn at random, some of what it has, within the cap. It fails only
    /// where the peer has more values than a 32-bit number counts.
    fn gossip_for(&self, p: usize, rng: &mut ThreadRng) -> (payload: Result<
        HashSet<usize>,
        NodeError,
    >)
        requires
            self@.wf(),
            p < self@.peers.len(),
        ensures
            match payload {
                Ok(messages) => is_gossip(
                    self@.known,
                    self@.peers[p as int].knows,
                    self@.cap(p as int),
                    messages@,
                ),
                Err(error) => error == NodeError::TooManyKnown && self@.peers[p as int].knows.len()
                    > u32::MAX,
            },
    {
        let (already_known, notify_of) = partition(&self.messages, &self.others_know[p].knows);
        proof {
            notify_of@.unique_seq_to_set();
            already_known@.unique_seq_to_set();
            assert(self@.known.intersect(self@.peers[p as int].knows)
                =~= self@.peers[p as int].knows);
        }
        let additional_cap: u32 = self.params.calculate_cap(notify_of.len());
        if already_known.len() > u32::MAX as usize {
            return Err(NodeError::TooManyKnown);
        }
        let already_known_len: u32 = already_known.len() as u32;
        let draws: Vec<bool> = if already_known_len == 0 {
            Vec::new()
        } else {
            let (numerator, denominator) = chance(additional_cap, already_known_len);
            draw(rng, numerator, denominator, already_known_len)
        };
        let messages: HashSet<usize> = compose(&notify_of, &already_known, &draws, additional_cap);
        proof {
            lemma_composed_is_gossip(
                self@.known,
                self@.peers[p as int].knows,
                notify_of@,
                already_known@,
                draws@,
                additional_cap as nat,
            );
        }
        Ok(messages)
    }
}

/// The names in `ids` are distinct, each of them stands in `ids`, and each
/// name of `ids` is among them.
pub proof fn lemma_distinct(ids: Seq<Seq<char>>)
    ensures
        distinct(ids).no_duplicates(),
        forall|id: Seq<char>| #[trigger] distinct(ids).contains(id) <==> ids.contains(id),
    decreases ids.len(),
{
    if ids.len() > 0 {
        let shorter = ids.drop_last();
        let earlier = distinct(shorter);
        lemma_distinct(shorter);
        assert forall|id: Seq<char>| #[trigger] distinct(ids).contains(id) <==> ids.contains(
            id,
        ) by {
            if ids.contains(id) {
                let i = choose|i: int| 0 <= i < ids.len() && ids[i] == id;
                if i < shorter.len() {
                    assert(shorter[i] == id);
                    assert(earlier.contains(id));
                    let j = choose|j: int| 0 <= j < earlier.len() && earlier[j] == id;
                    assert(distinct(ids)[j] == id);
                } else if !earlier.contains(ids.last()) {
                    assert(distinct(ids)[earlier.len() as int] == id);
                }
            }
            if distinct(ids).contains(id) {
                let j = choose|j: int| 0 <= j < distinct(ids).len() && distinct(ids)[j] == id;
                if j < earlier.len() {
                    assert(earlier[j] == id);
                    assert(earlier.contains(id));
                    let i = choose|i: int| 0 <= i < shorter.len() && shorter[i] == id;
                    assert(ids[i] == id);
                } else {
                    assert(ids[ids.len() - 1] == id);
                }
            }
        }
        if !earlier.contains(ids.last()) {
            assert forall|i: int, j: int|
                0 <= i < distinct(ids).len() && 0 <= j < distinct(ids).len() && i
                    != j implies distinct(ids)[i] != distinct(ids)[j] by {
                if i < earlier.len() && j < earlier.len() {
                } else if i < earlier.len() {
                    assert(earlier.contains(earlier[i]));
                } else {
                    assert(earlier.contains(earlier[j]));
                }
            }
        }
    }
}

impl Node for Broadcast {
    type Payload = Payload;

    type Event = Event;

    type Start = Params;

    open spec fn wf(&self) -> bool {
        self@.wf()
    }

    /// A new node knows nothing, has every node of the handshake as a peer,
    /// each once, and knows of no peer that it knows anything.
    open spec fn init_post(init: Init, msg_id: usize, start: Params, node: Self) -> bool {
        node@ == BroadcastState::initial(init@.node_id, init@.node_ids, msg_id, start)
    }

    open spec fn message_step(
        pre: Self,
        message: Message<Payload>,
        post: Self,
        result: Result<Vec<Message<Payload>>, NodeError>,
    ) -> bool {
        (post@, outcome(result)) == pre@.on_message(message@)
    }

    /// A gossip round leaves the state as it is. It sends one message to
    /// each peer, in the order of the peers, and passes over a peer only if
    /// that peer lacks nothing. It fails, sending nothing, only where some
    /// peer has more values than a 32-bit number counts.
    open spec fn event_step(
        pre: Self,
        event: Event,
        post: Self,
        result: Result<Vec<Message<Payload>>, NodeError>,
    ) -> bool {
        &&& post@ == pre@
        &&& match result {
            Ok(out) => pre@.is_round(pre@.peers.len() as int, sent(out@)),
            Err(error) => error == NodeError::TooManyKnown && exists|p: int|
                0 <= p < pre@.peers.len() && (#[trigger] pre@.peers[p]).knows.len() > u32::MAX,
        }
    }

    /// The node asks for a gossip round at the interval of its tuning.
    open spec fn ticks(&self) -> Option<(u64, Event)> {
        Some((self@.params.gossip_interval_ms, Event::StartGossip))
    }

    fn timer(&self) -> (timer: Option<(u64, Event)>) {
        Some((self.params.gossip_interval_ms, Event::StartGossip))
    }

    fn from_init(init: Init, msg_id: usize, params: Params) -> (node: Self) {
        let ghost ids = init@.node_ids;
        let mut others_know: Vec<Peer> = Vec::new();
        let mut i: usize = 0;
        while i < init.node_ids.len()
            invariant
                0 <= i <= init.node_ids@.len(),
                ids == init@.node_ids,
                others_know@.len() == distinct(ids.take(i as int)).len(),
                forall|p: int|
                    0 <= p < others_know@.len() ==> (#[trigger] others_know@[p])@ == (PeerView {
                        id: distinct(ids.take(i as int))[p],
                        knows: Set::empty(),
                    }),
            decreases init.node_ids@.len() - i,
        {
            let ghost seen = distinct(ids.take(i as int));
            assert(ids.take(i as int + 1).drop_last() =~= ids.take(i as int));
            assert(ids.take(i as int + 1).last() == init.node_ids@[i as int]@);
            let mut found: bool = false;
            let mut p: usize = 0;
            while p < others_know.len()
                invariant
                    0 <= p <= others_know@.len(),
                    0 <= i < init.node_ids@.len(),
                    others_know@.len() == seen.len(),
                    forall|q: int|
                        0 <= q < others_know@.len() ==> (#[trigger] others_know@[q])@.id
                            == seen[q],
                    found <==> exists|q: int| 0 <= q < p && seen[q] == init.node_ids@[i as int]@,
                decreases others_know@.len() - p,
            {
                if others_know[p].id == init.node_ids[i] {
                    found = true;
                    assert(seen[p as int] == init.node_ids@[i as int]@);
                }
                p = p + 1;
            }
            if !found {
                others_know.push(Peer { id: init.node_ids[i].clone(), knows: HashSet::new() });
            }
            i = i + 1;
        }
        assert(ids.take(i as int) =~= ids);
        let node = Broadcast {
            params,
            msg_id,
            node_id: init.node_id,
            messages: HashSet::new(),
            others_know,
        };
        proof {
            lemma_distinct(ids);
            let target = BroadcastState::initial(init@.node_id, ids, msg_id, params);
            assert(node@.peers =~= target.peers);
            assert(node@ =~= target);
            assert forall|p: int, q: int| 0 <= p < q < node@.peers.len() implies node@.peers[p].id
                != node@.peers[q].id by {
                assert(distinct(ids)[p] != distinct(ids)[q]);
            }
        }
        node
    }

    fn step_message(&mut self, message: Message<Payload>) -> (result: Result<
        Vec<Message<Payload>>,
        NodeError,
    >) {
        broadcast use group_hash_axioms;

        if self.msg_id == usize::MAX {
            return Err(NodeError::MsgIdExhausted);
        }
        let ghost request = message@;
        let ghost before = self@;
        let reply = message.reply(Some(&mut self.msg_id));
        let Message { src, dest, body } = reply;
        let Body { msg_id: reply_id, in_reply_to, payload } = body;
        match payload {
            Payload::Broadcast { message } => {
                self.messages.insert(message);
                let answer = Message {
                    src,
                    dest,
                    body: Body { msg_id: reply_id, in_reply_to, payload: Payload::BroadcastOk },
                };
                assert(self@.peers =~= before.peers);
                assert(self@ =~= before.issue().learn(set![message]));
                Ok(one(answer))
            },
            Payload::Read => {
                let messages: HashSet<usize> = copy_of(&self.messages);
                let answer = Message {
                    src,
                    dest,
                    body: Body {
                        msg_id: reply_id,
                        in_reply_to,
                        payload: Payload::ReadOk { messages },
                    },
                };
                assert(self@.peers =~= before.peers);
                Ok(one(answer))
            },
            Payload::Topology { topology: _ } => {
                let answer = Message {
                    src,
                    dest,
                    body: Body { msg_id: reply_id, in_reply_to, payload: Payload::TopologyOk },
                };
                assert(self@.peers =~= before.peers);
                Ok(one(answer))
            },
            Payload::BroadcastOk | Payload::ReadOk { .. } | Payload::TopologyOk => {
                assert(self@.peers =~= before.peers);
                Err(NodeError::UnexpectedPayload)
            },
            Payload::Gossip { messages } => {
                let values: Vec<usize> = elements(&messages);
                proof {
                    vstd::seq_lib::seq_to_set_is_finite(values@);
                }
                extend(&mut self.messages, &values);
                assert(self@.peers =~= before.peers);
                assert(self@ =~= before.issue().learn(messages@));
                match self.find_peer(&dest) {
                    None => Err(NodeError::UnknownGossipNode),
                    Some(p) => {
                        let ghost learned = self@;
                        extend(&mut self.others_know[p].knows, &values);
                        assert(self@.peers =~= learned.hear(p as int, messages@).peers);
                        assert(self@ =~= learned.hear(p as int, messages@));
                        Ok(nothing())
                    },
                }
            },
        }
    }

    fn step_event(&mut self, event: Event) -> (result: Result<Vec<Message<Payload>>, NodeError>) {
        let mut out: Vec<Message<Payload>> = Vec::new();
        let mut rng: ThreadRng = rand::thread_rng();
        let mut p: usize = 0;
        assert(sent(out@) =~= Seq::empty());
        while p < self.others_know.len()
            invariant
                0 <= p <= self@.peers.len(),
                self@.peers.len() == self.others_know@.len(),
                self@.wf(),
                self@.is_round(p as int, sent(out@)),
            decreases self.others_know@.len() - p,
        {
            let ghost before = sent(out@);
            let messages: HashSet<usize> = match self.gossip_for(p, &mut rng) {
                Ok(messages) => messages,
                Err(error) => {
                    return Err(error);
                },
            };
            if !messages.is_empty() {
                let message = Message {
                    src: self.node_id.clone(),
                    dest: self.others_know[p].id.clone(),
                    body: Body {
                        msg_id: None,
                        in_reply_to: None,
                        payload: Payload::Gossip { messages },
                    },
                };
                out.push(message);
                proof {
                    assert(sent(out@).drop_last() =~= before);
                    assert(sent(out@).last() == message@);
                    assert(messages@.len() > 0) by {
                        if messages@.len() == 0 {
                            assert(messages@.is_empty());
                        }
                    }
                    assert(self@.is_gossip_to(p as int, message@));
                }
            } else {
                assert(self@.lacking(p as int).is_empty()) by {
                    assert(self@.lacking(p as int).subset_of(messages@));
                    assert(self@.lacking(p as int) =~= Set::empty());
                }
            }
            p = p + 1;
        }
        Ok(out)
    }
}

} // verus!
