//! The log store: append-only logs by key, polled from an offset, with a
//! committed offset for each.

use crate::logs::payload::{LogsReceive, LogsSend};
use crate::{one, outcome, reply_to, Body, Envelope, Init, Message, Never, Node, NodeError};
use vstd::prelude::*;

pub mod payload;

verus! {

/// The most messages of one log that a poll returns.
pub const MAX_POLL_MESSAGE_EACH: usize = 5;

/// The payloads of the log store. Where the wire has an object keyed by the
/// logs' names, the payload has the list of its entries.
#[derive(Debug, Clone, PartialEq, Eq)]
pub enum Payload {
    Send { key: String, msg: usize },
    SendOk { offset: usize },
    Poll { offsets: Vec<(String, usize)> },
    PollOk { msgs: Vec<(String, Vec<(usize, usize)>)> },
    CommitOffsets { offsets: Vec<(String, usize)> },
    CommitOffsetsOk,
    ListCommittedOffsets { keys: Vec<String> },
    ListCommittedOffsetsOk { offsets: Vec<(String, usize)> },
}

/// The content of a [`Payload`].
#[allow(inconsistent_fields)]
pub ghost enum PayloadView {
    Send { key: Seq<char>, msg: usize },
    SendOk { offset: usize },
    Poll { offsets: Seq<(Seq<char>, usize)> },
    PollOk { msgs: Seq<(Seq<char>, Seq<(usize, usize)>)> },
    CommitOffsets { offsets: Seq<(Seq<char>, usize)> },
    CommitOffsetsOk,
    ListCommittedOffsets { keys: Seq<Seq<char>> },
    ListCommittedOffsetsOk { offsets: Seq<(Seq<char>, usize)> },
}

/// The content of a list of names.
pub open spec fn names(keys: Seq<String>) -> Seq<Seq<char>> {
    Seq::new(keys.len(), |i: int| keys[i]@)
}

/// The content of a list of offsets by name.
pub open spec fn pairs(offsets: Seq<(String, usize)>) -> Seq<(Seq<char>, usize)> {
    Seq::new(offsets.len(), |i: int| (offsets[i].0@, offsets[i].1))
}

/// The content of a list of messages by name.
pub open spec fn batches(msgs: Seq<(String, Vec<(usize, usize)>)>) -> Seq<
    (Seq<char>, Seq<(usize, usize)>),
> {
    Seq::new(msgs.len(), |i: int| (msgs[i].0@, msgs[i].1@))
}

impl View for Payload {
    type V = PayloadView;

    open spec fn view(&self) -> PayloadView {
        match self {
            Payload::Send { key, msg } => PayloadView::Send { key: key@, msg: *msg },
            Payload::SendOk { offset } => PayloadView::SendOk { offset: *offset },
            Payload::Poll { offsets } => PayloadView::Poll { offsets: pairs(offsets@) },
            Payload::PollOk { msgs } => PayloadView::PollOk { msgs: batches(msgs@) },
            Payload::CommitOffsets { offsets } => PayloadView::CommitOffsets {
                offsets: pairs(offsets@),
            },
            Payload::CommitOffsetsOk => PayloadView::CommitOffsetsOk,
            Payload::ListCommittedOffsets { keys } => PayloadView::ListCommittedOffsets {
                keys: names(keys@),
            },
            Payload::ListCommittedOffsetsOk { offsets } => PayloadView::ListCommittedOffsetsOk {
                offsets: pairs(offsets@),
            },
        }
    }
}

/// One log: its name, the offset that was committed last, and its messages,
/// each at the offset that is its place.
pub struct Log {
    key: String,
    committed_offset: Option<usize>,
    messages: Vec<usize>,
}

/// The state of a log store.
pub struct Logs {
    msg_id: usize,
    logs: Vec<Log>,
}

/// The content of a [`Log`].
pub ghost struct LogView {
    pub key: Seq<char>,
    pub committed_offset: Option<usize>,
    pub messages: Seq<usize>,
}

/// The content of a [`Logs`]: the next local identifier, and the logs in the
/// order in which they were first written to.
#[verifier::ext_equal]
pub ghost struct LogsState {
    pub msg_id: usize,
    pub logs: Seq<LogView>,
}

/// The messages of a log from `offset` on, each with its offset, but no more
/// than a poll returns.
pub open spec fn polled_from(messages: Seq<usize>, offset: usize) -> Seq<(usize, usize)> {
    let left = if offset < messages.len() {
        messages.len() - offset
    } else {
        0
    };
    let count = if left < MAX_POLL_MESSAGE_EACH {
        left
    } else {
        MAX_POLL_MESSAGE_EACH as int
    };
    Seq::new(count as nat, |j: int| ((offset + j) as usize, messages[offset + j]))
}

impl LogsState {
    /// The invariant: no two logs share a name, and every offset of a log,
    /// the next one too, is a number of the machine.
    pub open spec fn wf(self) -> bool {
        &&& forall|i: int, j: int|
            0 <= i < j < self.logs.len() ==> self.logs[i].key != self.logs[j].key
        &&& forall|i: int|
            0 <= i < self.logs.len() ==> (#[trigger] self.logs[i]).messages.len() <= usize::MAX
    }

    /// The place of the log called `key`, if there is one.
    pub open spec fn place(self, key: Seq<char>) -> Option<int> {
        if exists|i: int| 0 <= i < self.logs.len() && self.logs[i].key == key {
            Some(choose|i: int| 0 <= i < self.logs.len() && self.logs[i].key == key)
        } else {
            None
        }
    }

    /// The state with one local identifier consumed.
    pub open spec fn issue(self) -> LogsState {
        LogsState { msg_id: (self.msg_id + 1) as usize, ..self }
    }

    /// The offset at which the next message of the log called `key` stands.
    pub open spec fn next_offset(self, key: Seq<char>) -> nat {
        match self.place(key) {
            Some(i) => self.logs[i].messages.len(),
            None => 0,
        }
    }

    /// The state after `msg` was appended to the log called `key`, which is
    /// made if it is not there.
    pub open spec fn append(self, key: Seq<char>, msg: usize) -> LogsState {
        match self.place(key) {
            Some(i) => LogsState {
                logs: self.logs.update(
                    i,
                    LogView { messages: self.logs[i].messages.push(msg), ..self.logs[i] },
                ),
                ..self
            },
            None => LogsState {
                logs: self.logs.push(
                    LogView { key, committed_offset: None, messages: seq![msg] },
                ),
                ..self
            },
        }
    }

    /// What a poll returns: for each asked name that has a log, in the order
    /// asked, the messages of that log from the asked offset on.
    pub open spec fn poll(self, offsets: Seq<(Seq<char>, usize)>) -> Seq<
        (Seq<char>, Seq<(usize, usize)>),
    >
        decreases offsets.len(),
    {
        if offsets.len() == 0 {
            Seq::empty()
        } else {
            let earlier = self.poll(offsets.drop_last());
            let (key, offset) = offsets.last();
            match self.place(key) {
                Some(i) => earlier.push((key, polled_from(self.logs[i].messages, offset))),
                None => earlier,
            }
        }
    }

    /// The state after the offsets were committed, one after the other: a
    /// name without a log is passed over.
    pub open spec fn commit(self, offsets: Seq<(Seq<char>, usize)>) -> LogsState
        decreases offsets.len(),
    {
        if offsets.len() == 0 {
            self
        } else {
            let earlier = self.commit(offsets.drop_last());
            let (key, offset) = offsets.last();
            match earlier.place(key) {
                Some(i) => LogsState {
                    logs: earlier.logs.update(
                        i,
                        LogView { committed_offset: Some(offset), ..earlier.logs[i] },
                    ),
                    ..earlier
                },
                None => earlier,
            }
        }
    }

    /// The committed offsets of the asked names, in the order asked: a name
    /// without a log, or with a log that has none committed, is passed over.
    pub open spec fn committed(self, keys: Seq<Seq<char>>) -> Seq<(Seq<char>, usize)>
        decreases keys.len(),
    {
        if keys.len() == 0 {
            Seq::empty()
        } else {
            let earlier = self.committed(keys.drop_last());
            match self.place(keys.last()) {
                Some(i) => match self.logs[i].committed_offset {
                    Some(offset) => earlier.push((keys.last(), offset)),
                    None => earlier,
                },
                None => earlier,
            }
        }
    }

    /// One inbound message. Every message that is looked at consumes one
    /// local identifier, which the reply carries. A response is refused.
    pub open spec fn on_message(self, message: Envelope<PayloadView>) -> (LogsState, Result<
        Seq<Envelope<PayloadView>>,
        NodeError,
    >) {
        if self.msg_id == usize::MAX {
            (self, Err(NodeError::MsgIdExhausted))
        } else {
            let id = Some(self.msg_id);
            let state = self.issue();
            match message.payload {
                PayloadView::Send { key, msg } => (
                    state.append(key, msg),
                    Ok(
                        seq![
                            reply_to(
                                message,
                                id,
                                PayloadView::SendOk { offset: state.next_offset(key) as usize },
                            ),
                        ],
                    ),
                ),
                PayloadView::Poll { offsets } => (
                    state,
                    Ok(seq![reply_to(message, id, PayloadView::PollOk { msgs: state.poll(offsets) })]),
                ),
                PayloadView::CommitOffsets { offsets } => (
                    state.commit(offsets),
                    Ok(seq![reply_to(message, id, PayloadView::CommitOffsetsOk)]),
                ),
                PayloadView::ListCommittedOffsets { keys } => (
                    state,
                    Ok(
                        seq![
                            reply_to(
                                message,
                                id,
                                PayloadView::ListCommittedOffsetsOk {
                                    offsets: state.committed(keys),
                                },
                            ),
                        ],
                    ),
                ),
                _ => (state, Err(NodeError::UnexpectedPayload)),
            }
        }
    }
}

impl View for Log {
    type V = LogView;

    closed spec fn view(&self) -> LogView {
        LogView {
            key: self.key@,
            committed_offset: self.committed_offset,
            messages: self.messages@,
        }
    }
}

impl View for Logs {
    type V = LogsState;

    closed spec fn view(&self) -> LogsState {
        LogsState { msg_id: self.msg_id, logs: Seq::new(self.logs@.len(), |i: int| self.logs@[i]@) }
    }
}

/// Committing offsets changes neither the names of the logs nor their
/// messages, and keeps the logs' names distinct.
pub proof fn lemma_commit_keeps_logs(state: LogsState, offsets: Seq<(Seq<char>, usize)>)
    requires
        state.wf(),
    ensures
        state.commit(offsets).wf(),
        state.commit(offsets).msg_id == state.msg_id,
        state.commit(offsets).logs.len() == state.logs.len(),
        forall|i: int|
            #![trigger state.commit(offsets).logs[i]]
            0 <= i < state.logs.len() ==> state.commit(offsets).logs[i].key == state.logs[i].key
                && state.commit(offsets).logs[i].messages == state.logs[i].messages,
    decreases offsets.len(),
{
    if offsets.len() > 0 {
        lemma_commit_keeps_logs(state, offsets.drop_last());
        let earlier = state.commit(offsets.drop_last());
        let after = state.commit(offsets);
        assert forall|i: int, j: int| 0 <= i < j < after.logs.len() implies after.logs[i].key
            != after.logs[j].key by {
            assert(earlier.logs[i].key != earlier.logs[j].key);
        }
    }
}

impl Logs {
    /// The logs of a store are held in memory, so their lengths are numbers
    /// of the machine.
    proof fn lemma_lengths_fit(&self)
        ensures
            forall|i: int|
                0 <= i < self@.logs.len() ==> (#[trigger] self@.logs[i]).messages.len()
                    <= usize::MAX,
    {
        assert forall|i: int| 0 <= i < self@.logs.len() implies (
        #[trigger] self@.logs[i]).messages.len() <= usize::MAX by {
            vstd::std_specs::vec::axiom_spec_len(&self.logs@[i].messages);
        }
    }

    /// The next local identifier.
    pub fn msg_id(&self) -> (id: usize)
        ensures
            id == self@.msg_id,
    {
        self.msg_id
    }

    /// The place of the log called `key`, if there is one.
    fn find(&self, key: &String) -> (place: Option<usize>)
        requires
            self@.wf(),
        ensures
            match place {
                Some(i) => self@.place(key@) == Some(i as int) && i < self@.logs.len(),
                None => self@.place(key@) is None,
            },
    {
        let mut i: usize = 0;
        while i < self.logs.len()
            invariant
                0 <= i <= self.logs@.len(),
                self@.wf(),
                forall|j: int| 0 <= j < i ==> self@.logs[j].key != key@,
            decreases self.logs@.len() - i,
        {
            if self.logs[i].key == *key {
                proof {
                    assert(self@.logs[i as int].key == key@);
                    let j = self@.place(key@).unwrap();
                    assert(0 <= j < self@.logs.len() && self@.logs[j].key == key@);
                    if j < i {
                        assert(self@.logs[j].key != self@.logs[i as int].key);
                    } else if i < j {
                        assert(self@.logs[i as int].key != self@.logs[j].key);
                    }
                }
                return Some(i);
            }
            i = i + 1;
        }
        None
    }

    /// Appends `msg` to the log called `key`, which is made if it is not
    /// there, and returns the offset at which the message stands.
    pub fn append(&mut self, key: String, msg: usize) -> (offset: usize)
        requires
            old(self)@.wf(),
        ensures
            final(self)@.wf(),
            final(self)@ == old(self)@.append(key@, msg),
            offset == old(self)@.next_offset(key@),
    {
        match self.find(&key) {
            Some(i) => {
                let offset: usize = self.logs[i].messages.len();
                self.logs[i].messages.push(msg);
                assert(self@.logs =~= old(self)@.append(key@, msg).logs);
                assert forall|a: int, b: int| 0 <= a < b < self@.logs.len() implies self@.logs[a].key
                    != self@.logs[b].key by {
                    assert(old(self)@.logs[a].key != old(self)@.logs[b].key);
                }
                proof {
                    self.lemma_lengths_fit();
                }
                offset
            },
            None => {
                let mut messages: Vec<usize> = Vec::new();
                messages.push(msg);
                self.logs.push(Log { key, committed_offset: None, messages });
                assert(self@.logs =~= old(self)@.append(key@, msg).logs);
                assert forall|a: int, b: int| 0 <= a < b < self@.logs.len() implies self@.logs[a].key
                    != self@.logs[b].key by {
                    if b < old(self)@.logs.len() {
                        assert(old(self)@.logs[a].key != old(self)@.logs[b].key);
                    } else {
                        assert(old(self)@.logs[a].key != key@);
                    }
                }
                proof {
                    self.lemma_lengths_fit();
                }
                0
            },
        }
    }

    /// The messages of log `i` from `offset` on, each with its offset, but
    /// no more than a poll returns.
    fn poll_log(&self, i: usize, offset: usize) -> (batch: Vec<(usize, usize)>)
        requires
            i < self@.logs.len(),
        ensures
            batch@ == polled_from(self@.logs[i as int].messages, offset),
    {
        let messages = &self.logs[i].messages;
        let mut batch: Vec<(usize, usize)> = Vec::new();
        let mut at: usize = offset;
        while at < messages.len() && batch.len() < MAX_POLL_MESSAGE_EACH
            invariant
                offset <= at,
                at == offset + batch@.len(),
                batch@.len() <= MAX_POLL_MESSAGE_EACH,
                at <= messages@.len() || batch@.len() == 0,
                forall|j: int|
                    0 <= j < batch@.len() ==> batch@[j] == (
                        (offset + j) as usize,
                        messages@[offset + j],
                    ),
            decreases messages@.len() - at,
        {
            batch.push((at, messages[at]));
            at = at + 1;
        }
        assert(batch@ =~= polled_from(messages@, offset));
        batch
    }

    /// What a poll of `offsets` returns.
    pub fn poll(&self, offsets: &Vec<(String, usize)>) -> (msgs: Vec<(String, Vec<(usize, usize)>)>)
        requires
            self@.wf(),
        ensures
            batches(msgs@) == self@.poll(pairs(offsets@)),
    {
        let mut msgs: Vec<(String, Vec<(usize, usize)>)> = Vec::new();
        let mut n: usize = 0;
        assert(batches(msgs@) =~= self@.poll(pairs(offsets@).take(0)));
        while n < offsets.len()
            invariant
                0 <= n <= offsets@.len(),
                self@.wf(),
                batches(msgs@) == self@.poll(pairs(offsets@).take(n as int)),
            decreases offsets@.len() - n,
        {
            let ghost before = batches(msgs@);
            assert(pairs(offsets@).take(n as int + 1).drop_last() =~= pairs(offsets@).take(
                n as int,
            ));
            assert(pairs(offsets@).take(n as int + 1).last() == (offsets@[n as int].0@, offsets@[n as int].1));
            let key: &String = &offsets[n].0;
            let offset: usize = offsets[n].1;
            match self.find(key) {
                Some(i) => {
                    let batch = self.poll_log(i, offset);
                    msgs.push((key.clone(), batch));
                    assert(batches(msgs@) =~= before.push((key@, batch@)));
                },
                None => {},
            }
            n = n + 1;
        }
        assert(pairs(offsets@).take(n as int) =~= pairs(offsets@));
        msgs
    }

    /// Commits the offsets, one after the other.
    pub fn commit(&mut self, offsets: &Vec<(String, usize)>)
        requires
            old(self)@.wf(),
        ensures
            final(self)@.wf(),
            final(self)@ == old(self)@.commit(pairs(offsets@)),
    {
        let mut n: usize = 0;
        assert(pairs(offsets@).take(0) =~= Seq::empty());
        while n < offsets.len()
            invariant
                0 <= n <= offsets@.len(),
                self@.wf(),
                self@ == old(self)@.commit(pairs(offsets@).take(n as int)),
            decreases offsets@.len() - n,
        {
            let ghost before = self@;
            assert(pairs(offsets@).take(n as int + 1).drop_last() =~= pairs(offsets@).take(
                n as int,
            ));
            assert(pairs(offsets@).take(n as int + 1).last() == (offsets@[n as int].0@, offsets@[n as int].1));
            match self.find(&offsets[n].0) {
                Some(i) => {
                    self.logs[i].committed_offset = Some(offsets[n].1);
                    assert(self@.logs =~= before.logs.update(
                        i as int,
                        LogView { committed_offset: Some(offsets@[n as int].1), ..before.logs[i as int] },
                    ));
                    assert forall|a: int, b: int| 0 <= a < b < self@.logs.len() implies self@.logs[a].key
                        != self@.logs[b].key by {
                        assert(before.logs[a].key != before.logs[b].key);
                    }
                    proof {
                        self.lemma_lengths_fit();
                    }
                },
                None => {},
            }
            n = n + 1;
        }
        assert(pairs(offsets@).take(n as int) =~= pairs(offsets@));
    }

    /// The committed offsets of the asked names.
    pub fn committed(&self, keys: &Vec<String>) -> (offsets: Vec<(String, usize)>)
        requires
            self@.wf(),
        ensures
            pairs(offsets@) == self@.committed(names(keys@)),
    {
        let mut offsets: Vec<(String, usize)> = Vec::new();
        let mut n: usize = 0;
        assert(pairs(offsets@) =~= self@.committed(names(keys@).take(0)));
        while n < keys.len()
            invariant
                0 <= n <= keys@.len(),
                self@.wf(),
                pairs(offsets@) == self@.committed(names(keys@).take(n as int)),
            decreases keys@.len() - n,
        {
            let ghost before = pairs(offsets@);
            assert(names(keys@).take(n as int + 1).drop_last() =~= names(keys@).take(n as int));
            assert(names(keys@).take(n as int + 1).last() == keys@[n as int]@);
            match self.find(&keys[n]) {
                Some(i) => match self.logs[i].committed_offset {
                    Some(offset) => {
                        offsets.push((keys[n].clone(), offset));
                        assert(pairs(offsets@) =~= before.push((keys@[n as int]@, offset)));
                    },
                    None => {},
                },
                None => {},
            }
            n = n + 1;
        }
        assert(names(keys@).take(n as int) =~= names(keys@));
        offsets
    }
}

impl Node for Logs {
    type Payload = Payload;

    type Event = Never;

    type Start = ();

    open spec fn wf(&self) -> bool {
        self@.wf()
    }

    /// A new store has no logs.
    open spec fn init_post(init: Init, msg_id: usize, start: (), node: Self) -> bool {
        node@ == (LogsState { msg_id, logs: Seq::empty() })
    }

    open spec fn message_step(
        pre: Self,
        message: Message<Payload>,
        post: Self,
        result: Result<Vec<Message<Payload>>, NodeError>,
    ) -> bool {
        (post@, outcome(result)) == pre@.on_message(message@)
    }

    open spec fn event_step(
        pre: Self,
        event: Never,
        post: Self,
        result: Result<Vec<Message<Payload>>, NodeError>,
    ) -> bool {
        &&& post@ == pre@
        &&& result matches Ok(out)
        &&& out@.len() == 0
    }

    open spec fn ticks(&self) -> Option<(u64, Never)> {
        None
    }

    fn timer(&self) -> (timer: Option<(u64, Never)>) {
        None
    }

    fn from_init(_init: Init, msg_id: usize, _start: ()) -> (node: Self) {
        let node = Logs { msg_id, logs: Vec::new() };
        assert(node@.logs =~= Seq::empty());
        node
    }

    fn step_message(&mut self, message: Message<Payload>) -> (result: Result<
        Vec<Message<Payload>>,
        NodeError,
    >) {
        if self.msg_id == usize::MAX {
            return Err(NodeError::MsgIdExhausted);
        }
        let ghost request = message@;
        let ghost before = self@;
        let reply = message.reply(Some(&mut self.msg_id));
        let Message { src, dest, body } = reply;
        let Body { msg_id: reply_id, in_reply_to, payload } = body;
        assert(self@.logs =~= before.logs);
        assert(self@ == before.issue());
        let receive_payload: LogsReceive = match LogsReceive::try_from(payload) {
            Ok(request) => request,
            Err(_) => {
                return Err(NodeError::UnexpectedPayload);
            },
        };
        let answer: LogsSend = match receive_payload {
            LogsReceive::Send { key, msg } => {
                let offset: usize = self.append(key, msg);
                LogsSend::SendOk { offset }
            },
            LogsReceive::Poll { offsets } => {
                let msgs = self.poll(&offsets);
                LogsSend::PollOk { msgs }
            },
            LogsReceive::CommitOffsets { offsets } => {
                self.commit(&offsets);
                LogsSend::CommitOffsetsOk
            },
            LogsReceive::ListCommittedOffsets { keys } => {
                let offsets = self.committed(&keys);
                LogsSend::ListCommittedOffsetsOk { offsets }
            },
        };
        let payload: Payload = Payload::from(answer);
        Ok(one(Message { src, dest, body: Body { msg_id: reply_id, in_reply_to, payload } }))
    }

    fn step_event(&mut self, never: Never) -> (result: Result<Vec<Message<Payload>>, NodeError>) {
        Ok(Vec::new())
    }
}

} // verus!
