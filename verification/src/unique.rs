//! The generator of unique identifiers: each request is answered with a name
//! made of the node's name and a number that the node uses once.

use crate::{one, reply_to, sent, Body, Init, Message, Never, Node, NodeError};
use vstd::prelude::*;
use vstd::string::*;

verus! {

/// The state of a generator: the next local identifier and the node's name.
pub struct Unique {
    msg_id: usize,
    node_id: String,
}

/// The payloads of the generator.
#[derive(Debug, Clone, PartialEq, Eq)]
pub enum Payload {
    Generate,
    GenerateOk { id: String },
}

/// The content of a [`Payload`].
pub ghost enum PayloadView {
    Generate,
    GenerateOk { id: Seq<char> },
}

impl View for Payload {
    type V = PayloadView;

    open spec fn view(&self) -> PayloadView {
        match self {
            Payload::Generate => PayloadView::Generate,
            Payload::GenerateOk { id } => PayloadView::GenerateOk { id: id@ },
        }
    }
}

/// The content of a [`Unique`].
pub ghost struct UniqueState {
    pub msg_id: usize,
    pub node_id: Seq<char>,
}

/// The character that writes the digit `d`.
pub open spec fn digit(d: nat) -> char {
    if d == 0 {
        '0'
    } else if d == 1 {
        '1'
    } else if d == 2 {
        '2'
    } else if d == 3 {
        '3'
    } else if d == 4 {
        '4'
    } else if d == 5 {
        '5'
    } else if d == 6 {
        '6'
    } else if d == 7 {
        '7'
    } else if d == 8 {
        '8'
    } else {
        '9'
    }
}

/// The digits that write `n` in base ten, without leading zeros.
pub open spec fn decimal(n: nat) -> Seq<char>
    decreases n,
{
    if n < 10 {
        seq![digit(n)]
    } else {
        decimal(n / 10).push(digit(n % 10))
    }
}

/// The name that a node called `node_id` makes of the number `n`.
pub open spec fn name_of(node_id: Seq<char>, n: usize) -> Seq<char> {
    node_id + seq!['-'] + decimal(n as nat)
}

/// The ten digits are written with ten different characters.
pub proof fn lemma_digit_is_injective(a: nat, b: nat)
    requires
        a < 10,
        b < 10,
        digit(a) == digit(b),
    ensures
        a == b,
{
    assert(digit(a) as nat == 48 + a);
    assert(digit(b) as nat == 48 + b);
}

/// Two numbers that are written alike are the same number.
pub proof fn lemma_decimal_is_injective(a: nat, b: nat)
    requires
        decimal(a) == decimal(b),
    ensures
        a == b,
    decreases a,
{
    if a < 10 && b < 10 {
        assert(decimal(a)[0] == digit(a));
        assert(decimal(b)[0] == digit(b));
        lemma_digit_is_injective(a, b);
    } else if a < 10 {
        lemma_decimal_len(b / 10);
        assert(decimal(b).len() >= 2);
    } else if b < 10 {
        lemma_decimal_len(a / 10);
        assert(decimal(a).len() >= 2);
    } else {
        let x = decimal(a / 10);
        let y = decimal(b / 10);
        assert(x.push(digit(a % 10)).last() == y.push(digit(b % 10)).last());
        assert(x.push(digit(a % 10)).drop_last() =~= x);
        assert(y.push(digit(b % 10)).drop_last() =~= y);
        lemma_decimal_is_injective(a / 10, b / 10);
        lemma_digit_is_injective(a % 10, b % 10);
    }
}

/// Every number is written with at least one digit.
pub proof fn lemma_decimal_len(n: nat)
    ensures
        decimal(n).len() >= 1,
    decreases n,
{
    if n >= 10 {
        lemma_decimal_len(n / 10);
    }
}

/// A node never makes the same name of two different numbers.
pub proof fn lemma_names_are_unique(node_id: Seq<char>, a: usize, b: usize)
    requires
        name_of(node_id, a) == name_of(node_id, b),
    ensures
        a == b,
{
    let prefix = node_id + seq!['-'];
    assert(name_of(node_id, a).skip(prefix.len() as int) =~= decimal(a as nat));
    assert(name_of(node_id, b).skip(prefix.len() as int) =~= decimal(b as nat));
    lemma_decimal_is_injective(a as nat, b as nat);
}

/// The text of the digit `d`.
fn digit_text(d: usize) -> (text: &'static str)
    requires
        d < 10,
    ensures
        text@ == seq![digit(d as nat)],
{
    proof {
        reveal_strlit("0");
        reveal_strlit("1");
        reveal_strlit("2");
        reveal_strlit("3");
        reveal_strlit("4");
        reveal_strlit("5");
        reveal_strlit("6");
        reveal_strlit("7");
        reveal_strlit("8");
        reveal_strlit("9");
    }
    let text: &'static str = if d == 0 {
        "0"
    } else if d == 1 {
        "1"
    } else if d == 2 {
        "2"
    } else if d == 3 {
        "3"
    } else if d == 4 {
        "4"
    } else if d == 5 {
        "5"
    } else if d == 6 {
        "6"
    } else if d == 7 {
        "7"
    } else if d == 8 {
        "8"
    } else {
        "9"
    };
    assert(text@ =~= seq![digit(d as nat)]);
    text
}

/// Writes `n` in base ten.
pub fn decimal_text(n: usize) -> (text: String)
    ensures
        text@ == decimal(n as nat),
    decreases n,
{
    if n < 10 {
        digit_text(n).to_owned()
    } else {
        let mut text: String = decimal_text(n / 10);
        text.append(digit_text(n % 10));
        assert(text@ =~= decimal(n as nat));
        text
    }
}

impl View for Unique {
    type V = UniqueState;

    closed spec fn view(&self) -> UniqueState {
        UniqueState { msg_id: self.msg_id, node_id: self.node_id@ }
    }
}

impl Unique {
    /// The next local identifier.
    pub fn msg_id(&self) -> (id: usize)
        ensures
            id == self@.msg_id,
    {
        self.msg_id
    }
}

impl Node for Unique {
    type Payload = Payload;

    type Event = Never;

    type Start = ();

    open spec fn wf(&self) -> bool {
        true
    }

    open spec fn init_post(init: Init, msg_id: usize, start: (), node: Self) -> bool {
        node@ == (UniqueState { msg_id, node_id: init.node_id@ })
    }

    /// A `Generate` request consumes one identifier for the reply and is
    /// answered with the name made of the identifier that follows it, which
    /// no later reply of this node uses again; a `GenerateOk` is refused.
    /// With the identifiers used up nothing is sent and nothing changes.
    open spec fn message_step(
        pre: Self,
        message: Message<Payload>,
        post: Self,
        result: Result<Vec<Message<Payload>>, NodeError>,
    ) -> bool {
        if pre@.msg_id == usize::MAX {
            post@ == pre@ && result == Err::<Vec<Message<Payload>>, NodeError>(
                NodeError::MsgIdExhausted,
            )
        } else {
            &&& post@ == (UniqueState { msg_id: (pre@.msg_id + 1) as usize, ..pre@ })
            &&& match message.body.payload {
                Payload::Generate => {
                    &&& result matches Ok(out)
                    &&& sent(out@) == seq![
                        reply_to(
                            message@,
                            Some(pre@.msg_id),
                            PayloadView::GenerateOk { id: name_of(pre@.node_id, post@.msg_id) },
                        ),
                    ]
                },
                Payload::GenerateOk { .. } => result == Err::<Vec<Message<Payload>>, NodeError>(
                    NodeError::UnexpectedPayload,
                ),
            }
        }
    }

    open spec fn event_step(
        pre: Self,
        event: Never,
        post: Self,
        result: Result<Vec<Message<Payload>>, NodeError>,
    ) -> bool {
        &&& post@ == pre@
        &&& result matches Ok(out)
        &&& out@.len() == 0
    }

    open spec fn ticks(&self) -> Option<(u64, Never)> {
        None
    }

    fn timer(&self) -> (timer: Option<(u64, Never)>) {
        None
    }

    fn from_init(init: Init, msg_id: usize, _start: ()) -> (node: Self) {
        Unique { msg_id, node_id: init.node_id }
    }

    fn step_message(&mut self, message: Message<Payload>) -> (result: Result<
        Vec<Message<Payload>>,
        NodeError,
    >) {
        if self.msg_id == usize::MAX {
            return Err(NodeError::MsgIdExhausted);
        }
        let ghost request = message@;
        let reply = message.reply(Some(&mut self.msg_id));
        let Message { src, dest, body } = reply;
        let Body { msg_id: reply_id, in_reply_to, payload } = body;
        match payload {
            Payload::Generate => {
                let number: String = decimal_text(self.msg_id);
                let mut id: String = self.node_id.clone();
                proof {
                    reveal_strlit("-");
                }
                id.append("-");
                id.append(number.as_str());
                assert(id@ =~= name_of(self@.node_id, self@.msg_id));
                let answer = Message {
                    src,
                    dest,
                    body: Body { msg_id: reply_id, in_reply_to, payload: Payload::GenerateOk { id } },
                };
                Ok(one(answer))
            },
            Payload::GenerateOk { .. } => Err(NodeError::UnexpectedPayload),
        }
    }

    fn step_event(&mut self, event: Never) -> (result: Result<Vec<Message<Payload>>, NodeError>) {
        Ok(Vec::new())
    }
}

} // verus!
