//! One command on the bus, from reset to the last byte.
//!
//! Every command has the same shape: a reset, which every device must answer
//! with a presence pulse; some bytes sent; some bytes read; and, where the
//! device needs time before the bus may be used again, a pause. An
//! [`Exchange`] walks through that shape one action at a time.

use crate::bus::{bit_at, bit_of, shift_in, take_bit, Action, Reply};
use crate::error::Error;
use vstd::prelude::*;

verus! {

/// A command in progress.
#[derive(Debug)]
pub struct Exchange {
    outgoing: Vec<u8>,
    expected: usize,
    hold_millis: u16,
    cursor: usize,
    incoming: Vec<u8>,
    partial: u8,
    failure: Option<Error>,
}

/// What an [`Exchange`] is: its plan and how far it has come.
pub struct ExchangeView {
    /// The bytes to send after the reset.
    pub outgoing: Seq<u8>,
    /// The number of bytes to read after sending.
    pub expected: nat,
    /// The pause that closes the command, in milliseconds; none if zero.
    pub hold_millis: u16,
    /// The number of actions performed so far.
    pub cursor: nat,
    /// The bytes read in full so far.
    pub incoming: Seq<u8>,
    /// The byte under assembly.
    pub partial: u8,
    /// Why the command was given up, if it was.
    pub failure: Option<Error>,
}

impl ExchangeView {
    /// A command of which nothing has been done yet.
    pub open spec fn fresh(outgoing: Seq<u8>, expected: nat, hold_millis: u16) -> ExchangeView {
        ExchangeView {
            outgoing,
            expected,
            hold_millis,
            cursor: 0,
            incoming: Seq::empty(),
            partial: 0,
            failure: None,
        }
    }

    /// The number of actions up to the last write slot.
    pub open spec fn write_end(self) -> nat {
        1 + 8 * self.outgoing.len()
    }

    /// The number of actions up to the last read slot.
    pub open spec fn read_end(self) -> nat {
        self.write_end() + 8 * self.expected
    }

    /// The number of actions of the whole command.
    pub open spec fn end(self) -> nat {
        if self.hold_millis > 0 {
            self.read_end() + 1
        } else {
            self.read_end()
        }
    }

    /// The action at a position of the plan: first the reset, then the bits of
    /// each byte to send, least significant first, then the read slots, then
    /// the pause.
    pub open spec fn action_at(self, position: nat) -> Action
        recommends
            position < self.end(),
    {
        if position == 0 {
            Action::Reset
        } else if position < self.write_end() {
            let slot = (position - 1) as nat;
            Action::WriteBit(bit_of(self.outgoing[(slot / 8) as int], (slot % 8) as u8))
        } else if position < self.read_end() {
            Action::ReadBit
        } else {
            Action::Delay(self.hold_millis)
        }
    }

    /// Whether nothing is left to do, be it that all is done or that the
    /// command was given up.
    pub open spec fn finished(self) -> bool {
        self.failure is Some || self.cursor >= self.end()
    }

    /// The action to perform next, if any.
    pub open spec fn pending(self) -> Option<Action> {
        if self.finished() {
            None
        } else {
            Some(self.action_at(self.cursor))
        }
    }

    /// The command after the pending action was performed with this reply.
    ///
    /// A finished command stays as it is, and so does one that is handed a
    /// reply which the pending action cannot give. A fault ends the command
    /// with `BusError`, a reset that no device answers ends it with
    /// `NoPresencePulse`; after either, nothing more is sent. Otherwise the
    /// command moves on by one action, and a bit that was read joins the byte
    /// under assembly, which is complete with its eighth bit.
    pub open spec fn step(self, reply: Reply) -> ExchangeView {
        match self.pending() {
            None => self,
            Some(action) => {
                if !reply.spec_answers(action) {
                    self
                } else {
                    match reply {
                        Reply::Fault => ExchangeView { failure: Some(Error::BusError), ..self },
                        Reply::Presence(false) => ExchangeView {
                            failure: Some(Error::NoPresencePulse),
                            ..self
                        },
                        Reply::Bit(bit) => {
                            let taken = shift_in(self.partial, bit);
                            ExchangeView {
                                cursor: self.cursor + 1,
                                partial: taken,
                                incoming: if (self.cursor - self.write_end()) % 8 == 7 {
                                    self.incoming.push(taken)
                                } else {
                                    self.incoming
                                },
                                ..self
                            }
                        },
                        _ => ExchangeView { cursor: self.cursor + 1, ..self },
                    }
                }
            },
        }
    }

    /// How the command ended, once it has: with the bytes read, or with the
    /// reason for which it was given up.
    pub open spec fn outcome(self) -> Option<Result<Seq<u8>, Error>> {
        match self.failure {
            Some(error) => Some(Err(error)),
            None => if self.cursor >= self.end() {
                Some(Ok(self.incoming))
            } else {
                None
            },
        }
    }

    /// The command is consistent: it has not run past its end, and it holds
    /// one byte for every eight read slots performed.
    pub open spec fn wf(self) -> bool {
        &&& 8 * (self.outgoing.len() + self.expected) + 2 <= usize::MAX
        &&& self.cursor <= self.end()
        &&& self.incoming.len() == if self.cursor <= self.write_end() {
            0
        } else {
            (self.cursor - self.write_end()) / 8
        }
    }
}

impl View for Exchange {
    type V = ExchangeView;

    closed spec fn view(&self) -> ExchangeView {
        ExchangeView {
            outgoing: self.outgoing@,
            expected: self.expected as nat,
            hold_millis: self.hold_millis,
            cursor: self.cursor as nat,
            incoming: self.incoming@,
            partial: self.partial,
            failure: self.failure,
        }
    }
}

impl Exchange {
    /// Plans a command: a reset, then `outgoing` sent, then `expected` bytes
    /// read, then a pause of `hold_millis` milliseconds unless that is zero.
    pub fn new(outgoing: Vec<u8>, expected: usize, hold_millis: u16) -> (exchange: Exchange)
        requires
            8 * (outgoing@.len() + expected) + 2 <= usize::MAX,
        ensures
            exchange@ == ExchangeView::fresh(outgoing@, expected as nat, hold_millis),
            exchange@.wf(),
    {
        Exchange {
            outgoing,
            expected,
            hold_millis,
            cursor: 0,
            incoming: Vec::new(),
            partial: 0,
            failure: None,
        }
    }

    /// The action to perform next; `None` once the command has ended.
    pub fn pending(&self) -> (action: Option<Action>)
        requires
            self@.wf(),
        ensures
            action == self@.pending(),
    {
        let write_end: usize = 1 + 8 * self.outgoing.len();
        let read_end: usize = write_end + 8 * self.expected;
        if self.failure.is_some() {
            None
        } else if self.cursor == 0 {
            Some(Action::Reset)
        } else if self.cursor < write_end {
            let slot: usize = self.cursor - 1;
            let byte: u8 = self.outgoing[slot / 8];
            Some(Action::WriteBit(bit_at(byte, (slot % 8) as u8)))
        } else if self.cursor < read_end {
            Some(Action::ReadBit)
        } else if self.hold_millis > 0 && self.cursor == read_end {
            Some(Action::Delay(self.hold_millis))
        } else {
            None
        }
    }

    /// Whether the command has ended.
    pub fn is_finished(&self) -> (finished: bool)
        requires
            self@.wf(),
        ensures
            finished == self@.finished(),
            finished == (self@.outcome() is Some),
    {
        self.pending().is_none()
    }

    /// Takes the reply to the pending action.
    pub fn advance(&mut self, reply: Reply)
        requires
            old(self)@.wf(),
        ensures
            final(self)@.wf(),
            final(self)@ == old(self)@.step(reply),
    {
        match self.pending() {
            None => {},
            Some(action) => {
                if reply.answers(action) {
                    match reply {
                        Reply::Fault => {
                            self.failure = Some(Error::BusError);
                        },
                        Reply::Presence(false) => {
                            self.failure = Some(Error::NoPresencePulse);
                        },
                        Reply::Bit(bit) => {
                            let write_end: usize = 1 + 8 * self.outgoing.len();
                            let taken: u8 = take_bit(self.partial, bit);
                            self.partial = taken;
                            if (self.cursor - write_end) % 8 == 7 {
                                self.incoming.push(taken);
                            }
                            self.cursor = self.cursor + 1;
                        },
                        _ => {
                            self.cursor = self.cursor + 1;
                        },
                    }
                }
            },
        }
        assert(self@ =~= old(self)@.step(reply));
    }

    /// How the command ended: the bytes read, or the reason for which it was
    /// given up. `None` while actions are still pending.
    pub fn into_outcome(self) -> (outcome: Option<Result<Vec<u8>, Error>>)
        requires
            self@.wf(),
        ensures
            match self@.outcome() {
                None => outcome is None,
                Some(Err(error)) => outcome == Some(Err::<Vec<u8>, Error>(error)),
                Some(Ok(bytes)) => outcome matches Some(Ok(read)) && read@ == bytes && bytes.len()
                    == self@.expected,
            },
    {
        if !self.is_finished() {
            return None;
        }
        match self.failure {
            Some(error) => Some(Err(error)),
            None => Some(Ok(self.incoming)),
        }
    }
}

/// Once a reset has gone unanswered the command is over with
/// `NoPresencePulse`: no action is pending, and whatever replies are still
/// handed in, none ever will be.
pub proof fn lemma_nothing_sent_without_presence(exchange: ExchangeView, later: Seq<Reply>)
    requires
        exchange.pending() == Some(Action::Reset),
    ensures
        exchange.step(Reply::Presence(false)).outcome() == Some(
            Err::<Seq<u8>, Error>(Error::NoPresencePulse),
        ),
        run(exchange.step(Reply::Presence(false)), later).pending() is None,
        run(exchange.step(Reply::Presence(false)), later) == exchange.step(Reply::Presence(false)),
{
    lemma_finished_stays(exchange.step(Reply::Presence(false)), later);
}

/// The command after a whole sequence of replies, each taken in turn.
pub open spec fn run(exchange: ExchangeView, replies: Seq<Reply>) -> ExchangeView
    decreases replies.len(),
{
    if replies.len() == 0 {
        exchange
    } else {
        run(exchange, replies.drop_last()).step(replies.last())
    }
}

/// A command that has ended does not change any more.
pub proof fn lemma_finished_stays(exchange: ExchangeView, replies: Seq<Reply>)
    requires
        exchange.finished(),
    ensures
        run(exchange, replies) == exchange,
    decreases replies.len(),
{
    if replies.len() > 0 {
        lemma_finished_stays(exchange, replies.drop_last());
    }
}

/// What the bus replies to the pending action of a command when a device
/// answers the reset, takes what is sent, and in the read slots sends the
/// bytes of `answer`, each least significant bit first.
pub open spec fn attentive_reply(exchange: ExchangeView, answer: Seq<u8>) -> Reply {
    if exchange.cursor == 0 {
        Reply::Presence(true)
    } else if exchange.write_end() <= exchange.cursor < exchange.read_end() {
        let slot = (exchange.cursor - exchange.write_end()) as nat;
        Reply::Bit(bit_of(answer[(slot / 8) as int], (slot % 8) as u8))
    } else {
        Reply::Done
    }
}

/// The command after `steps` actions on a bus with such a device.
pub open spec fn converse(exchange: ExchangeView, answer: Seq<u8>, steps: nat) -> ExchangeView
    decreases steps,
{
    if steps == 0 {
        exchange
    } else {
        let before = converse(exchange, answer, (steps - 1) as nat);
        before.step(attentive_reply(before, answer))
    }
}

proof fn lemma_shift_in_moves_bits(partial: u8, bit: bool, index: u8)
    by (bit_vector)
    requires
        index < 7,
    ensures
        bit_of(shift_in(partial, bit), 7) == bit,
        bit_of(shift_in(partial, bit), index) == bit_of(partial, (index + 1) as u8),
{
}

proof fn lemma_same_bits(a: u8, b: u8)
    by (bit_vector)
    requires
        bit_of(a, 0) == bit_of(b, 0),
        bit_of(a, 1) == bit_of(b, 1),
        bit_of(a, 2) == bit_of(b, 2),
        bit_of(a, 3) == bit_of(b, 3),
        bit_of(a, 4) == bit_of(b, 4),
        bit_of(a, 5) == bit_of(b, 5),
        bit_of(a, 6) == bit_of(b, 6),
        bit_of(a, 7) == bit_of(b, 7),
    ensures
        a == b,
{
}

/// The number of read slots among the first `steps` actions of a command.
spec fn slots_read(plan: ExchangeView, steps: nat) -> int {
    if steps <= plan.write_end() {
        0
    } else if steps >= plan.read_end() {
        plan.read_end() - plan.write_end()
    } else {
        steps - plan.write_end()
    }
}

/// What holds of a command after `steps` actions with an attentive device:
/// it has not failed, it has come exactly that far, it holds the bytes of
/// the answer that have arrived in full, and the bits that have arrived of
/// the next byte stand at the top of the byte under assembly.
spec fn conversing(plan: ExchangeView, now: ExchangeView, answer: Seq<u8>, steps: nat) -> bool {
    let read = slots_read(plan, steps);
    &&& now.wf()
    &&& now.outgoing == plan.outgoing
    &&& now.expected == plan.expected
    &&& now.hold_millis == plan.hold_millis
    &&& now.failure is None
    &&& now.cursor == steps
    &&& now.incoming == answer.take(read / 8)
    &&& forall|i: u8|
        i < read % 8 ==> bit_of(now.partial, (8 - read % 8 + i) as u8) == #[trigger] bit_of(
            answer[read / 8],
            i,
        )
}

proof fn lemma_conversing(plan: ExchangeView, answer: Seq<u8>, steps: nat)
    requires
        plan == ExchangeView::fresh(plan.outgoing, answer.len(), plan.hold_millis),
        plan.wf(),
        steps <= plan.end(),
    ensures
        conversing(plan, converse(plan, answer, steps), answer, steps),
    decreases steps,
{
    if steps == 0 {
        assert(plan.incoming =~= answer.take(0));
    } else {
        let position = (steps - 1) as nat;
        lemma_conversing(plan, answer, position);
        let before = converse(plan, answer, position);
        let now = converse(plan, answer, steps);
        assert(now == before.step(attentive_reply(before, answer)));
        if plan.write_end() <= position < plan.read_end() {
            let slot = position - plan.write_end();
            let byte = answer[slot / 8];
            let arrived = slot % 8;
            let bit = bit_of(byte, arrived as u8);
            assert(attentive_reply(before, answer) == Reply::Bit(bit));
            assert(now.partial == shift_in(before.partial, bit));
            assert(slots_read(plan, position) == slot);
            assert(slots_read(plan, steps) == slot + 1);
            assert forall|i: u8| i < arrived + 1 implies bit_of(
                now.partial,
                (7 - arrived + i) as u8,
            ) == #[trigger] bit_of(byte, i) by {
                if i < arrived {
                    lemma_shift_in_moves_bits(before.partial, bit, (7 - arrived + i) as u8);
                    assert(bit_of(before.partial, (8 - arrived + i) as u8) == bit_of(byte, i));
                } else {
                    lemma_shift_in_moves_bits(before.partial, bit, 0);
                }
            }
            if arrived == 7 {
                assert(bit_of(now.partial, 0) == bit_of(byte, 0));
                assert(bit_of(now.partial, 1) == bit_of(byte, 1));
                assert(bit_of(now.partial, 2) == bit_of(byte, 2));
                assert(bit_of(now.partial, 3) == bit_of(byte, 3));
                assert(bit_of(now.partial, 4) == bit_of(byte, 4));
                assert(bit_of(now.partial, 5) == bit_of(byte, 5));
                assert(bit_of(now.partial, 6) == bit_of(byte, 6));
                assert(bit_of(now.partial, 7) == bit_of(byte, 7));
                lemma_same_bits(now.partial, byte);
                assert(now.incoming =~= answer.take(slot / 8 + 1));
            }
        }
    }
}

/// With an attentive device a command runs as planned. Its actions are, in
/// this order, the reset, a write slot for every bit of every byte to send,
/// a read slot for every bit of the answer, and the pause; and when they are
/// done the command has ended with the very bytes that the device sent.
pub proof fn lemma_answer_arrives(outgoing: Seq<u8>, answer: Seq<u8>, hold_millis: u16)
    requires
        8 * (outgoing.len() + answer.len()) + 2 <= usize::MAX,
    ensures
        ({
            let plan = ExchangeView::fresh(outgoing, answer.len(), hold_millis);
            &&& forall|position: nat|
                position < plan.end() ==> (#[trigger] converse(plan, answer, position)).pending()
                    == Some(plan.action_at(position))
            &&& converse(plan, answer, plan.end()).pending() is None
            &&& converse(plan, answer, plan.end()).outcome() == Some(
                Ok::<Seq<u8>, Error>(answer),
            )
        }),
{
    let plan = ExchangeView::fresh(outgoing, answer.len(), hold_millis);
    assert forall|position: nat| position < plan.end() implies (#[trigger] converse(
        plan,
        answer,
        position,
    )).pending() == Some(plan.action_at(position)) by {
        lemma_conversing(plan, answer, position);
    }
    lemma_conversing(plan, answer, plan.end());
    assert(answer.take(answer.len() as int) =~= answer);
}

} // verus!
