//! Finding the devices on the bus.
//!
//! No command lists the devices. Instead all of them send their address at
//! once, bit by bit and each bit followed by its complement, and after every
//! bit the master names one value: the devices whose bit differs drop out.
//! The line is low whenever any device sends a zero, so the two reads of a
//! bit tell whether the devices still taking part agree. Where they do not,
//! the search goes down the zero branch and remembers that the other one is
//! still to be explored. A [`SearchState`] is that memory. Handing the state
//! of one search to the next walks the tree of addresses depth first, one
//! device per search, until no branch is left.

use crate::address::Address;
use crate::bus::{bit_at, bit_of, Action, Reply};
use crate::error::Error;
use vstd::prelude::*;

verus! {

/// Starts a search among all devices.
pub const SEARCH_NORMAL: u8 = 0xF0;

/// Starts a search among the devices whose alarm is raised.
pub const SEARCH_ALARM: u8 = 0xEC;

/// Bit `index` of a 64-bit word, counted from the least significant.
pub open spec fn bit64(word: u64, index: u8) -> bool {
    (word >> index) & 1 == 1
}

/// The word with bit `index` set.
pub open spec fn with_bit(word: u64, index: u8) -> u64 {
    word | (1u64 << index)
}

/// Where a search stood when it found a device: enough to find the next one.
#[derive(Clone, Copy, Debug, PartialEq, Eq, Structural)]
pub struct SearchState {
    /// The address found.
    pub address: u64,
    /// The bits at which the devices disagreed, the search went down the zero
    /// branch, and the one branch is still unexplored.
    pub discrepancies: u64,
    /// The highest of those bits; zero if there is none.
    pub last_discrepancy_index: u8,
}

/// What a search does at one bit of the address.
#[derive(Clone, Copy, Debug, PartialEq, Eq, Structural)]
pub struct Choice {
    /// The value named to the devices: those that hold the other one drop out.
    pub direction: bool,
    /// Whether the search leaves the one branch behind for a later search.
    pub unexplored: bool,
}

impl SearchState {
    /// The state is one that a search can be resumed from: its index is that
    /// of the highest unexplored bit.
    pub open spec fn wf(self) -> bool {
        &&& self.last_discrepancy_index < 64
        &&& if self.discrepancies == 0 {
            self.last_discrepancy_index == 0
        } else {
            self.discrepancies >> self.last_discrepancy_index == 1
        }
    }

    /// Whether every branch has been explored, so that a search resumed from
    /// this state finds nothing more.
    pub open spec fn exhausted(self) -> bool {
        self.discrepancies == 0
    }

    /// The state before the first bit of an address.
    pub open spec fn blank() -> SearchState {
        SearchState { address: 0, discrepancies: 0, last_discrepancy_index: 0 }
    }

    /// The state once the search has acted on bit `index` of the address.
    pub open spec fn record(self, index: u8, choice: Choice) -> SearchState {
        SearchState {
            address: if choice.direction {
                with_bit(self.address, index)
            } else {
                self.address
            },
            discrepancies: if choice.unexplored {
                with_bit(self.discrepancies, index)
            } else {
                self.discrepancies
            },
            last_discrepancy_index: if choice.unexplored {
                index
            } else {
                self.last_discrepancy_index
            },
        }
    }

    /// Whether the state is one that a search can be resumed from.
    pub fn is_well_formed(&self) -> (valid: bool)
        ensures
            valid == self.wf(),
    {
        if self.last_discrepancy_index >= 64 {
            false
        } else if self.discrepancies == 0 {
            self.last_discrepancy_index == 0
        } else {
            self.discrepancies >> self.last_discrepancy_index == 1
        }
    }

    /// Whether a search resumed from this state would find nothing more.
    pub fn is_exhausted(&self) -> (exhausted: bool)
        ensures
            exhausted == self.exhausted(),
    {
        self.discrepancies == 0
    }
}

/// What a search does at bit `index`, having read the bit and its complement.
///
/// A search that resumes an earlier one first retraces it: below the highest
/// unexplored bit of the earlier search it goes where that one went, whatever
/// it reads, and keeps what that one left unexplored. At that highest bit it
/// takes the one branch, which is explored with that; the devices must
/// disagree there as they did before. Beyond it, and in a search that resumes
/// nothing, the reads decide: where all devices agree the search follows
/// them, and where they disagree it goes down the zero branch and leaves the
/// one branch unexplored. Two ones mean that no device takes part, which is
/// an answer that the search cannot use.
pub open spec fn spec_decide(prior: Option<SearchState>, index: u8, bit: bool, complement: bool)
    -> Option<Choice> {
    if prior is Some && index < prior->0.last_discrepancy_index {
        Some(
            Choice {
                direction: bit64(prior->0.address, index),
                unexplored: bit64(prior->0.discrepancies, index),
            },
        )
    } else if prior is Some && index == prior->0.last_discrepancy_index {
        if !bit && !complement {
            Some(Choice { direction: true, unexplored: false })
        } else {
            None
        }
    } else if bit && complement {
        None
    } else if !bit && !complement {
        Some(Choice { direction: false, unexplored: true })
    } else {
        Some(Choice { direction: bit, unexplored: false })
    }
}

/// What a search that has acted on all 64 bits reports: the address and the
/// state to resume from, or `CrcMismatch` if what was assembled does not
/// carry its own checksum.
pub open spec fn spec_conclude(progress: SearchState) -> Result<
    Option<(Address, SearchState)>,
    Error,
> {
    if Address(progress.address).spec_is_valid() {
        Ok(Some((Address(progress.address), progress)))
    } else {
        Err(Error::CrcMismatch)
    }
}

/// The part of a search that comes next.
#[derive(Clone, Copy, Debug, PartialEq, Eq, Structural)]
pub enum Stage {
    /// The reset that opens the search.
    Reset,
    /// A bit of the command byte is to be sent.
    Command,
    /// A bit of the address is to be read.
    Bit,
    /// The complement of that bit is to be read.
    Complement,
    /// The direction chosen at that bit is to be sent.
    Direction,
}

/// One search in progress.
#[derive(Clone, Copy, Debug)]
pub struct Search {
    prior: Option<SearchState>,
    alarm_only: bool,
    stage: Stage,
    index: u8,
    first: bool,
    progress: SearchState,
    direction: bool,
    outcome: Option<Result<Option<(Address, SearchState)>, Error>>,
}

/// What a [`Search`] is.
pub struct SearchView {
    /// The state of the search that this one resumes, if it resumes one.
    pub prior: Option<SearchState>,
    /// Whether only devices with a raised alarm are to answer.
    pub alarm_only: bool,
    /// The part of the search that comes next.
    pub stage: Stage,
    /// The bit that the stage is at: of the command byte while that is sent,
    /// of the address afterwards.
    pub index: u8,
    /// The bit read last, while its complement is still to be read.
    pub first: bool,
    /// What the search has assembled of the address and of its own state.
    pub progress: SearchState,
    /// The direction chosen at the current bit, while it is still to be sent.
    pub direction: bool,
    /// How the search ended, once it has.
    pub outcome: Option<Result<Option<(Address, SearchState)>, Error>>,
}

impl SearchView {
    /// The search before anything was done on the bus. A search that resumes
    /// one which left no branch unexplored has ended before it starts: it
    /// finds nothing, and it does not touch the bus.
    pub open spec fn fresh(prior: Option<SearchState>, alarm_only: bool) -> SearchView {
        SearchView {
            prior,
            alarm_only,
            stage: Stage::Reset,
            index: 0,
            first: false,
            progress: SearchState::blank(),
            direction: false,
            outcome: if prior is Some && prior->0.exhausted() {
                Some(Ok(None))
            } else {
                None
            },
        }
    }

    /// The command byte of the search.
    pub open spec fn command(self) -> u8 {
        if self.alarm_only {
            SEARCH_ALARM
        } else {
            SEARCH_NORMAL
        }
    }

    /// The action to perform next, if any.
    pub open spec fn pending(self) -> Option<Action> {
        if self.outcome is Some {
            None
        } else {
            Some(
                match self.stage {
                    Stage::Reset => Action::Reset,
                    Stage::Command => Action::WriteBit(bit_of(self.command(), self.index)),
                    Stage::Bit => Action::ReadBit,
                    Stage::Complement => Action::ReadBit,
                    Stage::Direction => Action::WriteBit(self.direction),
                },
            )
        }
    }

    /// The search after the pending action was performed with this reply.
    ///
    /// A search that has ended stays as it is, and so does one that is handed
    /// a reply which the pending action cannot give. A fault ends the search
    /// with `BusError`. A reset that no device answers ends it with nothing
    /// found, which is no error: the bus is empty. After the command byte
    /// come the 64 bits of the address, each with two reads and one write as
    /// [`spec_decide`] says; an answer that it cannot use ends the search with
    /// `UnexpectedResponse`. The last write ends the search as
    /// [`spec_conclude`] says.
    pub open spec fn step(self, reply: Reply) -> SearchView {
        match self.pending() {
            None => self,
            Some(action) => {
                if !reply.spec_answers(action) {
                    self
                } else {
                    match reply {
                        Reply::Fault => SearchView {
                            outcome: Some(Err(Error::BusError)),
                            ..self
                        },
                        Reply::Presence(present) => if present {
                            SearchView { stage: Stage::Command, index: 0, ..self }
                        } else {
                            SearchView { outcome: Some(Ok(None)), ..self }
                        },
                        Reply::Bit(bit) => if self.stage == Stage::Bit {
                            SearchView { stage: Stage::Complement, first: bit, ..self }
                        } else {
                            match spec_decide(self.prior, self.index, self.first, bit) {
                                None => SearchView {
                                    outcome: Some(Err(Error::UnexpectedResponse)),
                                    ..self
                                },
                                Some(choice) => SearchView {
                                    stage: Stage::Direction,
                                    direction: choice.direction,
                                    progress: self.progress.record(self.index, choice),
                                    ..self
                                },
                            }
                        },
                        Reply::Done => if self.stage == Stage::Command {
                            if self.index < 7 {
                                SearchView { index: (self.index + 1) as u8, ..self }
                            } else {
                                SearchView { stage: Stage::Bit, index: 0, ..self }
                            }
                        } else {
                            if self.index < 63 {
                                SearchView {
                                    stage: Stage::Bit,
                                    index: (self.index + 1) as u8,
                                    ..self
                                }
                            } else {
                                SearchView {
                                    outcome: Some(spec_conclude(self.progress)),
                                    ..self
                                }
                            }
                        },
                    }
                }
            },
        }
    }

    /// The search is consistent: it resumes a state that can be resumed from,
    /// it stands at a bit that exists, and what it has assembled of its own
    /// state is in order up to that bit.
    pub open spec fn wf(self) -> bool {
        &&& self.prior matches Some(p) ==> p.wf()
        &&& self.progress.wf()
        &&& match self.stage {
            Stage::Reset => self.progress == SearchState::blank(),
            Stage::Command => self.index < 8 && self.progress == SearchState::blank(),
            Stage::Bit | Stage::Complement => self.index < 64 && (self.progress.discrepancies == 0
                || self.progress.last_discrepancy_index < self.index),
            Stage::Direction => self.index < 64 && self.progress.last_discrepancy_index
                <= self.index,
        }
        &&& self.outcome matches Some(Ok(Some(found))) ==> found.1.wf() && found.0.0
            == found.1.address && found.0.spec_is_valid()
    }
}

impl View for Search {
    type V = SearchView;

    closed spec fn view(&self) -> SearchView {
        SearchView {
            prior: self.prior,
            alarm_only: self.alarm_only,
            stage: self.stage,
            index: self.index,
            first: self.first,
            progress: self.progress,
            direction: self.direction,
            outcome: self.outcome,
        }
    }
}

proof fn lemma_record_keeps_order(progress: SearchState, index: u8, choice: Choice)
    requires
        progress.wf(),
        index < 64,
        progress.discrepancies == 0 || progress.last_discrepancy_index < index,
    ensures
        progress.record(index, choice).wf(),
        progress.record(index, choice).last_discrepancy_index <= index,
{
    let d: u64 = progress.discrepancies;
    let last: u8 = progress.last_discrepancy_index;
    assert((d | (1u64 << index)) >> index == 1 && (d | (1u64 << index)) != 0) by (bit_vector)
        requires
            index < 64,
            last < 64,
            d == 0 || (d >> last == 1 && last < index),
    ;
}

fn decide(prior: Option<SearchState>, index: u8, bit: bool, complement: bool) -> (choice: Option<
    Choice,
>)
    requires
        index < 64,
    ensures
        choice == spec_decide(prior, index, bit, complement),
{
    match prior {
        Some(earlier) => {
            if index < earlier.last_discrepancy_index {
                return Some(
                    Choice {
                        direction: (earlier.address >> index) & 1 == 1,
                        unexplored: (earlier.discrepancies >> index) & 1 == 1,
                    },
                );
            }
            if index == earlier.last_discrepancy_index {
                if !bit && !complement {
                    return Some(Choice { direction: true, unexplored: false });
                } else {
                    return None;
                }
            }
        },
        None => {},
    }
    if bit && complement {
        None
    } else if !bit && !complement {
        Some(Choice { direction: false, unexplored: true })
    } else {
        Some(Choice { direction: bit, unexplored: false })
    }
}

fn record(progress: SearchState, index: u8, choice: Choice) -> (next: SearchState)
    requires
        index < 64,
    ensures
        next == progress.record(index, choice),
{
    SearchState {
        address: if choice.direction {
            progress.address | (1u64 << index)
        } else {
            progress.address
        },
        discrepancies: if choice.unexplored {
            progress.discrepancies | (1u64 << index)
        } else {
            progress.discrepancies
        },
        last_discrepancy_index: if choice.unexplored {
            index
        } else {
            progress.last_discrepancy_index
        },
    }
}

fn conclude(progress: SearchState) -> (report: Result<Option<(Address, SearchState)>, Error>)
    ensures
        report == spec_conclude(progress),
{
    let address: Address = Address(progress.address);
    if address.is_valid() {
        Ok(Some((address, progress)))
    } else {
        Err(Error::CrcMismatch)
    }
}

impl Search {
    /// Plans a search: the first one with no state, a later one with the
    /// state that the search before it reported. With `alarm_only` only the
    /// devices whose alarm is raised take part.
    pub fn begin(prior: Option<SearchState>, alarm_only: bool) -> (search: Search)
        requires
            prior matches Some(p) ==> p.wf(),
        ensures
            search@ == SearchView::fresh(prior, alarm_only),
            search@.wf(),
    {
        let exhausted: bool = match prior {
            Some(earlier) => earlier.is_exhausted(),
            None => false,
        };
        Search {
            prior,
            alarm_only,
            stage: Stage::Reset,
            index: 0,
            first: false,
            progress: SearchState { address: 0, discrepancies: 0, last_discrepancy_index: 0 },
            direction: false,
            outcome: if exhausted {
                Some(Ok(None))
            } else {
                None
            },
        }
    }

    /// The action to perform next; `None` once the search has ended.
    pub fn pending(&self) -> (action: Option<Action>)
        requires
            self@.wf(),
        ensures
            action == self@.pending(),
    {
        if self.outcome.is_some() {
            return None;
        }
        Some(
            match self.stage {
                Stage::Reset => Action::Reset,
                Stage::Command => {
                    let command: u8 = if self.alarm_only {
                        SEARCH_ALARM
                    } else {
                        SEARCH_NORMAL
                    };
                    Action::WriteBit(bit_at(command, self.index))
                },
                Stage::Bit => Action::ReadBit,
                Stage::Complement => Action::ReadBit,
                Stage::Direction => Action::WriteBit(self.direction),
            },
        )
    }

    /// Whether the search has ended.
    pub fn is_finished(&self) -> (finished: bool)
        ensures
            finished == (self@.outcome is Some),
            finished == (self@.pending() is None),
    {
        self.outcome.is_some()
    }

    /// Takes the reply to the pending action.
    pub fn advance(&mut self, reply: Reply)
        requires
            old(self)@.wf(),
        ensures
            final(self)@.wf(),
            final(self)@ == old(self)@.step(reply),
    {
        match self.pending() {
            None => {},
            Some(action) => {
                if reply.answers(action) {
                    match reply {
                        Reply::Fault => {
                            self.outcome = Some(Err(Error::BusError));
                        },
                        Reply::Presence(present) => {
                            if present {
                                self.stage = Stage::Command;
                                self.index = 0;
                            } else {
                                self.outcome = Some(Ok(None));
                            }
                        },
                        Reply::Bit(bit) => {
                            if self.stage == Stage::Bit {
                                self.stage = Stage::Complement;
                                self.first = bit;
                            } else {
                                match decide(self.prior, self.index, self.first, bit) {
                                    None => {
                                        self.outcome = Some(Err(Error::UnexpectedResponse));
                                    },
                                    Some(choice) => {
                                        proof {
                                            lemma_record_keeps_order(
                                                self.progress,
                                                self.index,
                                                choice,
                                            );
                                        }
                                        self.progress = record(self.progress, self.index, choice);
                                        self.direction = choice.direction;
                                        self.stage = Stage::Direction;
                                    },
                                }
                            }
                        },
                        Reply::Done => {
                            if self.stage == Stage::Command {
                                if self.index < 7 {
                                    self.index = self.index + 1;
                                } else {
                                    self.stage = Stage::Bit;
                                    self.index = 0;
                                }
                            } else {
                                if self.index < 63 {
                                    self.stage = Stage::Bit;
                                    self.index = self.index + 1;
                                } else {
                                    self.outcome = Some(conclude(self.progress));
                                }
                            }
                        },
                    }
                }
            },
        }
    }

    /// How the search ended: with a device and the state to resume from, with
    /// nothing found, or with an error. `None` while actions are still
    /// pending.
    pub fn outcome(&self) -> (outcome: Option<Result<Option<(Address, SearchState)>, Error>>)
        ensures
            outcome == self@.outcome,
    {
        self.outcome
    }
}

/// Whatever the bus replies, a consistent search stays consistent.
pub proof fn lemma_step_keeps_wf(search: SearchView, reply: Reply)
    requires
        search.wf(),
    ensures
        search.step(reply).wf(),
{
    if search.outcome is None && search.stage == Stage::Complement && reply is Bit {
        let choice = spec_decide(search.prior, search.index, search.first, reply->Bit_0);
        if choice is Some {
            lemma_record_keeps_order(search.progress, search.index, choice->0);
        }
    }
}

/// The search after a whole sequence of replies, each taken in turn.
pub open spec fn run(search: SearchView, replies: Seq<Reply>) -> SearchView
    decreases replies.len(),
{
    if replies.len() == 0 {
        search
    } else {
        run(search, replies.drop_last()).step(replies.last())
    }
}

/// A search that has ended does not change any more.
pub proof fn lemma_finished_stays(search: SearchView, replies: Seq<Reply>)
    requires
        search.outcome is Some,
    ensures
        run(search, replies) == search,
    decreases replies.len(),
{
    if replies.len() > 0 {
        lemma_finished_stays(search, replies.drop_last());
    }
}

/// On an empty bus a search finds nothing, reports no error, and sends
/// nothing: after the unanswered reset no action is pending, whatever replies
/// are still handed in.
pub proof fn lemma_empty_bus_finds_nothing(search: SearchView, later: Seq<Reply>)
    requires
        search.pending() == Some(Action::Reset),
    ensures
        run(search.step(Reply::Presence(false)), later).outcome == Some(
            Ok::<Option<(Address, SearchState)>, Error>(None),
        ),
        run(search.step(Reply::Presence(false)), later).pending() is None,
{
    lemma_finished_stays(search.step(Reply::Presence(false)), later);
}

/// A search resumed from a state that leaves nothing unexplored finds nothing
/// and never touches the bus.
pub proof fn lemma_exhausted_search_is_silent(state: SearchState, alarm_only: bool)
    requires
        state.exhausted(),
    ensures
        SearchView::fresh(Some(state), alarm_only).pending() is None,
        SearchView::fresh(Some(state), alarm_only).outcome == Some(
            Ok::<Option<(Address, SearchState)>, Error>(None),
        ),
{
}

} // verus!
