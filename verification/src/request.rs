//! What a procedure asks of the bus, one operation at a time.
//!
//! A procedure such as a [`Survey`](crate::survey::Survey) decides what is
//! to happen; it performs nothing. It names a [`Request`], whoever drives the
//! bus carries it out, and the [`Completion`] tells the procedure how that
//! went.

use crate::address::Address;
use crate::error::Error;
use crate::resolution::Resolution;
use crate::scratchpad::SensorData;
use crate::search::SearchState;
use vstd::prelude::*;

verus! {

/// On what occasion a sensor was read.
#[derive(Clone, Copy, Debug, PartialEq, Eq, Structural)]
pub enum Occasion {
    /// In the course of a survey.
    Survey,
    /// Before anything was written to the sensor.
    Initial,
    /// After new thresholds were written to its scratchpad.
    Written,
    /// After its scratchpad was saved to the EEPROM and loaded from it again.
    Recalled,
}

/// What a sensor was found to hold, or why it could not be read.
#[derive(Clone, Copy, Debug)]
pub struct Reading {
    pub occasion: Occasion,
    pub address: Address,
    pub data: Result<SensorData, Error>,
}

/// What a procedure wants done next.
#[derive(Clone, Copy, Debug)]
pub enum Request {
    /// Start a conversion on all sensors at once.
    StartConversion,
    /// Let this many milliseconds pass.
    Wait(u16),
    /// Search for the next device, resuming from this state if there is one.
    Search(Option<SearchState>),
    /// Read the scratchpad of the sensor at this address.
    Read(Address),
    /// Write thresholds and resolution to the scratchpad of the sensor at
    /// this address.
    SetConfig { address: Address, alarm_temp_low: i8, alarm_temp_high: i8, resolution: Resolution },
    /// Save the scratchpad of the sensor at this address to its EEPROM.
    SaveToEeprom(Address),
    /// Load the scratchpad of the sensor at this address from its EEPROM.
    RecallFromEeprom(Address),
    /// Hand this reading to whoever started the procedure.
    Report(Reading),
    /// Nothing: the procedure is over, and this is how it went.
    Finish(Result<(), Error>),
}

/// What became of a request.
#[derive(Clone, Copy, Debug)]
pub enum Completion {
    /// A command was sent, or could not be.
    Command(Result<(), Error>),
    /// The time has passed.
    Waited,
    /// A search has ended.
    Searched(Result<Option<(Address, SearchState)>, Error>),
    /// A scratchpad was read and decoded, or could not be.
    Read(Result<SensorData, Error>),
    /// The reading was handed on.
    Reported,
}

impl Request {
    /// A search state that comes with the request is one to resume from.
    pub open spec fn wf(self) -> bool {
        self matches Request::Search(Some(state)) ==> state.wf()
    }

    /// Whether the request is a command that a sensor does not answer.
    pub open spec fn is_command(self) -> bool {
        self is StartConversion || self is SetConfig || self is SaveToEeprom
            || self is RecallFromEeprom
    }
}

impl Completion {
    /// Whether this is what can become of `request`.
    pub open spec fn answers(self, request: Request) -> bool {
        match self {
            Completion::Command(_) => request.is_command(),
            Completion::Waited => request is Wait,
            Completion::Searched(_) => request is Search,
            Completion::Read(_) => request is Read,
            Completion::Reported => request is Report,
        }
    }

    /// A search state that comes with the completion is one to resume from.
    pub open spec fn wf(self) -> bool {
        self matches Completion::Searched(Ok(Some(found))) ==> found.1.wf()
    }

    /// The error that the completion brings, if it brings one.
    pub open spec fn error(self) -> Option<Error> {
        match self {
            Completion::Command(Err(error)) => Some(error),
            Completion::Searched(Err(error)) => Some(error),
            Completion::Read(Err(error)) => Some(error),
            _ => None,
        }
    }
}

} // verus!
