//! From a request to the work on the bus, and from the work done to the
//! completion of the request.
//!
//! Whoever drives the bus needs to know only three things: how to perform a
//! single [`Action`](crate::bus::Action), how to let time pass, and where
//! to put a report. Which actions make up a request, and what their replies
//! mean for it, is said here.

use crate::address::{Address, FAMILY_CODE};
use crate::error::Error;
use crate::exchange::{Exchange, ExchangeView};
use crate::request::{Completion, Reading, Request};
use crate::scratchpad::{spec_config_payload, SCRATCHPAD_LEN};
use crate::search::{Search, SearchView};
use crate::sensor::{
    sensor_data, spec_frame, spec_sensor_data, start_simultaneous_temp_measurement, Sensor,
    CONVERT_TEMP, COPY_HOLD_MILLIS, COPY_SCRATCHPAD, READ_SCRATCHPAD, RECALL_EEPROM,
    RECALL_HOLD_MILLIS, WRITE_SCRATCHPAD,
};
use vstd::prelude::*;

verus! {

/// The work that a request comes to.
#[derive(Debug)]
pub enum Task {
    /// A command to run on the bus, to be completed by [`command_completion`].
    Command(Exchange),
    /// A scratchpad read to run on the bus, to be completed by
    /// [`read_completion`].
    Read(Exchange),
    /// A search to run on the bus, to be completed by [`search_completion`].
    Search(Search),
    /// Time to let pass, in milliseconds.
    Wait(u16),
    /// A reading to hand on.
    Report(Reading),
    /// No work: the request is completed as it stands. This is what comes of
    /// a request that names a device which is no thermal sensor.
    Settled(Completion),
    /// No work: the procedure is over.
    Finished(Result<(), Error>),
}

impl Request {
    /// The command that the request sends to one sensor, if it is such a
    /// request: the address of the sensor, the command byte, what goes with
    /// the command, and the pause after it.
    pub open spec fn sensor_command(self) -> Option<(Address, u8, Seq<u8>, u16)> {
        match self {
            Request::SetConfig { address, alarm_temp_low, alarm_temp_high, resolution } => Some(
                (
                    address,
                    WRITE_SCRATCHPAD,
                    spec_config_payload(alarm_temp_low, alarm_temp_high, resolution),
                    0,
                ),
            ),
            Request::SaveToEeprom(address) => Some(
                (address, COPY_SCRATCHPAD, Seq::empty(), COPY_HOLD_MILLIS),
            ),
            Request::RecallFromEeprom(address) => Some(
                (address, RECALL_EEPROM, Seq::empty(), RECALL_HOLD_MILLIS),
            ),
            _ => None,
        }
    }
}

/// Whether `task` is the work that `request` comes to.
///
/// A conversion is started with the broadcast command, a search is a search
/// among all devices, and what is asked of a sensor is the command of that
/// name, sent to its address. What is asked of a device that is no thermal
/// sensor is not sent at all: the request is completed with
/// `UnexpectedDevice`.
pub open spec fn is_task_for(task: Task, request: Request) -> bool {
    match request {
        Request::StartConversion => task matches Task::Command(exchange) && exchange@
            == ExchangeView::fresh(spec_frame(None, CONVERT_TEMP, Seq::empty()), 0, 0),
        Request::Wait(millis) => task matches Task::Wait(time) && time == millis,
        Request::Search(state) => task matches Task::Search(search) && search@
            == SearchView::fresh(state, false),
        Request::Read(address) => if address.spec_family_code() == FAMILY_CODE {
            task matches Task::Read(exchange) && exchange@ == ExchangeView::fresh(
                spec_frame(Some(address), READ_SCRATCHPAD, Seq::empty()),
                SCRATCHPAD_LEN as nat,
                0,
            )
        } else {
            task matches Task::Settled(Completion::Read(Err(Error::UnexpectedDevice)))
        },
        Request::Report(reading) => task matches Task::Report(handed) && handed == reading,
        Request::Finish(result) => task matches Task::Finished(how) && how == result,
        _ => {
            let (address, command, payload, hold_millis) = request.sensor_command()->0;
            if address.spec_family_code() == FAMILY_CODE {
                task matches Task::Command(exchange) && exchange@ == ExchangeView::fresh(
                    spec_frame(Some(address), command, payload),
                    0,
                    hold_millis,
                )
            } else {
                task matches Task::Settled(Completion::Command(Err(Error::UnexpectedDevice)))
            }
        },
    }
}

impl Task {
    /// The engines that the task holds are consistent.
    pub open spec fn wf(self) -> bool {
        match self {
            Task::Command(exchange) => exchange@.wf(),
            Task::Read(exchange) => exchange@.wf(),
            Task::Search(search) => search@.wf(),
            _ => true,
        }
    }
}

/// The work that a request comes to.
pub fn task_for(request: Request) -> (task: Task)
    requires
        request.wf(),
    ensures
        is_task_for(task, request),
        task.wf(),
{
    match request {
        Request::StartConversion => Task::Command(start_simultaneous_temp_measurement()),
        Request::Wait(millis) => Task::Wait(millis),
        Request::Search(state) => Task::Search(Search::begin(state, false)),
        Request::Read(address) => match Sensor::new(address) {
            Ok(sensor) => Task::Read(sensor.read_scratchpad()),
            Err(error) => Task::Settled(Completion::Read(Err(error))),
        },
        Request::SetConfig { address, alarm_temp_low, alarm_temp_high, resolution } => {
            match Sensor::new(address) {
                Ok(sensor) => Task::Command(
                    sensor.set_config(alarm_temp_low, alarm_temp_high, resolution),
                ),
                Err(error) => Task::Settled(Completion::Command(Err(error))),
            }
        },
        Request::SaveToEeprom(address) => match Sensor::new(address) {
            Ok(sensor) => Task::Command(sensor.save_to_eeprom()),
            Err(error) => Task::Settled(Completion::Command(Err(error))),
        },
        Request::RecallFromEeprom(address) => match Sensor::new(address) {
            Ok(sensor) => Task::Command(sensor.recall_from_eeprom()),
            Err(error) => Task::Settled(Completion::Command(Err(error))),
        },
        Request::Report(reading) => Task::Report(reading),
        Request::Finish(result) => Task::Finished(result),
    }
}

/// What a command that has ended means for the request: that it was sent, or
/// why it was not. `None` while the exchange has not ended.
pub fn command_completion(exchange: Exchange) -> (completion: Option<Completion>)
    requires
        exchange@.wf(),
    ensures
        completion == match exchange@.outcome() {
            None => None,
            Some(Ok(_)) => Some(Completion::Command(Ok(()))),
            Some(Err(error)) => Some(Completion::Command(Err(error))),
        },
{
    match exchange.into_outcome() {
        None => None,
        Some(Ok(_)) => Some(Completion::Command(Ok(()))),
        Some(Err(error)) => Some(Completion::Command(Err(error))),
    }
}

/// What a scratchpad read that has ended means for the request: the reading
/// that the scratchpad holds, or why there is none. `None` while the
/// exchange has not ended, and for an exchange that read no scratchpad.
pub fn read_completion(exchange: Exchange) -> (completion: Option<Completion>)
    requires
        exchange@.wf(),
    ensures
        completion == match spec_sensor_data(exchange@) {
            None => None,
            Some(data) => Some(Completion::Read(data)),
        },
{
    match sensor_data(exchange) {
        None => None,
        Some(data) => Some(Completion::Read(data)),
    }
}

/// What a search that has ended means for the request. `None` while the
/// search has not ended.
pub fn search_completion(search: &Search) -> (completion: Option<Completion>)
    requires
        search@.wf(),
    ensures
        completion == match search@.outcome {
            None => None,
            Some(outcome) => Some(Completion::Searched(outcome)),
        },
        completion matches Some(done) ==> done.wf(),
{
    match search.outcome() {
        None => None,
        Some(outcome) => Some(Completion::Searched(outcome)),
    }
}

} // verus!
