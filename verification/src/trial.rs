//! Trying out the configuration memory of a sensor.
//!
//! A [`ConfigTrial`] takes the first device on the bus, which must be a
//! thermal sensor, and leads it through the life of a configuration: it reads
//! what the sensor holds, writes new alarm thresholds beside the resolution
//! that the sensor already has, reads them back, saves them to the EEPROM,
//! loads them from there again, and reads once more. Each of the three
//! readings is reported. The first failure ends the trial.

use crate::address::{Address, DeviceKind};
use crate::error::Error;
use crate::request::{Completion, Occasion, Reading, Request};
use crate::resolution::Resolution;
use crate::scratchpad::SensorData;
use vstd::prelude::*;

verus! {

/// The thresholds that a trial writes.
#[derive(Clone, Copy, Debug, PartialEq, Eq, Structural)]
pub struct Thresholds {
    pub alarm_temp_low: i8,
    pub alarm_temp_high: i8,
}

/// What a trial is about to do.
#[derive(Clone, Copy, Debug)]
pub enum Step {
    /// To search for the first device.
    Finding,
    /// To read the sensor.
    Reading(Address, Occasion),
    /// To report what was read.
    Reporting(Address, SensorData, Occasion),
    /// To write the thresholds, with this resolution.
    Writing(Address, Resolution),
    /// To save the scratchpad to the EEPROM.
    Saving(Address),
    /// To load the scratchpad from the EEPROM.
    Recalling(Address),
    /// Nothing more.
    Done(Result<(), Error>),
}

/// A trial of one sensor's configuration memory.
#[derive(Clone, Copy, Debug)]
pub struct ConfigTrial {
    pub thresholds: Thresholds,
    pub step: Step,
}

impl ConfigTrial {
    /// What the trial wants done next.
    pub open spec fn spec_request(self) -> Request {
        match self.step {
            Step::Finding => Request::Search(None),
            Step::Reading(address, _) => Request::Read(address),
            Step::Reporting(address, data, occasion) => Request::Report(
                Reading { occasion, address, data: Ok(data) },
            ),
            Step::Writing(address, resolution) => Request::SetConfig {
                address,
                alarm_temp_low: self.thresholds.alarm_temp_low,
                alarm_temp_high: self.thresholds.alarm_temp_high,
                resolution,
            },
            Step::Saving(address) => Request::SaveToEeprom(address),
            Step::Recalling(address) => Request::RecallFromEeprom(address),
            Step::Done(result) => Request::Finish(result),
        }
    }

    /// What follows a step that went well.
    ///
    /// On an empty bus there is nothing to try, and the trial is over without
    /// error. A first device that is no thermal sensor ends it with
    /// `UnexpectedDevice`. What was read is reported. After the first report
    /// the thresholds are written, with the resolution that was just read, so
    /// that the resolution stays as it is; after the second the scratchpad is
    /// saved and loaded again; the third ends the trial.
    pub open spec fn proceed(self, completion: Completion) -> Step {
        match self.step {
            Step::Finding => match completion->Searched_0 {
                Ok(Some(found)) => if found.0.spec_kind() == DeviceKind::Thermometer {
                    Step::Reading(found.0, Occasion::Initial)
                } else {
                    Step::Done(Err(Error::UnexpectedDevice))
                },
                _ => Step::Done(Ok(())),
            },
            Step::Reading(address, occasion) => match completion->Read_0 {
                Ok(data) => Step::Reporting(address, data, occasion),
                Err(error) => Step::Done(Err(error)),
            },
            Step::Reporting(address, data, occasion) => match occasion {
                Occasion::Initial => Step::Writing(address, data.resolution),
                Occasion::Written => Step::Saving(address),
                _ => Step::Done(Ok(())),
            },
            Step::Writing(address, _) => Step::Reading(address, Occasion::Written),
            Step::Saving(address) => Step::Recalling(address),
            Step::Recalling(address) => Step::Reading(address, Occasion::Recalled),
            Step::Done(_) => self.step,
        }
    }

    /// The trial after its request was completed in this way.
    ///
    /// A trial that is over stays as it is, and so does one that is handed
    /// what cannot become of its request. A completion that brings an error
    /// ends the trial with that error. Otherwise the trial goes on as
    /// [`proceed`](Self::proceed) says.
    pub open spec fn step(self, completion: Completion) -> ConfigTrial {
        if !completion.answers(self.spec_request()) {
            self
        } else {
            match completion.error() {
                Some(error) => ConfigTrial { step: Step::Done(Err(error)), ..self },
                None => ConfigTrial { step: self.proceed(completion), ..self },
            }
        }
    }

    /// A trial of which nothing has been done yet, and which is to write
    /// these thresholds.
    pub fn new(alarm_temp_low: i8, alarm_temp_high: i8) -> (trial: ConfigTrial)
        ensures
            trial.step == Step::Finding,
            trial.thresholds == (Thresholds { alarm_temp_low, alarm_temp_high }),
    {
        ConfigTrial {
            thresholds: Thresholds { alarm_temp_low, alarm_temp_high },
            step: Step::Finding,
        }
    }

    /// What the trial wants done next.
    pub fn request(&self) -> (request: Request)
        ensures
            request == self.spec_request(),
            request.wf(),
    {
        match self.step {
            Step::Finding => Request::Search(None),
            Step::Reading(address, _) => Request::Read(address),
            Step::Reporting(address, data, occasion) => Request::Report(
                Reading { occasion, address, data: Ok(data) },
            ),
            Step::Writing(address, resolution) => Request::SetConfig {
                address,
                alarm_temp_low: self.thresholds.alarm_temp_low,
                alarm_temp_high: self.thresholds.alarm_temp_high,
                resolution,
            },
            Step::Saving(address) => Request::SaveToEeprom(address),
            Step::Recalling(address) => Request::RecallFromEeprom(address),
            Step::Done(result) => Request::Finish(result),
        }
    }

    /// Takes what became of the request.
    pub fn advance(&mut self, completion: Completion)
        ensures
            *final(self) == old(self).step(completion),
    {
        let next: Step = match (self.step, completion) {
            (Step::Finding, Completion::Searched(searched)) => match searched {
                Err(error) => Step::Done(Err(error)),
                Ok(None) => Step::Done(Ok(())),
                Ok(Some(found)) => match found.0.kind() {
                    DeviceKind::Thermometer => Step::Reading(found.0, Occasion::Initial),
                    DeviceKind::Other(_) => Step::Done(Err(Error::UnexpectedDevice)),
                },
            },
            (Step::Reading(address, occasion), Completion::Read(read)) => match read {
                Ok(data) => Step::Reporting(address, data, occasion),
                Err(error) => Step::Done(Err(error)),
            },
            (Step::Reporting(address, data, occasion), Completion::Reported) => match occasion {
                Occasion::Initial => Step::Writing(address, data.resolution),
                Occasion::Written => Step::Saving(address),
                _ => Step::Done(Ok(())),
            },
            (Step::Writing(address, _), Completion::Command(sent)) => match sent {
                Ok(_) => Step::Reading(address, Occasion::Written),
                Err(error) => Step::Done(Err(error)),
            },
            (Step::Saving(address), Completion::Command(sent)) => match sent {
                Ok(_) => Step::Recalling(address),
                Err(error) => Step::Done(Err(error)),
            },
            (Step::Recalling(address), Completion::Command(sent)) => match sent {
                Ok(_) => Step::Reading(address, Occasion::Recalled),
                Err(error) => Step::Done(Err(error)),
            },
            (unchanged, _) => unchanged,
        };
        self.step = next;
    }
}

/// The trial after a whole sequence of completions, each taken in turn.
pub open spec fn run(trial: ConfigTrial, completions: Seq<Completion>) -> ConfigTrial
    decreases completions.len(),
{
    if completions.len() == 0 {
        trial
    } else {
        run(trial, completions.drop_last()).step(completions.last())
    }
}

/// The requests of a trial in which all goes well, in their order: what the
/// sensor is asked to take is the thresholds of the trial and the resolution
/// that it reported first, and each of the three readings is reported as it
/// was read.
pub proof fn lemma_trial_without_failure(
    trial: ConfigTrial,
    found: (Address, crate::search::SearchState),
    initial: SensorData,
    written: SensorData,
    recalled: SensorData,
)
    requires
        trial.step == Step::Finding,
        found.0.spec_kind() == DeviceKind::Thermometer,
    ensures
        ({
            let address = found.0;
            let t1 = trial.step(Completion::Searched(Ok(Some(found))));
            let t2 = t1.step(Completion::Read(Ok(initial)));
            let t3 = t2.step(Completion::Reported);
            let t4 = t3.step(Completion::Command(Ok(())));
            let t5 = t4.step(Completion::Read(Ok(written)));
            let t6 = t5.step(Completion::Reported);
            let t7 = t6.step(Completion::Command(Ok(())));
            let t8 = t7.step(Completion::Command(Ok(())));
            let t9 = t8.step(Completion::Read(Ok(recalled)));
            let t10 = t9.step(Completion::Reported);
            &&& t1.spec_request() == Request::Read(address)
            &&& t2.spec_request() == Request::Report(
                Reading { occasion: Occasion::Initial, address, data: Ok(initial) },
            )
            &&& t3.spec_request() == (Request::SetConfig {
                address,
                alarm_temp_low: trial.thresholds.alarm_temp_low,
                alarm_temp_high: trial.thresholds.alarm_temp_high,
                resolution: initial.resolution,
            })
            &&& t4.spec_request() == Request::Read(address)
            &&& t5.spec_request() == Request::Report(
                Reading { occasion: Occasion::Written, address, data: Ok(written) },
            )
            &&& t6.spec_request() == Request::SaveToEeprom(address)
            &&& t7.spec_request() == Request::RecallFromEeprom(address)
            &&& t8.spec_request() == Request::Read(address)
            &&& t9.spec_request() == Request::Report(
                Reading { occasion: Occasion::Recalled, address, data: Ok(recalled) },
            )
            &&& t10.spec_request() == Request::Finish(Ok(()))
        }),
{
}

/// The first failure ends the trial: whatever it was about to do, a
/// completion of that which brings an error leaves it over with that error,
/// and nothing that is handed in afterwards changes that.
pub proof fn lemma_trial_stops_at_first_failure(
    trial: ConfigTrial,
    completion: Completion,
    error: Error,
    later: Seq<Completion>,
)
    requires
        !(trial.step is Done),
        completion.answers(trial.spec_request()),
        completion.error() == Some(error),
    ensures
        run(trial.step(completion), later).spec_request() == Request::Finish(Err(error)),
    decreases later.len(),
{
    if later.len() > 0 {
        lemma_trial_stops_at_first_failure(trial, completion, error, later.drop_last());
    }
}

} // verus!
