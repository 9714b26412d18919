//! Reading every sensor on the bus.
//!
//! A [`Survey`] starts a conversion on all sensors at once, lets the longest
//! conversion time pass, and then walks the bus: it searches for the next
//! device, skips what is no thermal sensor, reads each sensor's scratchpad
//! and reports what it holds. A sensor that cannot be read does not stop the
//! walk, but the survey as a whole has then failed: it ends with the error
//! of the first sensor that could not be read. The survey itself performs
//! nothing. It names one [`Request`] at a time and takes the [`Completion`]
//! of it.

use crate::address::{Address, DeviceKind};
use crate::enumeration::{
    all_valid, devices_before, lemma_sweep_finds_every_device_once, lemma_sweep_goes_in_order,
    sweep,
};
use crate::error::Error;
use crate::request::{Completion, Occasion, Reading, Request};
use crate::resolution::Resolution;
use crate::scratchpad::SensorData;
use crate::search::SearchState;
use vstd::prelude::*;

verus! {

/// A survey of the sensors on the bus, by what it is about to do.
///
/// While it walks the bus the survey keeps the error of the first sensor that
/// could not be read, if there was one: that error is how the survey ends.
#[derive(Clone, Copy, Debug)]
pub enum Survey {
    /// To start the conversion.
    Converting,
    /// To wait for the conversion.
    Settling,
    /// To search for the next device, from this state of the search.
    Searching(Option<SearchState>, Option<Error>),
    /// To read the sensor found last; the state is that of the search.
    Reading(Address, SearchState, Option<Error>),
    /// To report on the sensor read last.
    Reporting(Reading, SearchState, Option<Error>),
    /// Nothing more.
    Done(Result<(), Error>),
}

/// The first failure after one more sensor was read: the one known so far,
/// else that of this reading if it failed.
pub open spec fn spec_first_failure(failed: Option<Error>, data: Result<SensorData, Error>)
    -> Option<Error> {
    match failed {
        Some(first) => Some(first),
        None => match data {
            Err(error) => Some(error),
            Ok(_) => None,
        },
    }
}

/// How a survey ends that has come through the whole bus: with the first
/// failure, or well if there was none.
pub open spec fn spec_verdict(failed: Option<Error>) -> Result<(), Error> {
    match failed {
        Some(first) => Err(first),
        None => Ok(()),
    }
}

impl Survey {
    /// The time for which a survey lets the sensors convert: that of the
    /// finest resolution, which is enough for any.
    pub open spec fn settling_millis() -> u16 {
        Resolution::Bits12.spec_max_measurement_time_millis()
    }

    /// What the survey wants done next.
    pub open spec fn spec_request(self) -> Request {
        match self {
            Survey::Converting => Request::StartConversion,
            Survey::Settling => Request::Wait(Self::settling_millis()),
            Survey::Searching(state, _) => Request::Search(state),
            Survey::Reading(address, _, _) => Request::Read(address),
            Survey::Reporting(reading, _, _) => Request::Report(reading),
            Survey::Done(result) => Request::Finish(result),
        }
    }

    /// The error of the first sensor that could not be read so far, if any.
    pub open spec fn failed(self) -> Option<Error> {
        match self {
            Survey::Searching(_, failed) => failed,
            Survey::Reading(_, _, failed) => failed,
            Survey::Reporting(_, _, failed) => failed,
            _ => None,
        }
    }

    /// The survey after its request was completed in this way.
    ///
    /// A survey that is over stays as it is, and so does one that is handed
    /// what cannot become of its request. If the conversion cannot be started
    /// because no device answers the reset, the bus is empty and the survey
    /// is over without error; any other failure there ends it with that
    /// error. A device that is no thermal sensor is passed over. A sensor
    /// that cannot be read is reported with its error, and the survey goes
    /// on to the next device; but the first such error is kept. When a
    /// search finds no further device the survey is over: with the error
    /// that was kept, and without error only if every sensor was read. A
    /// search that fails ends the survey at once, with the error that was
    /// kept if there is one, else with its own.
    pub open spec fn step(self, completion: Completion) -> Survey {
        if !completion.answers(self.spec_request()) {
            self
        } else {
            match self {
                Survey::Converting => match completion->Command_0 {
                    Ok(_) => Survey::Settling,
                    Err(Error::NoPresencePulse) => Survey::Done(Ok(())),
                    Err(error) => Survey::Done(Err(error)),
                },
                Survey::Settling => Survey::Searching(None, None),
                Survey::Searching(_, failed) => match completion->Searched_0 {
                    Err(error) => Survey::Done(
                        Err(
                            match failed {
                                Some(first) => first,
                                None => error,
                            },
                        ),
                    ),
                    Ok(None) => Survey::Done(spec_verdict(failed)),
                    Ok(Some(found)) => if found.0.spec_kind() == DeviceKind::Thermometer {
                        Survey::Reading(found.0, found.1, failed)
                    } else {
                        Survey::Searching(Some(found.1), failed)
                    },
                },
                Survey::Reading(address, state, failed) => Survey::Reporting(
                    Reading { occasion: Occasion::Survey, address, data: completion->Read_0 },
                    state,
                    spec_first_failure(failed, completion->Read_0),
                ),
                Survey::Reporting(_, state, failed) => Survey::Searching(Some(state), failed),
                Survey::Done(_) => self,
            }
        }
    }

    /// The survey is consistent: it only resumes searches from states that
    /// can be resumed from, and it only reads thermal sensors.
    pub open spec fn wf(self) -> bool {
        match self {
            Survey::Searching(Some(state), _) => state.wf(),
            Survey::Reading(address, state, _) => state.wf() && address.spec_kind()
                == DeviceKind::Thermometer,
            Survey::Reporting(reading, state, _) => state.wf() && reading.address.spec_kind()
                == DeviceKind::Thermometer,
            _ => true,
        }
    }

    /// A survey of which nothing has been done yet.
    pub fn new() -> (survey: Survey)
        ensures
            survey == Survey::Converting,
            survey.wf(),
    {
        Survey::Converting
    }

    /// What the survey wants done next.
    pub fn request(&self) -> (request: Request)
        ensures
            request == self.spec_request(),
            self.wf() ==> request.wf(),
    {
        match self {
            Survey::Converting => Request::StartConversion,
            Survey::Settling => Request::Wait(Resolution::Bits12.max_measurement_time_millis()),
            Survey::Searching(state, _) => Request::Search(*state),
            Survey::Reading(address, _, _) => Request::Read(*address),
            Survey::Reporting(reading, _, _) => Request::Report(*reading),
            Survey::Done(result) => Request::Finish(*result),
        }
    }

    /// Takes what became of the request.
    pub fn advance(&mut self, completion: Completion)
        requires
            old(self).wf(),
            completion.wf(),
        ensures
            final(self).wf(),
            *final(self) == old(self).step(completion),
    {
        let next: Survey = match (*self, completion) {
            (Survey::Converting, Completion::Command(sent)) => match sent {
                Ok(_) => Survey::Settling,
                Err(Error::NoPresencePulse) => Survey::Done(Ok(())),
                Err(error) => Survey::Done(Err(error)),
            },
            (Survey::Settling, Completion::Waited) => Survey::Searching(None, None),
            (Survey::Searching(_, failed), Completion::Searched(searched)) => match searched {
                Err(error) => match failed {
                    Some(first) => Survey::Done(Err(first)),
                    None => Survey::Done(Err(error)),
                },
                Ok(None) => match failed {
                    Some(first) => Survey::Done(Err(first)),
                    None => Survey::Done(Ok(())),
                },
                Ok(Some(found)) => match found.0.kind() {
                    DeviceKind::Thermometer => Survey::Reading(found.0, found.1, failed),
                    DeviceKind::Other(_) => Survey::Searching(Some(found.1), failed),
                },
            },
            (Survey::Reading(address, state, failed), Completion::Read(data)) => {
                let first: Option<Error> = match (failed, data) {
                    (Some(first), _) => Some(first),
                    (None, Err(error)) => Some(error),
                    (None, Ok(_)) => None,
                };
                Survey::Reporting(
                    Reading { occasion: Occasion::Survey, address, data },
                    state,
                    first,
                )
            },
            (Survey::Reporting(_, state, failed), Completion::Reported) => Survey::Searching(
                Some(state),
                failed,
            ),
            (unchanged, _) => unchanged,
        };
        *self = next;
    }
}

/// The survey after a whole sequence of completions, each taken in turn.
pub open spec fn run(survey: Survey, completions: Seq<Completion>) -> Survey
    decreases completions.len(),
{
    if completions.len() == 0 {
        survey
    } else {
        run(survey, completions.drop_last()).step(completions.last())
    }
}

/// Whatever happens on the bus, a survey that starts from the beginning stays
/// consistent, and every device whose scratchpad it asks for or reports on is
/// a thermal sensor.
pub proof fn lemma_only_sensors_are_read(completions: Seq<Completion>)
    requires
        forall|i: int| 0 <= i < completions.len() ==> (#[trigger] completions[i]).wf(),
    ensures
        run(Survey::Converting, completions).wf(),
        run(Survey::Converting, completions).spec_request() matches Request::Read(address)
            ==> address.spec_kind() == DeviceKind::Thermometer,
        run(Survey::Converting, completions).spec_request() matches Request::Report(reading)
            ==> reading.address.spec_kind() == DeviceKind::Thermometer,
    decreases completions.len(),
{
    if completions.len() > 0 {
        lemma_only_sensors_are_read(completions.drop_last());
        assert(completions.last().wf());
    }
}

/// A sensor that cannot be read does not end the survey, and its error is
/// not lost. The error is reported for that sensor, the search goes on where
/// it stood, and when no further device is found the survey ends with the
/// error of the first sensor that failed.
pub proof fn lemma_failed_read_ends_survey_with_its_error(
    address: Address,
    state: SearchState,
    failed: Option<Error>,
    error: Error,
)
    ensures
        ({
            let read = Survey::Reading(address, state, failed).step(Completion::Read(Err(error)));
            let reported = read.step(Completion::Reported);
            let first = match failed {
                Some(first) => first,
                None => error,
            };
            &&& read.spec_request() == Request::Report(
                Reading { occasion: Occasion::Survey, address, data: Err(error) },
            )
            &&& reported == Survey::Searching(Some(state), Some(first))
            &&& reported.step(Completion::Searched(Ok(None))).spec_request() == Request::Finish(
                Err(first),
            )
        }),
{
}

/// A survey ends without error only if no sensor failed: whatever it is
/// about to do, once an error is kept, no completion brings it to a good
/// end.
pub proof fn lemma_kept_error_is_the_result(survey: Survey, completions: Seq<Completion>)
    requires
        survey.failed() is Some,
    ensures
        run(survey, completions).failed() == survey.failed() || run(survey, completions)
            == Survey::Done(Err(survey.failed()->0)),
    decreases completions.len(),
{
    if completions.len() > 0 {
        lemma_kept_error_is_the_result(survey, completions.drop_last());
    }
}

/// On an empty bus the survey is over at once and without error, whether the
/// reset of the conversion or that of the first search goes unanswered, and
/// no sensor is asked for anything.
pub proof fn lemma_empty_bus_ends_survey()
    ensures
        Survey::Converting.step(Completion::Command(Err(Error::NoPresencePulse)))
            == Survey::Done(Ok(())),
        Survey::Searching(None, None).step(Completion::Searched(Ok(None))) == Survey::Done(
            Ok(()),
        ),
{
}

/// The survey as it stands before its search number `n`, counted from zero,
/// on a bus with these devices, where reading the sensor at an address gives
/// `data` of that address. Every search finds what a search finds on such a
/// bus when it resumes the one before it.
pub open spec fn survey_before_search(
    devices: Set<u64>,
    data: spec_fn(Address) -> Result<SensorData, Error>,
    n: nat,
) -> Survey
    decreases n,
{
    if n == 0 {
        Survey::Converting.step(Completion::Command(Ok(()))).step(Completion::Waited)
    } else {
        let before = survey_before_search(devices, data, (n - 1) as nat);
        match sweep(devices, false, false, (n - 1) as nat) {
            Some(Ok(Some(found))) => {
                let searched = before.step(Completion::Searched(Ok(Some(found))));
                if searched is Reading {
                    searched.step(Completion::Read(data(found.0))).step(Completion::Reported)
                } else {
                    searched
                }
            },
            Some(ended) => before.step(Completion::Searched(ended)),
            None => before,
        }
    }
}

/// The state from which search number `n` of a sweep resumes.
pub open spec fn resumed_from(devices: Set<u64>, n: nat) -> Option<SearchState> {
    if n == 0 {
        None
    } else {
        match sweep(devices, false, false, (n - 1) as nat) {
            Some(Ok(Some(found))) => Some(found.1),
            _ => None,
        }
    }
}

/// Whether `device` is a thermal sensor among the devices that the first
/// `n` searches of a sweep find.
pub open spec fn sensor_among_first(devices: Set<u64>, device: u64, n: nat) -> bool {
    devices.contains(device) && Address(device).spec_kind() == DeviceKind::Thermometer
        && devices_before(devices, device).len() < n
}

/// The error of the first sensor that cannot be read among the devices that
/// the first `n` searches of a sweep find; none if each of them can.
pub open spec fn first_failure(
    devices: Set<u64>,
    data: spec_fn(Address) -> Result<SensorData, Error>,
    n: nat,
) -> Option<Error>
    decreases n,
{
    if n == 0 {
        None
    } else {
        let earlier = first_failure(devices, data, (n - 1) as nat);
        match sweep(devices, false, false, (n - 1) as nat) {
            Some(Ok(Some(found))) => if found.0.spec_kind() == DeviceKind::Thermometer {
                spec_first_failure(earlier, data(found.0))
            } else {
                earlier
            },
            _ => earlier,
        }
    }
}

/// As long as there are devices left, the survey asks for the searches of a
/// sweep, one after the other, whatever the sensors hold and whether they can
/// be read or not, and it keeps the first failure among the sensors found.
pub proof fn lemma_survey_sweeps(
    devices: Set<u64>,
    data: spec_fn(Address) -> Result<SensorData, Error>,
    n: nat,
)
    requires
        devices.finite(),
        all_valid(devices),
        n <= devices.len(),
    ensures
        survey_before_search(devices, data, n) == Survey::Searching(
            resumed_from(devices, n),
            first_failure(devices, data, n),
        ),
        survey_before_search(devices, data, n).wf(),
    decreases n,
{
    if n > 0 {
        lemma_survey_sweeps(devices, data, (n - 1) as nat);
        lemma_sweep_goes_in_order(devices, false, false, (n - 1) as nat);
    }
}

/// On a bus whose devices behave, a survey reads and reports every thermal
/// sensor once and passes over every other device.
///
/// The device that has `n` devices before it is found by search number `n`
/// of the survey, and by that search only. If it is a thermal sensor, the
/// survey then asks for its scratchpad and reports what it is given for it,
/// be that a reading or an error; if it is none, the survey asks for the next
/// search at once.
pub proof fn lemma_survey_reads_every_sensor_once(
    devices: Set<u64>,
    data: spec_fn(Address) -> Result<SensorData, Error>,
    device: u64,
)
    requires
        devices.finite(),
        all_valid(devices),
        devices.contains(device),
    ensures
        ({
            let n = devices_before(devices, device).len();
            let address = Address(device);
            let searching = survey_before_search(devices, data, n);
            let found = sweep(devices, false, false, n);
            let searched = searching.step(Completion::Searched(found->0));
            &&& n < devices.len()
            &&& searching.spec_request() == Request::Search(resumed_from(devices, n))
            &&& found matches Some(Ok(Some(hit))) && hit.0 == address
            &&& forall|m: nat|
                (#[trigger] sweep(devices, false, false, m) matches Some(Ok(Some(hit))) && hit.0
                    == address) ==> m == n
            &&& address.spec_kind() == DeviceKind::Thermometer ==> {
                &&& searched.spec_request() == Request::Read(address)
                &&& searched.step(Completion::Read(data(address))).spec_request()
                    == Request::Report(
                    Reading { occasion: Occasion::Survey, address, data: data(address) },
                )
            }
            &&& address.spec_kind() != DeviceKind::Thermometer ==> searched.spec_request()
                is Search
            &&& survey_before_search(devices, data, n + 1).spec_request() == Request::Search(
                resumed_from(devices, n + 1),
            )
        }),
{
    broadcast use vstd::set::group_set_axioms;

    let n = devices_before(devices, device).len();
    lemma_sweep_finds_every_device_once(devices, false, false, device);
    lemma_sweep_goes_in_order(devices, false, false, n);
    lemma_survey_sweeps(devices, data, n);
    lemma_survey_sweeps(devices, data, n + 1);
}

/// What the first failure among the devices of the first `n` searches is:
/// there is none exactly if every sensor among them can be read, and if
/// there is one, it is the error of a sensor among them before which every
/// sensor can be read.
pub proof fn lemma_first_failure(
    devices: Set<u64>,
    data: spec_fn(Address) -> Result<SensorData, Error>,
    n: nat,
)
    requires
        devices.finite(),
        all_valid(devices),
        n <= devices.len(),
    ensures
        first_failure(devices, data, n) is None <==> forall|d: u64| #[trigger]
            sensor_among_first(devices, d, n) ==> data(Address(d)) is Ok,
        first_failure(devices, data, n) matches Some(error) ==> exists|d: u64|
            #![trigger sensor_among_first(devices, d, n)]
            sensor_among_first(devices, d, n) && data(Address(d)) == Err::<SensorData, Error>(
                error,
            ) && forall|e: u64| #[trigger]
                sensor_among_first(devices, e, devices_before(devices, d).len()) ==> data(
                    Address(e),
                ) is Ok,
    decreases n,
{
    if n > 0 {
        let m = (n - 1) as nat;
        lemma_first_failure(devices, data, m);
        lemma_sweep_goes_in_order(devices, false, false, m);
        let found = sweep(devices, false, false, m)->0->Ok_0->0;
        let here = found.0.0;
        let earlier = first_failure(devices, data, m);
        assert(devices.contains(here) && devices_before(devices, here).len() == m);
        // Every device among the first `n` is among the first `m` or is the
        // one found by search `m`.
        assert forall|d: u64| sensor_among_first(devices, d, n) implies sensor_among_first(
            devices,
            d,
            m,
        ) || d == here by {
            if devices_before(devices, d).len() == m {
                lemma_sweep_finds_every_device_once(devices, false, false, d);
            }
        }
        match earlier {
            Some(error) => {
                let d = choose|d: u64|
                    #![trigger sensor_among_first(devices, d, m)]
                    sensor_among_first(devices, d, m) && data(Address(d)) == Err::<
                        SensorData,
                        Error,
                    >(error) && forall|e: u64| #[trigger]
                        sensor_among_first(devices, e, devices_before(devices, d).len())
                            ==> data(Address(e)) is Ok;
                assert(sensor_among_first(devices, d, n));
            },
            None => {
                if found.0.spec_kind() == DeviceKind::Thermometer && data(found.0) is Err {
                    assert(sensor_among_first(devices, here, n));
                    assert(forall|e: u64| #[trigger]
                        sensor_among_first(devices, e, m) ==> data(Address(e)) is Ok);
                } else {
                    assert forall|d: u64| #[trigger]
                        sensor_among_first(devices, d, n) implies data(Address(d)) is Ok by {
                        if !sensor_among_first(devices, d, m) {
                            assert(d == here);
                        }
                    }
                }
            },
        }
    }
}

/// When every device has been found the survey is over. It ends without
/// error exactly if every thermal sensor on the bus could be read, and else
/// with the error of the first sensor that could not: a reading that failed
/// never ends in a survey that went well.
pub proof fn lemma_survey_ends_after_last_device(
    devices: Set<u64>,
    data: spec_fn(Address) -> Result<SensorData, Error>,
)
    requires
        devices.finite(),
        all_valid(devices),
    ensures
        survey_before_search(devices, data, devices.len() + 1) == Survey::Done(
            spec_verdict(first_failure(devices, data, devices.len())),
        ),
        survey_before_search(devices, data, devices.len() + 1) == Survey::Done(Ok(()))
            <==> forall|d: u64|
            devices.contains(d) && Address(d).spec_kind() == DeviceKind::Thermometer ==> (
            #[trigger] data(Address(d))) is Ok,
{
    let all = devices.len();
    lemma_survey_sweeps(devices, data, all);
    lemma_sweep_goes_in_order(devices, false, false, all);
    lemma_first_failure(devices, data, all);
    assert forall|d: u64|
        devices.contains(d) && Address(d).spec_kind()
            == DeviceKind::Thermometer implies sensor_among_first(devices, d, all) by {
        lemma_survey_reads_every_sensor_once(devices, data, d);
    }
    if first_failure(devices, data, all) is None {
        assert forall|d: u64|
            devices.contains(d) && Address(d).spec_kind()
                == DeviceKind::Thermometer implies (#[trigger] data(Address(d))) is Ok by {
            assert(sensor_among_first(devices, d, all));
        }
    }
}

} // verus!
