//! The protocol against a bus of simulated devices.

use onewire_temp::address::Address;
use onewire_temp::bus::{Action, Reply};
use onewire_temp::crc::crc8;
use onewire_temp::error::Error;
use onewire_temp::exchange::Exchange;
use onewire_temp::request::{Completion, Occasion, Reading, Request};
use onewire_temp::resolution::Resolution;
use onewire_temp::scratchpad::SensorData;
use onewire_temp::search::{Search, SearchState};
use onewire_temp::sensor::{sensor_data, start_simultaneous_temp_measurement, Sensor};
use onewire_temp::survey::Survey;
use onewire_temp::task::{command_completion, read_completion, search_completion, task_for, Task};
use onewire_temp::trial::ConfigTrial;

/// What a simulated device is in the middle of.
#[derive(Clone, Debug)]
enum Mode {
    Idle,
    RomCommand(Vec<bool>),
    Searching { index: u32, phase: u8 },
    Matching(u32),
    Function(Vec<bool>),
    Sending { bytes: Vec<u8>, slot: usize },
    Receiving(Vec<bool>),
}

#[derive(Clone, Debug)]
struct Device {
    rom: u64,
    memory: [u8; 8],
    eeprom: [u8; 3],
    alarm: bool,
    next_measurement: u16,
    corrupt_byte: Option<usize>,
    /// Set while the device still loads its scratchpad from the EEPROM.
    loading: bool,
    mode: Mode,
}

fn byte_of_bits(bits: &[bool]) -> u8 {
    let mut byte = 0u8;
    for (i, bit) in bits.iter().enumerate() {
        if *bit {
            byte |= 1 << i;
        }
    }
    byte
}

impl Device {
    fn new(rom: u64) -> Device {
        Device {
            rom,
            // A sensor powers up reading 85 degrees, at 12 bits.
            memory: [0x50, 0x05, 0x4B, 0x46, 0x7F, 0xFF, 0x0C, 0x10],
            eeprom: [0x4B, 0x46, 0x7F],
            alarm: false,
            next_measurement: 0x0191,
            corrupt_byte: None,
            loading: false,
            mode: Mode::Idle,
        }
    }

    fn rom_bit(&self, index: u32) -> bool {
        (self.rom >> index) & 1 == 1
    }

    fn scratchpad(&self) -> Vec<u8> {
        let mut image = self.memory.to_vec();
        image.push(crc8(&self.memory));
        if let Some(at) = self.corrupt_byte {
            image[at] ^= 0x10;
        }
        image
    }

    fn reset(&mut self) {
        self.mode = Mode::RomCommand(Vec::new());
    }

    /// The bus is left alone for a while.
    fn rest(&mut self, millis: u16) {
        if self.loading && millis >= 10 {
            self.memory[2..5].copy_from_slice(&self.eeprom);
            self.loading = false;
        }
    }

    fn function(&mut self, command: u8) {
        self.mode = Mode::Idle;
        match command {
            0x44 => {
                let raw = self.next_measurement.to_le_bytes();
                self.memory[0] = raw[0];
                self.memory[1] = raw[1];
            }
            0xBE => self.mode = Mode::Sending { bytes: self.scratchpad(), slot: 0 },
            0x4E => self.mode = Mode::Receiving(Vec::new()),
            0x48 => self.eeprom.copy_from_slice(&self.memory[2..5]),
            0xB8 => self.loading = true,
            _ => {}
        }
    }

    /// The master sends a bit.
    fn hear(&mut self, bit: bool) {
        let mode = std::mem::replace(&mut self.mode, Mode::Idle);
        self.mode = match mode {
            Mode::RomCommand(mut bits) => {
                bits.push(bit);
                if bits.len() < 8 {
                    Mode::RomCommand(bits)
                } else {
                    match byte_of_bits(&bits) {
                        0xF0 => Mode::Searching { index: 0, phase: 0 },
                        0xEC if self.alarm => Mode::Searching { index: 0, phase: 0 },
                        0x55 => Mode::Matching(0),
                        0xCC => Mode::Function(Vec::new()),
                        _ => Mode::Idle,
                    }
                }
            }
            Mode::Searching { index, phase: 2 } => {
                if bit != self.rom_bit(index) || index == 63 {
                    Mode::Idle
                } else {
                    Mode::Searching { index: index + 1, phase: 0 }
                }
            }
            Mode::Matching(index) => {
                if bit != self.rom_bit(index) {
                    Mode::Idle
                } else if index == 63 {
                    Mode::Function(Vec::new())
                } else {
                    Mode::Matching(index + 1)
                }
            }
            Mode::Function(mut bits) => {
                bits.push(bit);
                if bits.len() < 8 {
                    Mode::Function(bits)
                } else {
                    self.function(byte_of_bits(&bits));
                    return;
                }
            }
            Mode::Receiving(mut bits) => {
                bits.push(bit);
                if bits.len() % 8 == 0 {
                    let at = bits.len() / 8 - 1;
                    self.memory[2 + at] = byte_of_bits(&bits[8 * at..]);
                }
                if bits.len() < 24 {
                    Mode::Receiving(bits)
                } else {
                    Mode::Idle
                }
            }
            other => other,
        };
    }

    /// The master opens a read slot: `false` if this device pulls the line low.
    fn speak(&mut self) -> bool {
        let mode = std::mem::replace(&mut self.mode, Mode::Idle);
        let (level, next) = match mode {
            Mode::Searching { index, phase: 0 } => {
                (self.rom_bit(index), Mode::Searching { index, phase: 1 })
            }
            Mode::Searching { index, phase: 1 } => {
                (!self.rom_bit(index), Mode::Searching { index, phase: 2 })
            }
            Mode::Sending { bytes, slot } => {
                if slot < 8 * bytes.len() {
                    let level = (bytes[slot / 8] >> (slot % 8)) & 1 == 1;
                    (level, Mode::Sending { bytes, slot: slot + 1 })
                } else {
                    (true, Mode::Idle)
                }
            }
            other => (true, other),
        };
        self.mode = next;
        level
    }
}

/// A bus with its devices, and a record of everything done on it.
struct Bus {
    devices: Vec<Device>,
    trace: Vec<Action>,
    stuck_low: bool,
}

impl Bus {
    fn with_roms(roms: &[u64]) -> Bus {
        Bus { devices: roms.iter().map(|rom| Device::new(*rom)).collect(), trace: Vec::new(), stuck_low: false }
    }

    fn perform(&mut self, action: Action) -> Reply {
        self.trace.push(action);
        if self.stuck_low {
            return Reply::Fault;
        }
        match action {
            Action::Reset => {
                for device in self.devices.iter_mut() {
                    device.reset();
                }
                Reply::Presence(!self.devices.is_empty())
            }
            Action::WriteBit(bit) => {
                for device in self.devices.iter_mut() {
                    device.hear(bit);
                }
                Reply::Done
            }
            Action::ReadBit => {
                let mut level = true;
                for device in self.devices.iter_mut() {
                    level &= device.speak();
                }
                Reply::Bit(level)
            }
            Action::Delay(millis) => {
                for device in self.devices.iter_mut() {
                    device.rest(millis);
                }
                Reply::Done
            }
        }
    }

    fn run_exchange(&mut self, mut exchange: Exchange) -> Exchange {
        while let Some(action) = exchange.pending() {
            let reply = self.perform(action);
            exchange.advance(reply);
        }
        exchange
    }

    fn command(&mut self, exchange: Exchange) -> Result<(), Error> {
        self.run_exchange(exchange).into_outcome().expect("the exchange has ended").map(|_| ())
    }

    fn read(&mut self, sensor: &Sensor) -> Result<SensorData, Error> {
        let exchange = self.run_exchange(sensor.read_scratchpad());
        sensor_data(exchange).expect("the exchange read a scratchpad")
    }

    fn search(
        &mut self,
        state: Option<SearchState>,
        alarm_only: bool,
    ) -> Result<Option<(Address, SearchState)>, Error> {
        let mut search = Search::begin(state, alarm_only);
        while let Some(action) = search.pending() {
            let reply = self.perform(action);
            search.advance(reply);
        }
        search.outcome().expect("the search has ended")
    }

    fn all_addresses(&mut self, alarm_only: bool) -> Vec<u64> {
        let mut found = Vec::new();
        let mut state = None;
        while let Some((address, next)) = self.search(state, alarm_only).expect("search") {
            found.push(address.0);
            state = Some(next);
        }
        found
    }

    fn carry_out(&mut self, request: Request, reported: &mut Vec<Reading>) -> Completion {
        let completion = match task_for(request) {
            Task::Command(exchange) => command_completion(self.run_exchange(exchange)),
            Task::Read(exchange) => read_completion(self.run_exchange(exchange)),
            Task::Search(mut search) => {
                while let Some(action) = search.pending() {
                    let reply = self.perform(action);
                    search.advance(reply);
                }
                search_completion(&search)
            }
            Task::Wait(millis) => {
                self.perform(Action::Delay(millis));
                Some(Completion::Waited)
            }
            Task::Report(reading) => {
                reported.push(reading);
                Some(Completion::Reported)
            }
            Task::Settled(completion) => Some(completion),
            Task::Finished(_) => None,
        };
        completion.expect("the work was done to its end")
    }

    fn survey(&mut self) -> (Result<(), Error>, Vec<Reading>) {
        let mut reported = Vec::new();
        let mut survey = Survey::new();
        loop {
            match survey.request() {
                Request::Finish(result) => return (result, reported),
                request => {
                    let completion = self.carry_out(request, &mut reported);
                    survey.advance(completion);
                }
            }
        }
    }

    fn trial(&mut self, low: i8, high: i8) -> (Result<(), Error>, Vec<Reading>) {
        let mut reported = Vec::new();
        let mut trial = ConfigTrial::new(low, high);
        loop {
            match trial.request() {
                Request::Finish(result) => return (result, reported),
                request => {
                    let completion = self.carry_out(request, &mut reported);
                    trial.advance(completion);
                }
            }
        }
    }
}

/// An address with this family code and serial number, closed by its checksum.
fn rom(family: u8, serial: u64) -> u64 {
    let body = (family as u64) | (serial << 8);
    let bytes = body.to_le_bytes();
    body | ((crc8(&bytes[..7]) as u64) << 56)
}

fn bits_written(trace: &[Action]) -> Vec<bool> {
    trace
        .iter()
        .filter_map(|action| match action {
            Action::WriteBit(bit) => Some(*bit),
            _ => None,
        })
        .collect()
}

fn bytes_written(trace: &[Action]) -> Vec<u8> {
    bits_written(trace).chunks(8).map(byte_of_bits).collect()
}

#[test]
fn search_finds_each_device_once() {
    // The three serial numbers agree in their low bits, so that the search
    // meets collisions at several depths.
    let roms = [rom(0x28, 0x0000_0000_0001), rom(0x28, 0x0000_0000_0101), rom(0x28, 0x8000_0000_0001)];
    let mut bus = Bus::with_roms(&roms);
    let mut found = bus.all_addresses(false);
    assert_eq!(found.len(), 3);
    found.sort();
    let mut expected = roms.to_vec();
    expected.sort();
    assert_eq!(found, expected);
}

#[test]
fn search_order_does_not_depend_on_device_order() {
    let roms = [rom(0x28, 7), rom(0x10, 7), rom(0x28, 6), rom(0x28, 0xFFFF_FFFF_FFFF), rom(0x28, 0)];
    let mut forward = Bus::with_roms(&roms);
    let mut reversed: Vec<u64> = roms.to_vec();
    reversed.reverse();
    let mut backward = Bus::with_roms(&reversed);
    let found = forward.all_addresses(false);
    assert_eq!(found.len(), 5);
    assert_eq!(found, backward.all_addresses(false));
}

#[test]
fn search_comes_lowest_first_from_the_least_significant_bit() {
    // 0b01 and 0b10 in the family code: the device with the zero in bit 0 is
    // found first, although its address is the larger number.
    let roms = [rom(0x01, 0), rom(0x02, 0)];
    let mut bus = Bus::with_roms(&roms);
    assert_eq!(bus.all_addresses(false), vec![rom(0x02, 0), rom(0x01, 0)]);
}

#[test]
fn search_resumed_twice_from_one_state_finds_the_same_device() {
    let roms = [rom(0x28, 1), rom(0x28, 2), rom(0x28, 3)];
    let mut bus = Bus::with_roms(&roms);
    let (first, state) = bus.search(None, false).unwrap().unwrap();
    let (second, after_second) = bus.search(Some(state), false).unwrap().unwrap();
    let (again, after_again) = bus.search(Some(state), false).unwrap().unwrap();
    assert_ne!(first, second);
    assert_eq!(second, again);
    assert_eq!(after_second, after_again);
    let (third, last) = bus.search(Some(after_second), false).unwrap().unwrap();
    assert_ne!(third, first);
    assert_ne!(third, second);
    assert!(last.is_exhausted());
    assert_eq!(bus.search(Some(last), false), Ok(None));
}

#[test]
fn search_of_single_device_leaves_nothing_unexplored() {
    let only = rom(0x28, 0x1234_5678_9ABC);
    let mut bus = Bus::with_roms(&[only]);
    let (address, state) = bus.search(None, false).unwrap().unwrap();
    assert_eq!(address, Address(only));
    assert_eq!(state, SearchState { address: only, discrepancies: 0, last_discrepancy_index: 0 });
    let before = bus.trace.len();
    assert_eq!(bus.search(Some(state), false), Ok(None));
    assert_eq!(bus.trace.len(), before);
}

#[test]
fn search_state_records_the_collisions() {
    // Family codes 0x28 and 0x29 differ in bit 0 only.
    let roms = [rom(0x28, 5), rom(0x29, 5)];
    let differ = (roms[0] ^ roms[1]).trailing_zeros() as u8;
    assert_eq!(differ, 0);
    let mut bus = Bus::with_roms(&roms);
    let (address, state) = bus.search(None, false).unwrap().unwrap();
    assert_eq!(address.0, roms[0]);
    assert_eq!(state.discrepancies, 1);
    assert_eq!(state.last_discrepancy_index, 0);
    assert!(state.is_well_formed());
    let (address, state) = bus.search(Some(state), false).unwrap().unwrap();
    assert_eq!(address.0, roms[1]);
    assert_eq!(state.discrepancies, 0);
}

#[test]
fn search_on_empty_bus_finds_nothing() {
    let mut bus = Bus::with_roms(&[]);
    assert_eq!(bus.search(None, false), Ok(None));
    assert_eq!(bus.trace, vec![Action::Reset]);
    assert!(bus.all_addresses(false).is_empty());
}

#[test]
fn search_sends_its_command_byte() {
    let mut bus = Bus::with_roms(&[rom(0x28, 1)]);
    bus.search(None, false).unwrap();
    assert_eq!(bytes_written(&bus.trace)[0], 0xF0);
    let mut bus = Bus::with_roms(&[rom(0x28, 1)]);
    bus.devices[0].alarm = true;
    bus.search(None, true).unwrap();
    assert_eq!(bytes_written(&bus.trace)[0], 0xEC);
}

#[test]
fn alarm_search_finds_alarming_devices_only() {
    let roms = [rom(0x28, 1), rom(0x28, 2), rom(0x28, 3)];
    let mut bus = Bus::with_roms(&roms);
    bus.devices[1].alarm = true;
    assert_eq!(bus.all_addresses(true), vec![roms[1]]);
}

#[test]
fn alarm_search_without_alarms_is_an_unexpected_response() {
    // The devices answer the reset, but none takes part in the search.
    let mut bus = Bus::with_roms(&[rom(0x28, 1)]);
    assert_eq!(bus.search(None, true), Err(Error::UnexpectedResponse));
}

#[test]
fn search_rejects_address_with_bad_checksum() {
    let mut bus = Bus::with_roms(&[rom(0x28, 1) ^ (1 << 60)]);
    assert_eq!(bus.search(None, false), Err(Error::CrcMismatch));
}

#[test]
fn search_fails_when_device_vanishes() {
    let roms = [rom(0x28, 1), rom(0x28, 2)];
    let mut bus = Bus::with_roms(&roms);
    let (first, state) = bus.search(None, false).unwrap().unwrap();
    bus.devices.retain(|device| device.rom == first.0);
    assert_eq!(bus.search(Some(state), false), Err(Error::UnexpectedResponse));
}

#[test]
fn search_on_stuck_bus_is_a_bus_error() {
    let mut bus = Bus::with_roms(&[rom(0x28, 1)]);
    bus.stuck_low = true;
    assert_eq!(bus.search(None, false), Err(Error::BusError));
    assert_eq!(bus.trace, vec![Action::Reset]);
}

#[test]
fn no_presence_means_nothing_is_sent() {
    let sensor = Sensor::new(Address(rom(0x28, 1))).unwrap();
    let mut bus = Bus::with_roms(&[]);
    assert_eq!(bus.read(&sensor), Err(Error::NoPresencePulse));
    assert_eq!(bus.trace, vec![Action::Reset]);
    assert_eq!(bus.command(sensor.set_config(18, 24, Resolution::Bits12)), Err(Error::NoPresencePulse));
    assert_eq!(bus.command(start_simultaneous_temp_measurement()), Err(Error::NoPresencePulse));
    assert_eq!(bus.trace, vec![Action::Reset, Action::Reset, Action::Reset]);
}

#[test]
fn finished_exchange_ignores_further_replies() {
    let sensor = Sensor::new(Address(rom(0x28, 1))).unwrap();
    let mut exchange = sensor.read_scratchpad();
    exchange.advance(Reply::Presence(false));
    assert!(exchange.is_finished());
    exchange.advance(Reply::Done);
    exchange.advance(Reply::Bit(true));
    assert_eq!(exchange.pending(), None);
    assert_eq!(exchange.into_outcome(), Some(Err(Error::NoPresencePulse)));
}

#[test]
fn exchange_ignores_reply_that_does_not_fit() {
    let sensor = Sensor::new(Address(rom(0x28, 1))).unwrap();
    let mut exchange = sensor.read_scratchpad();
    exchange.advance(Reply::Bit(true));
    exchange.advance(Reply::Done);
    assert_eq!(exchange.pending(), Some(Action::Reset));
    exchange.advance(Reply::Presence(true));
    assert_eq!(exchange.pending(), Some(Action::WriteBit(true)));
    exchange.advance(Reply::Presence(true));
    assert_eq!(exchange.pending(), Some(Action::WriteBit(true)));
    assert_eq!(exchange.into_outcome(), None);
}

#[test]
fn fault_ends_exchange_with_bus_error() {
    let sensor = Sensor::new(Address(rom(0x28, 1))).unwrap();
    let mut exchange = sensor.read_scratchpad();
    exchange.advance(Reply::Presence(true));
    exchange.advance(Reply::Done);
    exchange.advance(Reply::Fault);
    assert_eq!(exchange.pending(), None);
    assert_eq!(exchange.into_outcome(), Some(Err(Error::BusError)));
}

#[test]
fn read_scratchpad_frame_on_the_wire() {
    let address = rom(0x28, 0x0102_0304_0506);
    let sensor = Sensor::new(Address(address)).unwrap();
    let mut bus = Bus::with_roms(&[address]);
    bus.read(&sensor).unwrap();
    assert_eq!(bus.trace[0], Action::Reset);
    let mut expected = vec![0x55];
    expected.extend_from_slice(&address.to_le_bytes());
    expected.push(0xBE);
    assert_eq!(bytes_written(&bus.trace), expected);
    let reads = bus.trace.iter().filter(|action| **action == Action::ReadBit).count();
    assert_eq!(reads, 72);
    assert_eq!(bus.trace.len(), 1 + 80 + 72);
}

#[test]
fn bytes_travel_least_significant_bit_first() {
    let mut bus = Bus::with_roms(&[rom(0x28, 1)]);
    bus.command(Exchange::new(vec![0x01, 0x80, 0xA5], 0, 0)).unwrap();
    let bits: Vec<u8> = bits_written(&bus.trace).iter().map(|bit| *bit as u8).collect();
    assert_eq!(
        bits,
        vec![1, 0, 0, 0, 0, 0, 0, 0, 0, 0, 0, 0, 0, 0, 0, 1, 1, 0, 1, 0, 0, 1, 0, 1]
    );
}

#[test]
fn write_scratchpad_frame_on_the_wire() {
    let address = rom(0x28, 9);
    let sensor = Sensor::new(Address(address)).unwrap();
    let mut bus = Bus::with_roms(&[address]);
    bus.command(sensor.set_config(-5, 24, Resolution::Bits10)).unwrap();
    let written = bytes_written(&bus.trace);
    assert_eq!(written.len(), 13);
    assert_eq!(written[9..], [0x4E, 24, 0xFB, 0x3F]);
}

#[test]
fn broadcast_conversion_frame_on_the_wire() {
    let mut bus = Bus::with_roms(&[rom(0x28, 9)]);
    bus.command(start_simultaneous_temp_measurement()).unwrap();
    assert_eq!(bus.trace[0], Action::Reset);
    assert_eq!(bytes_written(&bus.trace), vec![0xCC, 0x44]);
    assert_eq!(bus.trace.len(), 17);
}

#[test]
fn single_conversion_frame_on_the_wire() {
    let address = rom(0x28, 9);
    let sensor = Sensor::new(Address(address)).unwrap();
    let mut bus = Bus::with_roms(&[address, rom(0x28, 10)]);
    bus.devices[1].next_measurement = 0x0200;
    bus.command(sensor.start_temp_measurement()).unwrap();
    let written = bytes_written(&bus.trace);
    assert_eq!(written[0], 0x55);
    assert_eq!(written[9], 0x44);
    assert_eq!(bus.read(&sensor).unwrap().temperature.sixteenths, 0x0191);
    let other = Sensor::new(Address(rom(0x28, 10))).unwrap();
    assert_eq!(bus.read(&other).unwrap().temperature.sixteenths, 0x0550);
}

#[test]
fn save_to_eeprom_ends_with_its_pause() {
    let address = rom(0x28, 9);
    let sensor = Sensor::new(Address(address)).unwrap();
    let mut bus = Bus::with_roms(&[address]);
    bus.command(sensor.save_to_eeprom()).unwrap();
    assert_eq!(bus.trace.last(), Some(&Action::Delay(10)));
    assert_eq!(bytes_written(&bus.trace)[9], 0x48);
    let mut bus = Bus::with_roms(&[address]);
    bus.command(sensor.recall_from_eeprom()).unwrap();
    assert_eq!(bus.trace.last(), Some(&Action::Delay(10)));
    assert_eq!(bytes_written(&bus.trace)[9], 0xB8);
    assert_eq!(bus.trace.len(), 1 + 80 + 1);
}

#[test]
fn config_round_trip() {
    let address = rom(0x28, 0x42);
    let sensor = Sensor::new(Address(address)).unwrap();
    let mut bus = Bus::with_roms(&[address]);
    bus.command(sensor.set_config(18, 24, Resolution::Bits11)).unwrap();
    let data = bus.read(&sensor).unwrap();
    assert_eq!(data.alarm_temp_low, 18);
    assert_eq!(data.alarm_temp_high, 24);
    assert_eq!(data.resolution, Resolution::Bits11);
}

#[test]
fn recall_brings_back_what_was_saved_last() {
    let address = rom(0x28, 0x42);
    let sensor = Sensor::new(Address(address)).unwrap();
    let mut bus = Bus::with_roms(&[address]);
    bus.command(sensor.set_config(18, 24, Resolution::Bits10)).unwrap();
    bus.command(sensor.save_to_eeprom()).unwrap();
    bus.command(sensor.set_config(-30, 99, Resolution::Bits9)).unwrap();
    let between = bus.read(&sensor).unwrap();
    assert_eq!((between.alarm_temp_low, between.alarm_temp_high), (-30, 99));
    assert_eq!(between.resolution, Resolution::Bits9);
    bus.command(sensor.recall_from_eeprom()).unwrap();
    let recalled = bus.read(&sensor).unwrap();
    assert_eq!(recalled.alarm_temp_low, 18);
    assert_eq!(recalled.alarm_temp_high, 24);
    assert_eq!(recalled.resolution, Resolution::Bits10);
}

#[test]
fn corrupted_scratchpad_is_a_crc_mismatch() {
    let address = rom(0x28, 0x42);
    let sensor = Sensor::new(Address(address)).unwrap();
    for at in 0..9 {
        let mut bus = Bus::with_roms(&[address]);
        bus.devices[0].corrupt_byte = Some(at);
        assert_eq!(bus.read(&sensor), Err(Error::CrcMismatch));
    }
}

#[test]
fn reading_is_decoded_from_the_wire() {
    let address = rom(0x28, 0x42);
    let sensor = Sensor::new(Address(address)).unwrap();
    let mut bus = Bus::with_roms(&[address]);
    bus.devices[0].next_measurement = 0xFF5E;
    bus.command(start_simultaneous_temp_measurement()).unwrap();
    let data = bus.read(&sensor).unwrap();
    assert_eq!(data.temperature.sixteenths, -162);
    assert_eq!(data.temperature.sixteenths as f64 / 16.0, -10.125);
    assert_eq!(data.resolution, Resolution::Bits12);
    assert_eq!((data.alarm_temp_low, data.alarm_temp_high), (70, 75));
}

#[test]
fn sensor_data_of_other_exchanges_is_none() {
    let address = rom(0x28, 0x42);
    let sensor = Sensor::new(Address(address)).unwrap();
    assert_eq!(sensor_data(sensor.read_scratchpad()), None);
    let mut bus = Bus::with_roms(&[address]);
    let exchange = bus.run_exchange(sensor.start_temp_measurement());
    assert_eq!(sensor_data(exchange), None);
    let exchange = bus.run_exchange(Exchange::new(vec![0xCC, 0xBE], 2, 0));
    assert_eq!(exchange.into_outcome(), Some(Ok(vec![0x91, 0x01])));
}

#[test]
fn survey_reports_every_sensor_and_nothing_else() {
    let roms = [rom(0x28, 1), rom(0x10, 2), rom(0x28, 3)];
    let mut bus = Bus::with_roms(&roms);
    bus.devices[0].next_measurement = 0x0191;
    bus.devices[2].next_measurement = 0xFF5E;
    let (result, reported) = bus.survey();
    assert_eq!(result, Ok(()));
    assert_eq!(reported.len(), 2);
    for reading in reported.iter() {
        assert_eq!(reading.occasion, Occasion::Survey);
        let expected = if reading.address.0 == roms[0] { 401 } else { -162 };
        assert_ne!(reading.address.0, roms[1]);
        assert_eq!(reading.data.unwrap().temperature.sixteenths, expected);
    }
    assert_ne!(reported[0].address, reported[1].address);
    assert!(bus.trace.contains(&Action::Delay(750)));
}

#[test]
fn survey_of_empty_bus_reports_nothing() {
    let mut bus = Bus::with_roms(&[]);
    let (result, reported) = bus.survey();
    assert_eq!(result, Ok(()));
    assert!(reported.is_empty());
    assert_eq!(bus.trace, vec![Action::Reset]);
}

#[test]
fn survey_goes_on_after_a_sensor_that_cannot_be_read() {
    let roms = [rom(0x28, 1), rom(0x28, 2), rom(0x28, 3)];
    let mut bus = Bus::with_roms(&roms);
    bus.devices[1].corrupt_byte = Some(0);
    let (result, reported) = bus.survey();
    assert_eq!(result, Err(Error::CrcMismatch));
    assert_eq!(reported.len(), 3);
    for reading in reported.iter() {
        if reading.address.0 == roms[1] {
            assert_eq!(reading.data, Err(Error::CrcMismatch));
        } else {
            assert!(reading.data.is_ok());
        }
    }
}

#[test]
fn survey_on_stuck_bus_fails() {
    let mut bus = Bus::with_roms(&[rom(0x28, 1)]);
    bus.stuck_low = true;
    let (result, reported) = bus.survey();
    assert_eq!(result, Err(Error::BusError));
    assert!(reported.is_empty());
}

#[test]
fn trial_writes_saves_and_recalls() {
    let address = rom(0x28, 0x77);
    let mut bus = Bus::with_roms(&[address]);
    bus.devices[0].memory[4] = 0x3F;
    let (result, reported) = bus.trial(18, 24);
    assert_eq!(result, Ok(()));
    assert_eq!(reported.len(), 3);
    assert_eq!(reported[0].occasion, Occasion::Initial);
    assert_eq!(reported[1].occasion, Occasion::Written);
    assert_eq!(reported[2].occasion, Occasion::Recalled);
    let initial = reported[0].data.unwrap();
    assert_eq!((initial.alarm_temp_low, initial.alarm_temp_high), (70, 75));
    assert_eq!(initial.resolution, Resolution::Bits10);
    for reading in &reported[1..] {
        let data = reading.data.unwrap();
        assert_eq!(reading.address, Address(address));
        assert_eq!((data.alarm_temp_low, data.alarm_temp_high), (18, 24));
        assert_eq!(data.resolution, Resolution::Bits10);
    }
    assert_eq!(bus.devices[0].eeprom, [24, 18, 0x3F]);
}

#[test]
fn trial_on_empty_bus_does_nothing() {
    let mut bus = Bus::with_roms(&[]);
    let (result, reported) = bus.trial(18, 24);
    assert_eq!(result, Ok(()));
    assert!(reported.is_empty());
}

#[test]
fn trial_refuses_a_device_of_another_family() {
    let mut bus = Bus::with_roms(&[rom(0x10, 1)]);
    let (result, reported) = bus.trial(18, 24);
    assert_eq!(result, Err(Error::UnexpectedDevice));
    assert!(reported.is_empty());
}

#[test]
fn trial_stops_at_a_damaged_reading() {
    let mut bus = Bus::with_roms(&[rom(0x28, 1)]);
    bus.devices[0].corrupt_byte = Some(8);
    let (result, reported) = bus.trial(18, 24);
    assert_eq!(result, Err(Error::CrcMismatch));
    assert!(reported.is_empty());
    assert_eq!(bus.devices[0].memory[2..5], [0x4B, 0x46, 0x7F]);
}

/// The same devices behind a pin and a timer, for a driver that signals by
/// itself: the length of each low pulse tells what the master is doing.
struct Wire {
    devices: Vec<Device>,
    master_low: bool,
    low_micros: u32,
    devices_low_micros: u32,
}

impl Wire {
    fn released(&mut self) {
        self.master_low = false;
        if self.low_micros >= 480 {
            for device in self.devices.iter_mut() {
                device.reset();
            }
            if !self.devices.is_empty() {
                self.devices_low_micros = 240;
            }
        } else if self.low_micros >= 60 {
            for device in self.devices.iter_mut() {
                device.hear(false);
            }
        } else if self.low_micros > 0 {
            let mut level = true;
            for device in self.devices.iter_mut() {
                let speaking = matches!(
                    device.mode,
                    Mode::Searching { phase: 0, .. } | Mode::Searching { phase: 1, .. } | Mode::Sending { .. }
                );
                if speaking {
                    level &= device.speak();
                } else {
                    device.hear(true);
                }
            }
            if !level {
                self.devices_low_micros = 30;
            }
        }
        self.low_micros = 0;
    }
}

#[derive(Clone)]
struct Pin(std::rc::Rc<std::cell::RefCell<Wire>>);

struct Clock(std::rc::Rc<std::cell::RefCell<Wire>>);

impl embedded_hal::digital::v2::OutputPin for Pin {
    type Error = ();

    fn set_low(&mut self) -> Result<(), ()> {
        let mut wire = self.0.borrow_mut();
        wire.master_low = true;
        wire.low_micros = 0;
        Ok(())
    }

    fn set_high(&mut self) -> Result<(), ()> {
        let mut wire = self.0.borrow_mut();
        if wire.master_low {
            wire.released();
        }
        Ok(())
    }
}

impl embedded_hal::digital::v2::InputPin for Pin {
    type Error = ();

    fn is_high(&self) -> Result<bool, ()> {
        let wire = self.0.borrow();
        Ok(!wire.master_low && wire.devices_low_micros == 0)
    }

    fn is_low(&self) -> Result<bool, ()> {
        self.is_high().map(|high| !high)
    }
}

impl embedded_hal::blocking::delay::DelayUs<u16> for Clock {
    fn delay_us(&mut self, micros: u16) {
        let mut wire = self.0.borrow_mut();
        if wire.master_low {
            wire.low_micros += micros as u32;
        } else {
            wire.devices_low_micros = wire.devices_low_micros.saturating_sub(micros as u32);
        }
    }
}

fn wired(roms: &[u64]) -> (one_wire_bus::OneWire<Pin>, Clock, std::rc::Rc<std::cell::RefCell<Wire>>) {
    let wire = std::rc::Rc::new(std::cell::RefCell::new(Wire {
        devices: roms.iter().map(|rom| Device::new(*rom)).collect(),
        master_low: false,
        low_micros: 0,
        devices_low_micros: 0,
    }));
    let driver = one_wire_bus::OneWire::new(Pin(wire.clone())).unwrap();
    (driver, Clock(wire.clone()), wire)
}

#[test]
fn search_agrees_with_the_signalling_driver() {
    let roms = [
        rom(0x28, 0x0000_0000_0001),
        rom(0x28, 0x0000_0000_0101),
        rom(0x10, 0x8000_0000_0001),
        rom(0x28, 0xFFFF_FFFF_FFFF),
        rom(0x28, 0x5555_AAAA_5555),
        rom(0x22, 0),
    ];
    let (mut driver, mut clock, _wire) = wired(&roms);
    let theirs: Vec<u64> =
        driver.devices(false, &mut clock).map(|address| address.unwrap().0).collect();
    assert_eq!(theirs.len(), roms.len());
    let mut bus = Bus::with_roms(&roms);
    assert_eq!(bus.all_addresses(false), theirs);
}

#[test]
fn driver_reads_what_the_library_wrote() {
    let address = rom(0x28, 0x42);
    let sensor = Sensor::new(Address(address)).unwrap();
    let mut bus = Bus::with_roms(&[address]);
    bus.command(sensor.set_config(-7, 24, Resolution::Bits11)).unwrap();
    bus.command(start_simultaneous_temp_measurement()).unwrap();
    let ours = bus.read(&sensor).unwrap();

    let (mut driver, mut clock, wire) = wired(&[]);
    wire.borrow_mut().devices = bus.devices.clone();
    let theirs = ds18b20::Ds18b20::new::<()>(one_wire_bus::Address(address))
        .unwrap()
        .read_data(&mut driver, &mut clock)
        .unwrap();
    assert_eq!(theirs.alarm_temp_low, ours.alarm_temp_low);
    assert_eq!(theirs.alarm_temp_high, ours.alarm_temp_high);
    assert_eq!(theirs.alarm_temp_low, -7);
    assert!(matches!(theirs.resolution, ds18b20::Resolution::Bits11));
    assert_eq!(ours.resolution, Resolution::Bits11);
}

#[test]
fn library_reads_what_the_driver_wrote() {
    let address = rom(0x28, 0x43);
    let (mut driver, mut clock, wire) = wired(&[address]);
    let theirs = ds18b20::Ds18b20::new::<()>(one_wire_bus::Address(address)).unwrap();
    theirs.set_config(18, 24, ds18b20::Resolution::Bits12, &mut driver, &mut clock).unwrap();
    ds18b20::start_simultaneous_temp_measurement(&mut driver, &mut clock).unwrap();
    let their_data = theirs.read_data(&mut driver, &mut clock).unwrap();

    let mut bus = Bus::with_roms(&[]);
    bus.devices = wire.borrow().devices.clone();
    let sensor = Sensor::new(Address(address)).unwrap();
    let ours = bus.read(&sensor).unwrap();
    assert_eq!((ours.alarm_temp_low, ours.alarm_temp_high), (18, 24));
    assert_eq!(ours.resolution, Resolution::Bits12);
    assert_eq!(ours.temperature.sixteenths, 0x0191);
    assert_eq!(ours.temperature.sixteenths as f32 / 16.0, their_data.temperature);
    assert_eq!(their_data.temperature, 25.0625);
}

#[test]
fn frames_agree_with_the_signalling_driver() {
    // Both drivers send the same bytes for the same command: a device that
    // takes the one takes the other.
    let address = rom(0x28, 0x44);
    let (mut driver, mut clock, wire) = wired(&[address]);
    let theirs = ds18b20::Ds18b20::new::<()>(one_wire_bus::Address(address)).unwrap();
    theirs.set_config(1, 2, ds18b20::Resolution::Bits9, &mut driver, &mut clock).unwrap();
    theirs.save_to_eeprom(&mut driver, &mut clock).unwrap();
    let saved_by_driver = wire.borrow().devices[0].eeprom;

    let sensor = Sensor::new(Address(address)).unwrap();
    let mut bus = Bus::with_roms(&[address]);
    bus.command(sensor.set_config(1, 2, Resolution::Bits9)).unwrap();
    bus.command(sensor.save_to_eeprom()).unwrap();
    assert_eq!(bus.devices[0].eeprom, saved_by_driver);
    assert_eq!(saved_by_driver, [2, 1, 0x1F]);
}

#[test]
fn task_for_a_device_of_another_family_is_settled_unsent() {
    let stranger = Address(rom(0x10, 1));
    let settled = |request| match task_for(request) {
        Task::Settled(completion) => completion,
        _ => panic!("nothing is to be sent to a device that is no sensor"),
    };
    assert!(matches!(
        settled(Request::Read(stranger)),
        Completion::Read(Err(Error::UnexpectedDevice))
    ));
    assert!(matches!(
        settled(Request::SaveToEeprom(stranger)),
        Completion::Command(Err(Error::UnexpectedDevice))
    ));
    assert!(matches!(
        settled(Request::RecallFromEeprom(stranger)),
        Completion::Command(Err(Error::UnexpectedDevice))
    ));
    assert!(matches!(
        settled(Request::SetConfig {
            address: stranger,
            alarm_temp_low: 1,
            alarm_temp_high: 2,
            resolution: Resolution::Bits12
        }),
        Completion::Command(Err(Error::UnexpectedDevice))
    ));
}

#[test]
fn task_for_each_request() {
    let address = rom(0x28, 0x21);
    let mut bus = Bus::with_roms(&[address]);
    let mut reported = Vec::new();
    let done = bus.carry_out(Request::StartConversion, &mut reported);
    assert!(matches!(done, Completion::Command(Ok(()))));
    assert_eq!(bytes_written(&bus.trace), vec![0xCC, 0x44]);
    let done = bus.carry_out(Request::Wait(750), &mut reported);
    assert!(matches!(done, Completion::Waited));
    assert_eq!(bus.trace.last(), Some(&Action::Delay(750)));
    let done = bus.carry_out(Request::Search(None), &mut reported);
    let found = match done {
        Completion::Searched(Ok(Some((found, _)))) => found,
        _ => panic!("the device is found"),
    };
    assert_eq!(found, Address(address));
    let done = bus.carry_out(Request::Read(found), &mut reported);
    let data = match done {
        Completion::Read(Ok(data)) => data,
        _ => panic!("the sensor is read"),
    };
    assert_eq!(data.temperature.sixteenths, 0x0191);
    let reading = Reading { occasion: Occasion::Survey, address: found, data: Ok(data) };
    let done = bus.carry_out(Request::Report(reading), &mut reported);
    assert!(matches!(done, Completion::Reported));
    assert_eq!(reported.len(), 1);
    assert!(matches!(task_for(Request::Finish(Ok(()))), Task::Finished(Ok(()))));
    assert!(matches!(
        task_for(Request::Finish(Err(Error::BusError))),
        Task::Finished(Err(Error::BusError))
    ));
}

#[test]
fn completion_waits_for_the_end_of_the_work() {
    let sensor = Sensor::new(Address(rom(0x28, 1))).unwrap();
    assert!(command_completion(sensor.save_to_eeprom()).is_none());
    assert!(read_completion(sensor.read_scratchpad()).is_none());
    assert!(search_completion(&Search::begin(None, false)).is_none());
    let mut bus = Bus::with_roms(&[]);
    let exchange = bus.run_exchange(sensor.save_to_eeprom());
    assert!(matches!(
        command_completion(exchange),
        Some(Completion::Command(Err(Error::NoPresencePulse)))
    ));
    let exchange = bus.run_exchange(sensor.read_scratchpad());
    assert!(matches!(
        read_completion(exchange),
        Some(Completion::Read(Err(Error::NoPresencePulse)))
    ));
}

#[test]
fn search_agrees_with_the_signalling_driver_on_many_buses() {
    let mut seed = 0x2545_F491_4F6C_DD1D_u64;
    let mut next = move || {
        seed ^= seed << 13;
        seed ^= seed >> 7;
        seed ^= seed << 17;
        seed
    };
    for round in 0..40 {
        let count = 1 + (next() % 12) as usize;
        let mut roms: Vec<u64> = Vec::new();
        while roms.len() < count {
            // Few distinct low bits, so that the addresses share long prefixes.
            let serial = if round % 2 == 0 { next() & 0x0000_0300_0000_0007 } else { next() >> 16 };
            let candidate = rom(if next() % 3 == 0 { 0x10 } else { 0x28 }, serial);
            if !roms.contains(&candidate) {
                roms.push(candidate);
            }
        }
        let (mut driver, mut clock, _wire) = wired(&roms);
        let theirs: Vec<u64> =
            driver.devices(false, &mut clock).map(|address| address.unwrap().0).collect();
        let mut bus = Bus::with_roms(&roms);
        let ours = bus.all_addresses(false);
        assert_eq!(ours, theirs);
        let mut sorted = ours.clone();
        sorted.sort();
        sorted.dedup();
        assert_eq!(sorted.len(), roms.len());
        // In the order of the search the reversed bit patterns ascend.
        for pair in ours.windows(2) {
            assert!(pair[0].reverse_bits() < pair[1].reverse_bits());
        }
    }
}

#[test]
fn search_finds_the_nth_device_from_the_state_before_it() {
    let roms: Vec<u64> = (0..9u64).map(|serial| rom(0x28, serial * 0x0101)).collect();
    let mut bus = Bus::with_roms(&roms);
    let mut states = vec![None];
    let mut found = Vec::new();
    while let Some((address, state)) = bus.search(*states.last().unwrap(), false).unwrap() {
        found.push(address);
        states.push(Some(state));
    }
    assert_eq!(found.len(), 9);
    // Resumed in any order, each state leads to the device after it.
    for n in [4usize, 0, 8, 2, 7, 1, 3, 6, 5] {
        let (address, state) = bus.search(states[n], false).unwrap().unwrap();
        assert_eq!(address, found[n]);
        assert_eq!(Some(state), states[n + 1]);
    }
    assert_eq!(bus.search(states[9], false), Ok(None));
}

#[test]
fn survey_with_one_unreadable_sensor_ends_with_its_error() {
    let mut bus = Bus::with_roms(&[rom(0x28, 1)]);
    bus.devices[0].corrupt_byte = Some(3);
    let (result, reported) = bus.survey();
    assert_eq!(result, Err(Error::CrcMismatch));
    assert_eq!(reported.len(), 1);
    assert_eq!(reported[0].data, Err(Error::CrcMismatch));
    assert!(reported.iter().all(|reading| reading.data.is_err()));
}

#[test]
fn survey_ends_with_the_first_failure() {
    let sensor = |serial| Address(rom(0x28, serial));
    let state = SearchState { address: 0, discrepancies: 1, last_discrepancy_index: 0 };
    let data = SensorData {
        temperature: onewire_temp::scratchpad::Temperature { sixteenths: 401 },
        resolution: Resolution::Bits12,
        alarm_temp_low: 18,
        alarm_temp_high: 24,
    };
    let run = |reads: &[Result<SensorData, Error>],
               last: Result<Option<(Address, SearchState)>, Error>| {
        let mut survey = Survey::new();
        survey.advance(Completion::Command(Ok(())));
        survey.advance(Completion::Waited);
        for (serial, read) in reads.iter().enumerate() {
            survey.advance(Completion::Searched(Ok(Some((sensor(serial as u64), state)))));
            assert!(matches!(survey.request(), Request::Read(_)));
            survey.advance(Completion::Read(*read));
            assert!(matches!(survey.request(), Request::Report(_)));
            survey.advance(Completion::Reported);
            assert!(matches!(survey.request(), Request::Search(Some(_))));
        }
        survey.advance(Completion::Searched(last));
        match survey.request() {
            Request::Finish(result) => result,
            _ => panic!("the survey is over"),
        }
    };
    assert_eq!(run(&[], Ok(None)), Ok(()));
    assert_eq!(run(&[Ok(data), Ok(data)], Ok(None)), Ok(()));
    assert_eq!(run(&[Err(Error::CrcMismatch)], Ok(None)), Err(Error::CrcMismatch));
    assert_eq!(run(&[Ok(data), Err(Error::CrcMismatch), Ok(data)], Ok(None)), Err(Error::CrcMismatch));
    assert_eq!(
        run(&[Err(Error::NoPresencePulse), Err(Error::CrcMismatch)], Ok(None)),
        Err(Error::NoPresencePulse)
    );
    assert_eq!(
        run(&[Ok(data), Err(Error::CrcMismatch), Err(Error::BusError)], Ok(None)),
        Err(Error::CrcMismatch)
    );
    assert_eq!(run(&[Ok(data)], Err(Error::UnexpectedResponse)), Err(Error::UnexpectedResponse));
    assert_eq!(
        run(&[Err(Error::CrcMismatch)], Err(Error::UnexpectedResponse)),
        Err(Error::CrcMismatch)
    );
}

#[test]
fn recall_is_read_only_after_its_pause() {
    let address = rom(0x28, 0x42);
    let sensor = Sensor::new(Address(address)).unwrap();
    let mut bus = Bus::with_roms(&[address]);
    bus.command(sensor.set_config(18, 24, Resolution::Bits10)).unwrap();
    bus.command(sensor.save_to_eeprom()).unwrap();
    bus.command(sensor.set_config(1, 2, Resolution::Bits9)).unwrap();
    // A recall cut short of its pause leaves the scratchpad as it was.
    let mut exchange = sensor.recall_from_eeprom();
    while let Some(action) = exchange.pending() {
        if let Action::Delay(millis) = action {
            assert_eq!(millis, 10);
            break;
        }
        let reply = bus.perform(action);
        exchange.advance(reply);
    }
    assert!(!exchange.is_finished());
    let early = bus.read(&sensor).unwrap();
    assert_eq!((early.alarm_temp_low, early.alarm_temp_high), (1, 2));
    // The whole recall brings back what was saved.
    bus.command(sensor.recall_from_eeprom()).unwrap();
    let recalled = bus.read(&sensor).unwrap();
    assert_eq!((recalled.alarm_temp_low, recalled.alarm_temp_high), (18, 24));
    assert_eq!(recalled.resolution, Resolution::Bits10);
}
