//! The commands of the thermal sensor.
//!
//! Each command is an [`Exchange`]: a reset, the selection of the device or
//! devices meant, the command byte, and what the command sends or reads after
//! it. Nothing here waits for a conversion: once one is started the caller
//! lets the time of the sensor's resolution pass before reading the result,
//! since a scratchpad read too early holds a stale reading and nothing on the
//! bus can tell.

use crate::address::{le_bytes, Address, FAMILY_CODE};
use crate::crc::frame_valid;
use crate::error::Error;
use crate::exchange::{converse, lemma_answer_arrives, Exchange, ExchangeView};
use crate::resolution::Resolution;
use crate::scratchpad::{
    config_payload, decode_scratchpad, lemma_corrupted_scratchpad_refused, spec_config_payload,
    spec_decode_scratchpad, SensorData, SCRATCHPAD_LEN,
};
use vstd::prelude::*;

verus! {

/// Selects the one device whose address follows.
pub const MATCH_ROM: u8 = 0x55;

/// Selects every device on the bus.
pub const SKIP_ROM: u8 = 0xCC;

/// Starts a temperature conversion.
pub const CONVERT_TEMP: u8 = 0x44;

/// Sets the thresholds and the configuration byte of the scratchpad.
pub const WRITE_SCRATCHPAD: u8 = 0x4E;

/// Asks for the scratchpad.
pub const READ_SCRATCHPAD: u8 = 0xBE;

/// Saves thresholds and configuration from the scratchpad to the EEPROM.
pub const COPY_SCRATCHPAD: u8 = 0x48;

/// Loads thresholds and configuration from the EEPROM into the scratchpad.
pub const RECALL_EEPROM: u8 = 0xB8;

/// How long a sensor needs the bus left alone while it writes its EEPROM, in
/// milliseconds.
pub const COPY_HOLD_MILLIS: u16 = 10;

/// How long a sensor may take to load its scratchpad from the EEPROM, in
/// milliseconds. The scratchpad is not to be read before that.
pub const RECALL_HOLD_MILLIS: u16 = 10;

/// The bytes that select the target of a command: one device by its address,
/// or all devices at once.
pub open spec fn spec_selection(target: Option<Address>) -> Seq<u8> {
    match target {
        Some(address) => seq![MATCH_ROM] + le_bytes(address.0),
        None => seq![SKIP_ROM],
    }
}

/// The bytes of a whole command: the selection, the command byte, and what
/// the command carries with it.
pub open spec fn spec_frame(target: Option<Address>, command: u8, payload: Seq<u8>) -> Seq<u8> {
    spec_selection(target) + seq![command] + payload
}

fn frame(target: Option<Address>, command: u8, payload: &[u8]) -> (bytes: Vec<u8>)
    ensures
        bytes@ == spec_frame(target, command, payload@),
{
    let mut bytes: Vec<u8> = Vec::new();
    match target {
        Some(address) => {
            bytes.push(MATCH_ROM);
            let rom: [u8; 8] = address.to_le_bytes();
            let mut copied: usize = 0;
            while copied < 8
                invariant
                    copied <= 8,
                    rom@ == le_bytes(address.0),
                    bytes@ == seq![MATCH_ROM] + le_bytes(address.0).take(copied as int),
                decreases 8 - copied,
            {
                bytes.push(rom[copied]);
                copied += 1;
                assert(bytes@ =~= seq![MATCH_ROM] + le_bytes(address.0).take(copied as int));
            }
            assert(bytes@ =~= spec_selection(target));
        },
        None => {
            bytes.push(SKIP_ROM);
            assert(bytes@ =~= spec_selection(target));
        },
    }
    bytes.push(command);
    let mut copied: usize = 0;
    while copied < payload.len()
        invariant
            copied <= payload.len(),
            bytes@ == spec_selection(target) + seq![command] + payload@.take(copied as int),
        decreases payload.len() - copied,
    {
        bytes.push(payload[copied]);
        copied += 1;
        assert(bytes@ =~= spec_selection(target) + seq![command] + payload@.take(copied as int));
    }
    assert(payload@.take(copied as int) =~= payload@);
    bytes
}

/// A thermal sensor at a known address.
#[derive(Clone, Copy, Debug)]
pub struct Sensor {
    address: Address,
}

impl View for Sensor {
    type V = Address;

    closed spec fn view(&self) -> Address {
        self.address
    }
}

impl Sensor {
    /// Takes an address for that of a thermal sensor, which it is if it
    /// carries the sensor's family code. Any other address is refused with
    /// `UnexpectedDevice`.
    pub fn new(address: Address) -> (sensor: Result<Sensor, Error>)
        ensures
            address.spec_family_code() == FAMILY_CODE ==> (sensor matches Ok(s) && s@ == address),
            address.spec_family_code() != FAMILY_CODE ==> (sensor matches Err(
                Error::UnexpectedDevice,
            )),
    {
        if address.family_code() == FAMILY_CODE {
            Ok(Sensor { address })
        } else {
            Err(Error::UnexpectedDevice)
        }
    }

    /// The address of the sensor.
    pub fn address(&self) -> (address: Address)
        ensures
            address == self@,
    {
        self.address
    }

    /// Starts a temperature conversion on this sensor alone.
    pub fn start_temp_measurement(&self) -> (exchange: Exchange)
        ensures
            exchange@ == ExchangeView::fresh(
                spec_frame(Some(self@), CONVERT_TEMP, Seq::empty()),
                0,
                0,
            ),
            exchange@.wf(),
    {
        let none: [u8; 0] = [];
        let bytes: Vec<u8> = frame(Some(self.address), CONVERT_TEMP, none.as_slice());
        assert(none@ =~= Seq::empty());
        Exchange::new(bytes, 0, 0)
    }

    /// Asks the sensor for its scratchpad: nine bytes are read, to be handed
    /// to [`sensor_data`] when the exchange has ended.
    pub fn read_scratchpad(&self) -> (exchange: Exchange)
        ensures
            exchange@ == ExchangeView::fresh(
                spec_frame(Some(self@), READ_SCRATCHPAD, Seq::empty()),
                SCRATCHPAD_LEN as nat,
                0,
            ),
            exchange@.wf(),
    {
        let none: [u8; 0] = [];
        let bytes: Vec<u8> = frame(Some(self.address), READ_SCRATCHPAD, none.as_slice());
        assert(none@ =~= Seq::empty());
        Exchange::new(bytes, SCRATCHPAD_LEN, 0)
    }

    /// Sets the alarm thresholds and the resolution in the sensor's
    /// scratchpad. The sensor acknowledges nothing: read the scratchpad back
    /// to see that the values arrived.
    pub fn set_config(
        &self,
        alarm_temp_low: i8,
        alarm_temp_high: i8,
        resolution: Resolution,
    ) -> (exchange: Exchange)
        ensures
            exchange@ == ExchangeView::fresh(
                spec_frame(
                    Some(self@),
                    WRITE_SCRATCHPAD,
                    spec_config_payload(alarm_temp_low, alarm_temp_high, resolution),
                ),
                0,
                0,
            ),
            exchange@.wf(),
    {
        let payload: [u8; 3] = config_payload(alarm_temp_low, alarm_temp_high, resolution);
        let bytes: Vec<u8> = frame(Some(self.address), WRITE_SCRATCHPAD, payload.as_slice());
        Exchange::new(bytes, 0, 0)
    }

    /// Saves thresholds and resolution from the scratchpad to the sensor's
    /// EEPROM. The exchange ends with the pause that the sensor needs for
    /// writing.
    pub fn save_to_eeprom(&self) -> (exchange: Exchange)
        ensures
            exchange@ == ExchangeView::fresh(
                spec_frame(Some(self@), COPY_SCRATCHPAD, Seq::empty()),
                0,
                COPY_HOLD_MILLIS,
            ),
            exchange@.wf(),
    {
        let none: [u8; 0] = [];
        let bytes: Vec<u8> = frame(Some(self.address), COPY_SCRATCHPAD, none.as_slice());
        assert(none@ =~= Seq::empty());
        Exchange::new(bytes, 0, COPY_HOLD_MILLIS)
    }

    /// Loads thresholds and resolution from the sensor's EEPROM back into its
    /// scratchpad, where a following read finds them. The exchange ends with
    /// the pause that the sensor may need for loading, so that the read does
    /// not come too early.
    pub fn recall_from_eeprom(&self) -> (exchange: Exchange)
        ensures
            exchange@ == ExchangeView::fresh(
                spec_frame(Some(self@), RECALL_EEPROM, Seq::empty()),
                0,
                RECALL_HOLD_MILLIS,
            ),
            exchange@.wf(),
    {
        let none: [u8; 0] = [];
        let bytes: Vec<u8> = frame(Some(self.address), RECALL_EEPROM, none.as_slice());
        assert(none@ =~= Seq::empty());
        Exchange::new(bytes, 0, RECALL_HOLD_MILLIS)
    }
}

/// Starts a temperature conversion on every sensor on the bus at once.
pub fn start_simultaneous_temp_measurement() -> (exchange: Exchange)
    ensures
        exchange@ == ExchangeView::fresh(spec_frame(None, CONVERT_TEMP, Seq::empty()), 0, 0),
        exchange@.wf(),
{
    let none: [u8; 0] = [];
    let bytes: Vec<u8> = frame(None, CONVERT_TEMP, none.as_slice());
    assert(none@ =~= Seq::empty());
    Exchange::new(bytes, 0, 0)
}

/// What an exchange that has ended says of the sensor, where the exchange is
/// one that read a scratchpad: the failure of the exchange if it failed, else
/// what the nine bytes hold.
pub open spec fn spec_sensor_data(exchange: ExchangeView) -> Option<Result<SensorData, Error>> {
    match exchange.outcome() {
        None => None,
        Some(Err(error)) => Some(Err(error)),
        Some(Ok(bytes)) => if bytes.len() == SCRATCHPAD_LEN {
            Some(spec_decode_scratchpad(bytes))
        } else {
            None
        },
    }
}

/// Reads the result of a scratchpad read.
///
/// Gives `None` while the exchange has not ended, and for an exchange that
/// read anything but nine bytes. An exchange that failed gives its own error;
/// one that brought a damaged image gives `CrcMismatch`.
pub fn sensor_data(exchange: Exchange) -> (data: Option<Result<SensorData, Error>>)
    requires
        exchange@.wf(),
    ensures
        data == spec_sensor_data(exchange@),
{
    match exchange.into_outcome() {
        None => None,
        Some(Err(error)) => Some(Err(error)),
        Some(Ok(bytes)) => {
            if bytes.len() == SCRATCHPAD_LEN {
                let image: [u8; 9] = [
                    bytes[0],
                    bytes[1],
                    bytes[2],
                    bytes[3],
                    bytes[4],
                    bytes[5],
                    bytes[6],
                    bytes[7],
                    bytes[8],
                ];
                assert(image@ =~= bytes@);
                Some(decode_scratchpad(&image))
            } else {
                None
            }
        },
    }
}

/// Reading a sensor that answers gives what the sensor sent: when the nine
/// bytes that arrive are `image`, the read ends with what `image` holds.
/// In particular, if the sensor sent an intact image and one byte of it
/// arrives changed, the read ends with `CrcMismatch` and with no reading.
pub proof fn lemma_read_gives_what_arrives(address: Address, image: Seq<u8>)
    requires
        image.len() == 9,
    ensures
        ({
            let plan = ExchangeView::fresh(
                spec_frame(Some(address), READ_SCRATCHPAD, Seq::empty()),
                SCRATCHPAD_LEN as nat,
                0,
            );
            &&& spec_sensor_data(converse(plan, image, plan.end())) == Some(
                spec_decode_scratchpad(image),
            )
            &&& forall|sent: Seq<u8>, at: int|
                sent.len() == 9 && frame_valid(sent) && 0 <= at < 9 && sent[at] != image[at]
                    && #[trigger] sent.update(at, image[at]) == image ==> spec_sensor_data(
                    converse(plan, image, plan.end()),
                ) == Some(Err::<SensorData, Error>(Error::CrcMismatch))
        }),
{
    let outgoing = spec_frame(Some(address), READ_SCRATCHPAD, Seq::empty());
    assert(outgoing.len() == 10);
    lemma_answer_arrives(outgoing, image, 0);
    assert forall|sent: Seq<u8>, at: int|
        sent.len() == 9 && frame_valid(sent) && 0 <= at < 9 && sent[at] != image[at]
            && #[trigger] sent.update(at, image[at]) == image implies spec_decode_scratchpad(image)
        == Err::<SensorData, Error>(Error::CrcMismatch) by {
        lemma_corrupted_scratchpad_refused(sent, at, image[at]);
    }
}

} // verus!
