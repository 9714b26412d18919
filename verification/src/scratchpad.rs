//! The nine bytes of working memory that a sensor hands out, and what they mean.
//!
//! In bus order: the reading (two bytes, least significant first), the high
//! and the low alarm threshold, the configuration byte, three reserved bytes,
//! and the checksum of the eight bytes before it.

use crate::crc::{crc8, frame_valid, lemma_corrupted_frame_invalid};
use crate::error::Error;
use crate::resolution::Resolution;
use vstd::prelude::*;

verus! {

/// The length of a scratchpad image.
pub const SCRATCHPAD_LEN: usize = 9;

/// A temperature in sixteenths of a degree Celsius.
#[derive(Clone, Copy, Debug, PartialEq, Eq, Structural)]
pub struct Temperature {
    pub sixteenths: i16,
}

/// All that a sensor reports of itself.
#[derive(Clone, Copy, Debug, PartialEq, Eq, Structural)]
pub struct SensorData {
    /// The last temperature measured.
    pub temperature: Temperature,
    /// The resolution that the sensor is set to.
    pub resolution: Resolution,
    /// Below this many degrees the sensor raises its alarm.
    pub alarm_temp_low: i8,
    /// Above this many degrees the sensor raises its alarm.
    pub alarm_temp_high: i8,
}

/// The number that a 16-bit pattern stands for in two's complement.
pub open spec fn signed16(raw: u16) -> int {
    if raw >= 0x8000 {
        raw - 0x1_0000
    } else {
        raw as int
    }
}

/// The number that a byte stands for in two's complement.
pub open spec fn signed8(raw: u8) -> int {
    if raw >= 0x80 {
        raw - 0x100
    } else {
        raw as int
    }
}

/// The byte that stands for a number in two's complement.
pub open spec fn unsigned8(value: i8) -> int {
    if value < 0 {
        value + 0x100
    } else {
        value as int
    }
}

/// The reading that a raw register value stands for, in sixteenths of a
/// degree. At a resolution below 12 bits the lowest bits of the register hold
/// no information: they are cleared, so that the reading is the multiple of
/// the resolution's step at or below the raw value.
pub open spec fn spec_decode_temperature(raw: u16, resolution: Resolution) -> int {
    signed16((raw - raw % resolution.spec_step()) as u16)
}

/// The three bytes that set a sensor's thresholds and resolution, in the order
/// in which the sensor takes them: high threshold, low threshold,
/// configuration.
pub open spec fn spec_config_payload(
    alarm_temp_low: i8,
    alarm_temp_high: i8,
    resolution: Resolution,
) -> Seq<u8> {
    seq![
        unsigned8(alarm_temp_high) as u8,
        unsigned8(alarm_temp_low) as u8,
        resolution.spec_config_register(),
    ]
}

/// What a scratchpad image holds. An image whose checksum fails, or whose
/// configuration byte names no resolution, is no reading at all.
pub open spec fn spec_decode_scratchpad(image: Seq<u8>) -> Result<SensorData, Error>
    recommends
        image.len() == 9,
{
    if !frame_valid(image) {
        Err(Error::CrcMismatch)
    } else {
        match Resolution::spec_from_config_register(image[4]) {
            None => Err(Error::CrcMismatch),
            Some(resolution) => Ok(
                SensorData {
                    temperature: Temperature {
                        sixteenths: spec_decode_temperature(
                            (image[0] + 256 * image[1]) as u16,
                            resolution,
                        ) as i16,
                    },
                    resolution,
                    alarm_temp_low: signed8(image[3]) as i8,
                    alarm_temp_high: signed8(image[2]) as i8,
                },
            ),
        }
    }
}

impl Temperature {
    /// The temperature in ten-thousandths of a degree, which is exact: a
    /// sixteenth of a degree is 625 of them.
    pub open spec fn spec_ten_thousandths(self) -> int {
        self.sixteenths * 625
    }

    /// The temperature in sixteenths of a degree.
    pub fn sixteenths(&self) -> (value: i16)
        ensures
            value == self.sixteenths,
    {
        self.sixteenths
    }

    /// The temperature in ten-thousandths of a degree.
    pub fn ten_thousandths(&self) -> (value: i32)
        ensures
            value == self.spec_ten_thousandths(),
    {
        let wide: i32 = self.sixteenths as i32;
        wide * 625
    }
}

fn byte_to_signed(raw: u8) -> (value: i8)
    ensures
        value == signed8(raw),
{
    if raw >= 0x80 {
        let wide: i16 = raw as i16 - 0x100;
        wide as i8
    } else {
        raw as i8
    }
}

fn signed_to_byte(value: i8) -> (raw: u8)
    ensures
        raw == unsigned8(value),
        signed8(raw) == value,
{
    if value < 0 {
        let wide: i16 = value as i16 + 0x100;
        wide as u8
    } else {
        value as u8
    }
}

/// Turns the raw value of the temperature register into a temperature.
pub fn decode_temperature(raw: u16, resolution: Resolution) -> (temperature: Temperature)
    ensures
        temperature.sixteenths == spec_decode_temperature(raw, resolution),
        (temperature.sixteenths as int) % (resolution.spec_step() as int) == 0,
{
    let step: u16 = resolution.step();
    let kept: u16 = raw - raw % step;
    assert(kept % step == 0) by (nonlinear_arith)
        requires
            kept == raw - raw % step,
            step == 1 || step == 2 || step == 4 || step == 8,
    ;
    let sixteenths: i16 = if kept >= 0x8000 {
        let wide: i32 = kept as i32 - 0x1_0000;
        wide as i16
    } else {
        kept as i16
    };
    Temperature { sixteenths }
}

/// The three bytes that set a sensor's thresholds and resolution.
pub fn config_payload(alarm_temp_low: i8, alarm_temp_high: i8, resolution: Resolution) -> (payload:
    [u8; 3])
    ensures
        payload@ == spec_config_payload(alarm_temp_low, alarm_temp_high, resolution),
{
    let payload: [u8; 3] = [
        signed_to_byte(alarm_temp_high),
        signed_to_byte(alarm_temp_low),
        resolution.to_config_register(),
    ];
    assert(payload@ =~= spec_config_payload(alarm_temp_low, alarm_temp_high, resolution));
    payload
}

/// Reads a scratchpad image.
///
/// The image is refused with `CrcMismatch` when its checksum fails, and also
/// when its configuration byte names no resolution. Otherwise the reading,
/// the thresholds and the resolution are those that the image holds.
pub fn decode_scratchpad(image: &[u8; 9]) -> (decoded: Result<SensorData, Error>)
    ensures
        decoded == spec_decode_scratchpad(image@),
        decoded is Err ==> decoded == Err::<SensorData, Error>(Error::CrcMismatch),
        !frame_valid(image@) ==> decoded is Err,
{
    if crc8(image.as_slice()) != 0 {
        return Err(Error::CrcMismatch);
    }
    match Resolution::from_config_register(image[4]) {
        None => Err(Error::CrcMismatch),
        Some(resolution) => {
            let raw: u16 = image[0] as u16 + 256 * (image[1] as u16);
            Ok(
                SensorData {
                    temperature: decode_temperature(raw, resolution),
                    resolution,
                    alarm_temp_low: byte_to_signed(image[3]),
                    alarm_temp_high: byte_to_signed(image[2]),
                },
            )
        },
    }
}

/// An intact image with any one byte replaced by another value is refused:
/// it is never taken for a reading.
pub proof fn lemma_corrupted_scratchpad_refused(image: Seq<u8>, at: int, byte: u8)
    requires
        image.len() == 9,
        frame_valid(image),
        0 <= at < 9,
        byte != image[at],
    ensures
        spec_decode_scratchpad(image.update(at, byte)) == Err::<SensorData, Error>(
            Error::CrcMismatch,
        ),
{
    lemma_corrupted_frame_invalid(image, at, byte);
}

/// An intact image that holds the three bytes written to a sensor reads back
/// as the thresholds and the resolution that were written.
pub proof fn lemma_config_reads_back(
    image: Seq<u8>,
    alarm_temp_low: i8,
    alarm_temp_high: i8,
    resolution: Resolution,
)
    requires
        image.len() == 9,
        frame_valid(image),
        image.subrange(2, 5) == spec_config_payload(alarm_temp_low, alarm_temp_high, resolution),
    ensures
        spec_decode_scratchpad(image) matches Ok(data) && data.alarm_temp_low == alarm_temp_low
            && data.alarm_temp_high == alarm_temp_high && data.resolution == resolution,
{
    let payload = spec_config_payload(alarm_temp_low, alarm_temp_high, resolution);
    assert(image[2] == image.subrange(2, 5)[0]);
    assert(image[3] == image.subrange(2, 5)[1]);
    assert(image[4] == image.subrange(2, 5)[2]);
    assert(payload[0] == unsigned8(alarm_temp_high) as u8);
    assert(payload[1] == unsigned8(alarm_temp_low) as u8);
    assert(payload[2] == resolution.spec_config_register());
}

} // verus!
