//! The 64-bit identifier that singles out one device on the bus.
//!
//! Sent least significant byte first, an address is the family code, six bytes
//! of serial number, and the checksum of those seven bytes.

use crate::crc::{crc8, frame_valid, lemma_frame_valid_iff_trailer_matches, spec_crc8};
use vstd::prelude::*;

verus! {

/// The family code of the thermal sensor.
pub const FAMILY_CODE: u8 = 0x28;

/// Byte `index` of `raw`, counted from the least significant.
pub open spec fn byte_of(raw: u64, index: u64) -> u8 {
    ((raw >> (8 * index)) & 0xff) as u8
}

/// The eight bytes of `raw` in the order in which they travel on the bus.
pub open spec fn le_bytes(raw: u64) -> Seq<u8> {
    Seq::new(8, |i: int| byte_of(raw, i as u64))
}

/// The address of a device.
#[derive(Clone, Copy, Debug, PartialEq, Eq, Hash, Structural)]
pub struct Address(pub u64);

/// What kind of device an address belongs to, as far as this crate can tell.
#[derive(Clone, Copy, Debug, PartialEq, Eq, Structural)]
pub enum DeviceKind {
    /// A thermal sensor.
    Thermometer,
    /// A device of another family, with its family code.
    Other(u8),
}

impl Address {
    /// The family code: the first byte on the bus.
    pub open spec fn spec_family_code(self) -> u8 {
        byte_of(self.0, 0)
    }

    /// The serial number: the six bytes between family code and checksum.
    pub open spec fn spec_serial_number(self) -> u64 {
        (self.0 >> 8) & 0xffff_ffff_ffff
    }

    /// The checksum: the last byte on the bus.
    pub open spec fn spec_checksum(self) -> u8 {
        byte_of(self.0, 7)
    }

    /// Whether the last byte is the checksum of the seven before it.
    pub open spec fn spec_is_valid(self) -> bool {
        frame_valid(le_bytes(self.0))
    }

    /// The kind of device that the family code names.
    pub open spec fn spec_kind(self) -> DeviceKind {
        if self.spec_family_code() == FAMILY_CODE {
            DeviceKind::Thermometer
        } else {
            DeviceKind::Other(self.spec_family_code())
        }
    }

    /// The eight bytes of the address in bus order.
    pub fn to_le_bytes(&self) -> (bytes: [u8; 8])
        ensures
            bytes@ == le_bytes(self.0),
    {
        let raw: u64 = self.0;
        let bytes: [u8; 8] = [
            ((raw >> 0) & 0xff) as u8,
            ((raw >> 8) & 0xff) as u8,
            ((raw >> 16) & 0xff) as u8,
            ((raw >> 24) & 0xff) as u8,
            ((raw >> 32) & 0xff) as u8,
            ((raw >> 40) & 0xff) as u8,
            ((raw >> 48) & 0xff) as u8,
            ((raw >> 56) & 0xff) as u8,
        ];
        assert(bytes@ =~= le_bytes(raw));
        bytes
    }

    /// The family code of the device.
    pub fn family_code(&self) -> (code: u8)
        ensures
            code == self.spec_family_code(),
    {
        let bytes: [u8; 8] = self.to_le_bytes();
        bytes[0]
    }

    /// The serial number of the device.
    pub fn serial_number(&self) -> (serial: u64)
        ensures
            serial == self.spec_serial_number(),
    {
        (self.0 >> 8) & 0xffff_ffff_ffff
    }

    /// The checksum that the address carries.
    pub fn checksum(&self) -> (checksum: u8)
        ensures
            checksum == self.spec_checksum(),
    {
        let bytes: [u8; 8] = self.to_le_bytes();
        bytes[7]
    }

    /// Whether the address carries a matching checksum: whether its last
    /// byte is the checksum of the family code and the serial number.
    pub fn is_valid(&self) -> (valid: bool)
        ensures
            valid == self.spec_is_valid(),
            valid == (spec_crc8(le_bytes(self.0).take(7)) == self.spec_checksum()),
    {
        let bytes: [u8; 8] = self.to_le_bytes();
        proof {
            lemma_frame_valid_iff_trailer_matches(bytes@);
            assert(bytes@.drop_last() =~= bytes@.take(7));
        }
        crc8(bytes.as_slice()) == 0
    }

    /// The kind of device behind the address.
    pub fn kind(&self) -> (kind: DeviceKind)
        ensures
            kind == self.spec_kind(),
    {
        let code: u8 = self.family_code();
        if code == FAMILY_CODE {
            DeviceKind::Thermometer
        } else {
            DeviceKind::Other(code)
        }
    }
}

} // verus!
