//! Discovery of and communication with thermal sensors on a shared single-wire bus.
//!
//! The crate holds the protocol: the checksum, the address search, the command
//! frames and the decoding of what a sensor answers. It never touches a pin or a
//! timer itself. Every bus operation is a small state machine that names the next
//! action on the wire and takes the wire's reply, so that the caller owns the
//! timing-critical signalling and the protocol can be exercised against any bus,
//! real or simulated.

pub mod address;
pub mod bus;
pub mod crc;
pub mod enumeration;
pub mod error;
pub mod exchange;
pub mod request;
pub mod resolution;
pub mod scratchpad;
pub mod search;
pub mod sensor;
pub mod survey;
pub mod task;
pub mod trial;
