//! Communication core of a turret-position telemetry device.
//!
//! The device reports the position of a turret over a serial link and accepts
//! requests over the same link. Every packet on the wire is
//! `stuff(payload ++ crc32_be(payload))`: the payload, followed by its
//! checksum in big-endian order, byte-stuffed so that the value zero marks the
//! end of a frame.
//!
//! This crate holds the part of the firmware that decides: the checksum
//! engine, the framing of packets, the transmit buffer state machine and the
//! receive pipeline. Peripheral access, interrupt dispatch and the encoding of
//! typed packets into bytes stay with the firmware that links it.
//!
//! - [`checksum`]: the checksum engine.
//! - [`packet`]: sealing a payload into a message and opening a message.
//! - [`framing`]: byte stuffing, which the `postcard_cobs` and `cobs` crates
//!   do. Their three calls are the only code here that is believed and not
//!   proved; each states what it claims.
//! - [`tasks`]: what each interrupt handler and task decides.
//! - [`datamodel`]: requests, telemetry packets and receive errors.

use vstd::prelude::*;

pub mod checksum;
pub mod datamodel;
pub mod framing;
pub mod packet;
pub mod tasks;

verus! {

/// Size in bytes of each serial DMA buffer.
pub const BUF_SIZE: usize = 32;

/// Largest number of bytes that one message on the serial link may occupy.
pub const MESSAGE_SIZE: usize = BUF_SIZE - 1;

/// Number of bytes that the checksum occupies at the end of a message.
pub const CRC_SIZE: usize = 4;

} // verus!
