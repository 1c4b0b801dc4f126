//! The periodic status task of the first version of the protocol, whose
//! packets are text and whose frames are stuffed by the `cobs` crate.

use crate::checksum::{accumulated, Crc32};
use crate::framing::{
    begins_with, holds_no_zero, legacy_frame_of, lemma_padded_frame_is_terminated, padded,
};
use crate::packet::seal_payload;
use crate::tasks::write_telemetry::{fits, TickOutcome, TxBufferState};
use crate::{BUF_SIZE, CRC_SIZE};
use vstd::prelude::*;

verus! {

/// Handles a periodic tick of the first version of the protocol.
///
/// It does what [`write_telemetry`](crate::tasks::write_telemetry::write_telemetry)
/// does, but for the frame, which the `cobs` crate stuffs. That frame holds no
/// zero either, and the buffer behind it is cleared as well.
pub fn periodic_emit_status(
    send: &mut Option<TxBufferState>,
    serialized: Option<&[u8]>,
    crc: &mut Crc32,
) -> (outcome: TickOutcome)
    requires
        old(send).is_some(),
    ensures
        final(send).is_some(),
        !fits(serialized) ==> {
            &&& outcome == TickOutcome::SerializeOverflow
            &&& *final(send) == *old(send)
            &&& final(crc).value() == old(crc).value()
        },
        fits(serialized) ==> final(crc).value() == accumulated(serialized.unwrap()@),
        fits(serialized) && old(send).unwrap() is Running ==> {
            &&& outcome == TickOutcome::Overrun
            &&& *final(send) == *old(send)
        },
        fits(serialized) && old(send).unwrap() is Idle ==> {
            &&& outcome == TickOutcome::Started(
                legacy_frame_of(serialized.unwrap()@).len() as usize,
            )
            &&& legacy_frame_of(serialized.unwrap()@).len() == serialized.unwrap()@.len() + CRC_SIZE
                + 1
            &&& final(send).unwrap() is Running
            &&& holds_no_zero(legacy_frame_of(serialized.unwrap()@))
            &&& final(send).unwrap().transfer()@ == padded(legacy_frame_of(serialized.unwrap()@))
            &&& legacy_frame_of(serialized.unwrap()@).len() < BUF_SIZE ==> begins_with(
                final(send).unwrap().transfer()@,
                legacy_frame_of(serialized.unwrap()@) + seq![0u8],
            )
        },
{
    let payload: &[u8] = match serialized {
        Some(payload) => payload,
        None => {
            return TickOutcome::SerializeOverflow;
        },
    };
    if payload.len() >= BUF_SIZE - CRC_SIZE {
        return TickOutcome::SerializeOverflow;
    }
    let message = seal_payload(payload, crc);
    match send.take().unwrap() {
        TxBufferState::Idle(mut transfer) => {
            let written: usize = transfer.load_legacy_frame(&message);
            proof {
                if written < BUF_SIZE {
                    lemma_padded_frame_is_terminated(legacy_frame_of(payload@));
                }
            }
            *send = Some(TxBufferState::Running(transfer));
            TickOutcome::Started(written)
        },
        TxBufferState::Running(transfer) => {
            *send = Some(TxBufferState::Running(transfer));
            TickOutcome::Overrun
        },
    }
}

} // verus!
