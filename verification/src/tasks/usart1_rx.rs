//! The receive pipeline: from the bytes that the DMA stream delivered to an
//! authenticated payload, and from there to the telemetry task.
//!
//! Every interrupt on the receive side (the line fell idle, or the buffer is
//! full) runs the same steps to completion. The firmware copies the DMA buffer,
//! sets the transfer up again, and hands both results to [`handle_rx`]. It
//! then decodes a request from the payload, reports it to [`accept_request`],
//! spawns the telemetry task and reports that to [`confirm_spawn`].

use crate::checksum::{
    be_bytes, checksum, lemma_be_word_of_be_bytes, lemma_checksum_detects_one_byte, Crc32,
};
use crate::datamodel::request::Request;
use crate::datamodel::rx_errors::RxError;
use crate::framing::{begins_with, decode, decoded, frame_of, postcard_encoded};
use crate::packet::{
    authenticated, delivered, lemma_sealed_is_authentic, open_message, register_after_opening,
    sealed, Payload,
};
use crate::{BUF_SIZE, CRC_SIZE, MESSAGE_SIZE};
use vstd::prelude::*;

verus! {

/// What the pipeline makes of the received bytes: the payload of the first
/// frame among them, if that frame is whole and intact.
pub open spec fn packet_outcome(input: Seq<u8>) -> Result<Seq<u8>, RxError> {
    match decoded(input) {
        Ok(message) => authenticated(message),
        Err(error) => Err(error),
    }
}

/// The checksum accumulator after the pipeline dealt with the received bytes.
pub open spec fn register_after_packet(input: Seq<u8>, before: u32) -> u32 {
    match decoded(input) {
        Ok(message) => register_after_opening(message, before),
        Err(_) => before,
    }
}

/// Decodes the first frame among the received bytes and checks its integrity.
///
/// The bytes are decoded as [`decode`] says, and the decoded message is opened
/// as [`open_message`] says: its payload is handed out if the checksum at its
/// end is the checksum of the payload.
///
/// Receiving undoes what the transmit side does: where the bytes begin with
/// the frame of a payload of at most `MESSAGE_SIZE - CRC_SIZE` bytes and a
/// terminating zero, the result is that payload.
pub fn process_mabie_packet(input_buffer: &[u8], crc: &mut Crc32) -> (result: Result<
    Payload,
    RxError,
>)
    ensures
        delivered(result) == packet_outcome(input_buffer@),
        final(crc).value() == register_after_packet(input_buffer@, old(crc).value()),
        (forall|payload: Seq<u8>|
            #![trigger frame_of(payload)]
            payload.len() <= MESSAGE_SIZE - CRC_SIZE && begins_with(
                input_buffer@,
                frame_of(payload) + seq![0u8],
            ) ==> (delivered(result) matches Ok(bytes) && bytes == payload)),
{
    let result = match decode(input_buffer) {
        Ok(message) => open_message(message, crc),
        Err(error) => Err(error),
    };
    proof {
        assert forall|payload: Seq<u8>|
            #![trigger frame_of(payload)]
            payload.len() <= MESSAGE_SIZE - CRC_SIZE && begins_with(
                input_buffer@,
                frame_of(payload) + seq![0u8],
            ) implies (delivered(result) matches Ok(bytes) && bytes == payload) by {
            lemma_sealed_is_authentic(payload);
            assert(postcard_encoded(sealed(payload)) == frame_of(payload));
        }
    }
    result
}

/// The number of bytes that the DMA stream delivered, given how many of the
/// `BUF_SIZE` transfers it still had to make.
pub open spec fn bytes_received(remaining_transfers: usize) -> int {
    BUF_SIZE - remaining_transfers
}

/// What the pipeline makes of one interrupt, from the state of the DMA stream
/// and the copy of its buffer.
///
/// Only the bytes that were received count: what the buffer holds behind them
/// is left from earlier transfers and is not decoded.
pub open spec fn rx_outcome(remaining_transfers: usize, rearmed: bool, snapshot: Seq<u8>) -> Result<
    Seq<u8>,
    RxError,
> {
    if !rearmed {
        Err(RxError::DmaReconfigFailed)
    } else if bytes_received(remaining_transfers) > MESSAGE_SIZE {
        Err(RxError::BufferOverflow)
    } else {
        packet_outcome(snapshot.subrange(0, bytes_received(remaining_transfers)))
    }
}

/// The checksum accumulator after the pipeline dealt with one interrupt.
pub open spec fn register_after_rx(
    remaining_transfers: usize,
    rearmed: bool,
    snapshot: Seq<u8>,
    before: u32,
) -> u32 {
    if !rearmed || bytes_received(remaining_transfers) > MESSAGE_SIZE {
        before
    } else {
        register_after_packet(snapshot.subrange(0, bytes_received(remaining_transfers)), before)
    }
}

/// Handles what one interrupt on the receive side delivered.
///
/// `remaining_transfers` is the count that the DMA stream had left when the
/// interrupt fired, `snapshot` is the copy of its buffer, taken before the
/// transfer was set up again, and `rearmed` says whether setting it up again
/// succeeded.
///
/// Where the transfer could not be set up again the result is
/// `DmaReconfigFailed` and nothing is decoded. Where more than `MESSAGE_SIZE`
/// bytes arrived the result is `BufferOverflow`. Otherwise the received bytes
/// go through [`process_mabie_packet`].
pub fn handle_rx(
    remaining_transfers: usize,
    rearmed: bool,
    snapshot: &[u8; BUF_SIZE],
    crc: &mut Crc32,
) -> (result: Result<Payload, RxError>)
    requires
        remaining_transfers <= BUF_SIZE,
    ensures
        delivered(result) == rx_outcome(remaining_transfers, rearmed, snapshot@),
        final(crc).value() == register_after_rx(
            remaining_transfers,
            rearmed,
            snapshot@,
            old(crc).value(),
        ),
        (forall|payload: Seq<u8>|
            #![trigger frame_of(payload)]
            rearmed && payload.len() <= MESSAGE_SIZE - CRC_SIZE && frame_of(payload).len() + 1
                <= bytes_received(remaining_transfers) <= MESSAGE_SIZE && begins_with(
                snapshot@,
                frame_of(payload) + seq![0u8],
            ) ==> (delivered(result) matches Ok(bytes) && bytes == payload)),
{
    let bytes_transfered: usize = BUF_SIZE - remaining_transfers;
    if !rearmed {
        return Err(RxError::DmaReconfigFailed);
    }
    if bytes_transfered > MESSAGE_SIZE {
        return Err(RxError::BufferOverflow);
    }
    let received = vstd::slice::slice_subrange(snapshot.as_slice(), 0, bytes_transfered);
    let result = process_mabie_packet(received, crc);
    proof {
        assert forall|payload: Seq<u8>|
            #![trigger frame_of(payload)]
            payload.len() <= MESSAGE_SIZE - CRC_SIZE && frame_of(payload).len() + 1
                <= bytes_transfered && begins_with(snapshot@, frame_of(payload) + seq![0u8])
                implies (delivered(result) matches Ok(bytes) && bytes == payload) by {
            let head = frame_of(payload) + seq![0u8];
            assert(received@.subrange(0, head.len() as int) == snapshot@.subrange(
                0,
                head.len() as int,
            ));
        }
    }
    result
}

/// Tells whether the DMA stream reported an error while it received.
///
/// Such an error is a diagnostic to log, not a reason to drop the packet.
pub fn dma_transfer_fault(direct_mode_error: bool, transfer_error: bool, fifo_error: bool) -> (fault:
    Option<RxError>)
    ensures
        direct_mode_error || transfer_error || fifo_error ==> fault == Some(
            RxError::DmaTransferFailed,
        ),
        !(direct_mode_error || transfer_error || fifo_error) ==> fault.is_none(),
{
    if direct_mode_error || transfer_error || fifo_error {
        Some(RxError::DmaTransferFailed)
    } else {
        None
    }
}

/// Takes what decoding the authenticated payload gave: the request, or
/// nothing where the payload is not the encoding of a request.
///
/// A request, of whatever kind, asks for the telemetry task to be spawned.
pub fn accept_request(decoded: Option<Request>) -> (result: Result<Request, RxError>)
    ensures
        decoded matches Some(request) ==> (result matches Ok(accepted) && accepted == request),
        decoded.is_none() ==> result matches Err(RxError::FailedDeserialize),
{
    match decoded {
        Some(request) => Ok(request),
        None => Err(RxError::FailedDeserialize),
    }
}

/// Takes whether the telemetry task could be spawned.
///
/// A failed spawn is reported as `FailedTelemetrySpawn`; the packet was
/// received all the same.
pub fn confirm_spawn(spawned: bool) -> (result: Result<(), RxError>)
    ensures
        spawned ==> (result matches Ok(done) && done == ()),
        !spawned ==> result matches Err(RxError::FailedTelemetrySpawn),
{
    if spawned {
        Ok(())
    } else {
        Err(RxError::FailedTelemetrySpawn)
    }
}

/// The integrity gate: a frame that is well formed, but in which a byte of the
/// payload was changed on the way, is rejected with `InvalidSenderCrc`, so
/// that no payload is handed out for it.
///
/// This holds of every byte that the checksum covers, which are the bytes
/// before the payload's last word boundary.
pub proof fn lemma_corrupted_payload_is_rejected(
    input: Seq<u8>,
    payload: Seq<u8>,
    position: int,
    byte: u8,
)
    requires
        0 <= position < 4 * (payload.len() / 4),
        payload[position] != byte,
        decoded(input) matches Ok(message) && message == payload.update(position, byte)
            + be_bytes(checksum(payload)),
    ensures
        packet_outcome(input) matches Err(RxError::InvalidSenderCrc),
{
    let changed = payload.update(position, byte);
    let message = changed + be_bytes(checksum(payload));
    lemma_checksum_detects_one_byte(payload, position, byte);
    lemma_be_word_of_be_bytes(checksum(payload));
    assert(message.subrange(0, message.len() - CRC_SIZE) == changed);
}

/// An interrupt that brought no new bytes delivers no payload, whatever the
/// buffer still holds: a frame that an earlier interrupt delivered is not
/// delivered a second time.
pub proof fn lemma_no_bytes_no_payload(rearmed: bool, snapshot: Seq<u8>)
    ensures
        rx_outcome(BUF_SIZE, rearmed, snapshot) is Err,
        rearmed ==> rx_outcome(BUF_SIZE, rearmed, snapshot) matches Err(
            RxError::CobsDecoderPushFailed,
        ),
{
    assert(snapshot.subrange(0, 0).len() == 0);
}

/// What an interrupt delivers depends on the received bytes alone: two
/// buffers that agree on them give the same outcome, whatever else they hold.
pub proof fn lemma_only_received_bytes_count(
    remaining_transfers: usize,
    rearmed: bool,
    first: Seq<u8>,
    second: Seq<u8>,
)
    requires
        remaining_transfers <= BUF_SIZE,
        first.subrange(0, bytes_received(remaining_transfers)) == second.subrange(
            0,
            bytes_received(remaining_transfers),
        ),
    ensures
        rx_outcome(remaining_transfers, rearmed, first) == rx_outcome(
            remaining_transfers,
            rearmed,
            second,
        ),
{
}

} // verus!
