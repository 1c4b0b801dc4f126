//! The framing codec: byte stuffing that keeps the value zero out of a
//! message, so that a zero on the wire marks the end of a frame.
//!
//! The stuffing itself is the work of the `postcard_cobs` crate. This module
//! names what that crate computes and states what the library relies on.

use crate::datamodel::rx_errors::RxError;
use crate::packet::{sealed, Message};
use crate::{BUF_SIZE, MESSAGE_SIZE};
use vstd::prelude::*;

verus! {

/// The byte-stuffed form of a message: the bytes that
/// `postcard_cobs::encode` writes for it. The terminating zero is not part
/// of it.
pub uninterp spec fn postcard_encoded(message: Seq<u8>) -> Seq<u8>;

/// What `postcard_cobs::CobsDecoder::push` reports when a fresh decoder
/// with room for `capacity` bytes is handed `input`:
/// `Ok(Some((message, consumed)))` where it found the end of a frame after
/// `consumed` bytes and decoded `message` from them, `Ok(None)` where the
/// input ended before the frame did, and `Err(written)` where the input broke
/// the stuffing scheme, or overran the room, after `written` decoded bytes.
pub uninterp spec fn postcard_decoded(input: Seq<u8>, capacity: nat) -> Result<Option<(Seq<u8>, nat)>, nat>;

/// Whether `input` begins with `head`.
pub open spec fn begins_with(input: Seq<u8>, head: Seq<u8>) -> bool {
    head.len() <= input.len() && input.subrange(0, head.len() as int) == head
}

/// Calls `postcard_cobs::encode`, which stuffs `source` into the front of
/// `dest` and returns how many bytes it wrote.
///
/// Claimed of it, for a source shorter than 254 bytes and a destination longer
/// than the source: it writes the stuffed form at the front of `dest` and
/// leaves the rest of `dest` as it was; it returns the length of the stuffed
/// form, which is zero for an empty source and one more than the source's
/// length otherwise; and it writes no zero. (The encoder steps its write index
/// once per source byte, starting from one, and returns zero where it never
/// stepped. It writes the source's bytes that are not zero and, in the place
/// of each zero, a count that starts at one; the crate describes its encoding
/// as one in which the value zero is not used.)
#[verifier::external_body]
pub(crate) fn postcard_encode(source: &[u8], dest: &mut [u8]) -> (written: usize)
    requires
        source@.len() < 254,
        source@.len() < old(dest)@.len(),
    ensures
        written == postcard_encoded(source@).len(),
        source@.len() == 0 ==> written == 0,
        source@.len() > 0 ==> written == source@.len() + 1,
        (forall|i: int| 0 <= i < written ==> final(dest)@[i] != 0u8),
        final(dest)@ == postcard_encoded(source@) + old(dest)@.subrange(
            written as int,
            old(dest)@.len() as int,
        ),
{
    postcard_cobs::encode(source, dest)
}

/// The byte-stuffed form of a message as the `cobs` crate makes it: the bytes
/// that `cobs::encode` writes for it. The terminating zero is not part of it.
pub uninterp spec fn cobs_encoded(message: Seq<u8>) -> Seq<u8>;

/// Calls `cobs::encode`, which stuffs `source` into the front of `dest` and
/// returns how many bytes it wrote.
///
/// Claimed of it, for a source shorter than 254 bytes and a destination longer
/// than the source: it writes the stuffed form at the front of `dest` and
/// leaves the rest of `dest` as it was; it returns the length of the stuffed
/// form, which is one more than the source's length; and it writes no zero.
/// (The encoder steps its write index once per source byte, starting from one.
/// It writes the source's bytes that are not zero and, in the place of each
/// zero, a count that starts at one. It does not end the message with a zero:
/// that is left to the caller.)
#[verifier::external_body]
pub(crate) fn cobs_encode(source: &[u8], dest: &mut [u8]) -> (written: usize)
    requires
        source@.len() < 254,
        source@.len() < old(dest)@.len(),
    ensures
        written == cobs_encoded(source@).len(),
        written == source@.len() + 1,
        (forall|i: int| 0 <= i < written ==> final(dest)@[i] != 0u8),
        final(dest)@ == cobs_encoded(source@) + old(dest)@.subrange(
            written as int,
            old(dest)@.len() as int,
        ),
{
    cobs::encode(source, dest)
}

/// Makes a decoder over `dest` with `postcard_cobs::CobsDecoder::new` and
/// hands it `input` with `postcard_cobs::CobsDecoder::push`.
///
/// Claimed of it: the report is the one named by [`postcard_decoded`], with the
/// decoded message standing at the front of `dest`; neither a decoded message
/// nor the count of an error is longer than `dest`. And decoding undoes
/// encoding: where `input` begins with the stuffed form of a message of 1 to
/// 253 bytes that fits `dest`, followed by a zero, the decoder reports a
/// message of that length and the message stands at the front of `dest`. (The
/// crate's own tests hold it to that: what was encoded comes back when it is
/// decoded.)
#[verifier::external_body]
pub(crate) fn postcard_decode(input: &[u8], dest: &mut [u8]) -> (report: Result<Option<(usize, usize)>, usize>)
    ensures
        (match report {
            Ok(Some((length, consumed))) => {
                &&& length <= old(dest)@.len()
                &&& postcard_decoded(input@, old(dest)@.len()) matches Ok(Some((message, used)))
                &&& message == final(dest)@.subrange(0, length as int)
                &&& used == consumed
            },
            Ok(None) => postcard_decoded(input@, old(dest)@.len()) matches Ok(None),
            Err(written) => {
                &&& written <= old(dest)@.len()
                &&& postcard_decoded(input@, old(dest)@.len()) matches Err(count)
                &&& count == written
            },
        }),
        (forall|message: Seq<u8>|
            #![trigger postcard_encoded(message)]
            0 < message.len() < 254 && message.len() <= old(dest)@.len() && begins_with(
                input@,
                postcard_encoded(message) + seq![0u8],
            ) ==> {
                &&& report matches Ok(Some((length, _)))
                &&& length == message.len()
                &&& final(dest)@.subrange(0, message.len() as int) == message
            }),
{
    let mut decoder = postcard_cobs::CobsDecoder::new(dest);
    decoder.push(input)
}

/// The frame of a payload as it goes on the wire, without the terminating
/// zero.
pub open spec fn frame_of(payload: Seq<u8>) -> Seq<u8> {
    postcard_encoded(sealed(payload))
}

/// The frame of a payload as the first version of the protocol put it on the
/// wire, stuffed by the `cobs` crate, without the terminating zero.
pub open spec fn legacy_frame_of(payload: Seq<u8>) -> Seq<u8> {
    cobs_encoded(sealed(payload))
}

/// Whether no byte of a frame is zero, so that the first zero behind the
/// frame is its end.
pub open spec fn holds_no_zero(frame: Seq<u8>) -> bool {
    forall|i: int| 0 <= i < frame.len() ==> frame[i] != 0u8
}

/// The transmit buffer that holds a frame: the frame stands at its front and
/// every byte behind the frame is zero.
///
/// The first of these zeros ends the frame. A frame of `BUF_SIZE` bytes, which
/// is the frame of the longest payload, fills the buffer and leaves room for
/// none: the end of such a frame is the line falling idle.
pub open spec fn padded(frame: Seq<u8>) -> Seq<u8>
    recommends
        frame.len() <= BUF_SIZE,
{
    frame + Seq::new((BUF_SIZE - frame.len()) as nat, |i: int| 0u8)
}

/// A frame that is shorter than the transmit buffer goes on the wire with its
/// terminating zero: the buffer begins with the frame and a zero, which is
/// what the receive side asks of the bytes that it is handed.
pub proof fn lemma_padded_frame_is_terminated(frame: Seq<u8>)
    requires
        frame.len() < BUF_SIZE,
    ensures
        padded(frame).len() == BUF_SIZE,
        begins_with(padded(frame), frame + seq![0u8]),
{
    let head = frame + seq![0u8];
    assert(padded(frame).subrange(0, head.len() as int) =~= head);
}

/// What decoding makes of the received bytes: the message of the first frame
/// among them, or the reason why there is none.
///
/// With no bytes at all there is nothing to push into the decoder. A frame
/// that ends before its terminating zero needs more bytes. A frame that breaks
/// the stuffing scheme is a decoder error, with the number of bytes that the
/// decoder had written when it noticed.
pub open spec fn decoded(frame_bytes: Seq<u8>) -> Result<Seq<u8>, RxError> {
    if frame_bytes.len() == 0 {
        Err(RxError::CobsDecoderPushFailed)
    } else {
        match postcard_decoded(frame_bytes, BUF_SIZE as nat) {
            Ok(Some((message, _))) => Ok(message),
            Ok(None) => Err(RxError::CobsDecoderNeededMoreBytes),
            Err(written) => Err(RxError::CobsDecoderError(written as usize)),
        }
    }
}

/// A result of decoding as a plain value: the bytes of the message, or the
/// error.
pub open spec fn received(result: Result<Message, RxError>) -> Result<Seq<u8>, RxError> {
    match result {
        Ok(message) => Ok(message@),
        Err(error) => Err(error),
    }
}

/// Reads a decoder's report: the length of the decoded message, or the error
/// that the report stands for.
///
/// The length is that of the message alone: the terminating zero, which the
/// decoder consumed, is not counted.
pub fn decoder_outcome(report: Result<Option<(usize, usize)>, usize>) -> (outcome: Result<
    usize,
    RxError,
>)
    ensures
        report matches Ok(Some((length, _))) ==> (outcome matches Ok(size) && size == length),
        report matches Ok(None) ==> outcome matches Err(RxError::CobsDecoderNeededMoreBytes),
        report matches Err(written) ==> (outcome matches Err(RxError::CobsDecoderError(count))
            && count == written),
{
    match report {
        Ok(Some((length, _))) => Ok(length),
        Ok(None) => Err(RxError::CobsDecoderNeededMoreBytes),
        Err(written) => Err(RxError::CobsDecoderError(written)),
    }
}

/// Decodes the first frame among the received bytes.
///
/// Decoding undoes stuffing: where the bytes begin with the stuffed form of a
/// message of 1 to `MESSAGE_SIZE` bytes and a terminating zero, the result is
/// that message.
pub fn decode(frame_bytes: &[u8]) -> (result: Result<Message, RxError>)
    ensures
        received(result) == decoded(frame_bytes@),
        (forall|message: Seq<u8>|
            #![trigger postcard_encoded(message)]
            0 < message.len() <= MESSAGE_SIZE && begins_with(
                frame_bytes@,
                postcard_encoded(message) + seq![0u8],
            ) ==> (received(result) matches Ok(bytes) && bytes == message)),
{
    if frame_bytes.len() == 0 {
        return Err(RxError::CobsDecoderPushFailed);
    }
    let mut buffer: [u8; BUF_SIZE] = [0; BUF_SIZE];
    let report = postcard_decode(frame_bytes, &mut buffer);
    match decoder_outcome(report) {
        Ok(length) => Ok(Message::new(buffer, length)),
        Err(error) => Err(error),
    }
}

} // verus!
