use vstd::prelude::*;

verus! {

/// Why the receive pipeline dropped a packet, or what went wrong around it.
///
/// Every error is handled within the interrupt that detected it: the packet
/// is dropped and the link keeps working.
#[derive(Debug, Clone, Copy, PartialEq, Eq, Structural)]
pub enum RxError {
    /// The received bytes end before the frame does.
    CobsDecoderNeededMoreBytes,
    /// The received bytes break the byte-stuffing scheme; the decoder had
    /// written this many bytes when it noticed.
    CobsDecoderError(usize),
    /// No bytes were handed to the decoder.
    CobsDecoderPushFailed,
    /// The checksum that the sender appended is not the checksum of the
    /// payload, or the message is too short to hold one.
    InvalidSenderCrc,
    /// The telemetry task could not be scheduled.
    FailedTelemetrySpawn,
    /// The authenticated payload is not the encoding of a request.
    FailedDeserialize,
    /// More bytes arrived than one message may occupy.
    BufferOverflow,
    /// The receive DMA transfer could not be set up again.
    DmaReconfigFailed,
    /// The DMA stream reported an error while receiving.
    DmaTransferFailed,
}

} // verus!
