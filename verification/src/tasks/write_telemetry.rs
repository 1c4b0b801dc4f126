//! The periodic telemetry task and the state of the transmit buffer.
//!
//! One DMA transfer carries outbound frames. Its buffer belongs to the
//! software while the transfer is idle and to the DMA stream while it runs, so
//! a frame is written into the buffer only in the step that starts the
//! transfer.

use crate::checksum::{accumulated, Crc32};
use crate::framing::{
    begins_with, cobs_encode, cobs_encoded, frame_of, holds_no_zero,
    lemma_padded_frame_is_terminated, padded, postcard_encode, postcard_encoded,
};
use crate::packet::{seal_payload, Message};
use crate::{BUF_SIZE, CRC_SIZE, MESSAGE_SIZE};
use vstd::prelude::*;

verus! {

/// Seconds between two periodic ticks. A tick asks for the next one, so a
/// tick that runs late delays those after it and never runs beside them.
pub const PERIODIC_DELAY_SECONDS: u32 = 1;

/// The transmit transfer, as far as this library reads and writes it: the
/// contents of its memory buffer.
#[derive(Debug)]
pub struct TxTransfer {
    buffer: [u8; BUF_SIZE],
}

impl TxTransfer {
    /// The contents of the buffer.
    pub closed spec fn view(&self) -> Seq<u8> {
        self.buffer@
    }

    /// A transfer whose buffer holds zeros.
    pub fn new() -> (transfer: TxTransfer)
        ensures
            transfer@ == Seq::new(BUF_SIZE as nat, |i: int| 0u8),
    {
        let transfer = TxTransfer { buffer: [0; BUF_SIZE] };
        assert(transfer@ =~= Seq::new(BUF_SIZE as nat, |i: int| 0u8));
        transfer
    }

    /// The contents of the buffer.
    pub fn buffer(&self) -> (buffer: &[u8; BUF_SIZE])
        ensures
            buffer@ == self@,
    {
        &self.buffer
    }

    /// Writes zeros over the buffer from `start` to its end.
    fn clear_behind(&mut self, start: usize)
        requires
            start <= BUF_SIZE,
        ensures
            final(self)@ == old(self)@.subrange(0, start as int) + Seq::new(
                (BUF_SIZE - start) as nat,
                |i: int| 0u8,
            ),
    {
        let mut i: usize = start;
        while i < BUF_SIZE
            invariant
                start <= i <= BUF_SIZE,
                forall|k: int| 0 <= k < start ==> self.buffer@[k] == old(self).buffer@[k],
                forall|k: int| start <= k < i ==> self.buffer@[k] == 0u8,
            decreases BUF_SIZE - i,
        {
            self.buffer[i] = 0;
            i = i + 1;
        }
        assert(self@ =~= old(self)@.subrange(0, start as int) + Seq::new(
            (BUF_SIZE - start) as nat,
            |i: int| 0u8,
        ));
    }

    /// Writes the frame of a message to the front of the buffer, clears the
    /// buffer behind it, and returns the frame's length.
    pub(crate) fn load_frame(&mut self, message: &Message) -> (written: usize)
        requires
            0 < message@.len() <= MESSAGE_SIZE,
        ensures
            written == postcard_encoded(message@).len(),
            written == message@.len() + 1,
            holds_no_zero(postcard_encoded(message@)),
            final(self)@ == padded(postcard_encoded(message@)),
    {
        let written: usize = postcard_encode(message.as_slice(), &mut self.buffer);
        proof {
            let frame = postcard_encoded(message@);
            assert(self.buffer@.subrange(0, written as int) =~= frame);
            assert forall|i: int| 0 <= i < frame.len() implies frame[i] != 0u8 by {
                assert(self.buffer@[i] == frame[i]);
            }
        }
        self.clear_behind(written);
        written
    }

    /// Writes the frame of a message to the front of the buffer, stuffed as
    /// the first version of the protocol did, clears the buffer behind it, and
    /// returns the frame's length.
    pub(crate) fn load_legacy_frame(&mut self, message: &Message) -> (written: usize)
        requires
            message@.len() <= MESSAGE_SIZE,
        ensures
            written == cobs_encoded(message@).len(),
            written == message@.len() + 1,
            holds_no_zero(cobs_encoded(message@)),
            final(self)@ == padded(cobs_encoded(message@)),
    {
        let written: usize = cobs_encode(message.as_slice(), &mut self.buffer);
        proof {
            let frame = cobs_encoded(message@);
            assert(self.buffer@.subrange(0, written as int) =~= frame);
            assert forall|i: int| 0 <= i < frame.len() implies frame[i] != 0u8 by {
                assert(self.buffer@[i] == frame[i]);
            }
        }
        self.clear_behind(written);
        written
    }
}

/// The state of the transmit buffer. It owns the one transmit transfer, which
/// moves from state to state and is never copied.
#[derive(Debug)]
pub enum TxBufferState {
    /// A transfer is in flight: the buffer belongs to the DMA stream.
    Running(TxTransfer),
    /// No transfer is in flight: the buffer may be written to.
    Idle(TxTransfer),
}

impl TxBufferState {
    /// The transfer that the state owns.
    pub open spec fn transfer(self) -> TxTransfer {
        match self {
            TxBufferState::Running(transfer) => transfer,
            TxBufferState::Idle(transfer) => transfer,
        }
    }

    /// The state at boot: idle, with a zeroed buffer.
    pub fn new() -> (state: TxBufferState)
        ensures
            state is Idle,
            state.transfer()@ == Seq::new(BUF_SIZE as nat, |i: int| 0u8),
    {
        TxBufferState::Idle(TxTransfer::new())
    }

    /// Whether no transfer is in flight.
    pub fn is_idle(&self) -> (idle: bool)
        ensures
            idle == (*self is Idle),
    {
        match self {
            TxBufferState::Idle(_) => true,
            TxBufferState::Running(_) => false,
        }
    }

    /// The contents of the transfer's buffer.
    pub fn buffer(&self) -> (buffer: &[u8; BUF_SIZE])
        ensures
            buffer@ == self.transfer()@,
    {
        match self {
            TxBufferState::Idle(transfer) => transfer.buffer(),
            TxBufferState::Running(transfer) => transfer.buffer(),
        }
    }
}

/// What a periodic tick did.
#[derive(Debug, Clone, Copy, PartialEq, Eq, Structural)]
pub enum TickOutcome {
    /// A frame of this many bytes stands at the front of the buffer, with
    /// zeros behind it, and one transfer is to be started.
    Started(usize),
    /// The previous transfer is still in flight: the tick is dropped.
    Overrun,
    /// The packet did not fit its buffer, or leaves no room for the checksum:
    /// the tick is abandoned.
    SerializeOverflow,
}

/// Whether a serialized packet exists and leaves room for the checksum.
pub open spec fn fits(serialized: Option<&[u8]>) -> bool {
    serialized matches Some(payload) && payload@.len() <= MESSAGE_SIZE - CRC_SIZE
}

/// Handles a periodic tick.
///
/// `send` is the shared slot of the transmit buffer state. The state is taken
/// out of the slot and put back before the handler returns, so the slot is
/// never left empty. `serialized` is the encoded telemetry packet, or `None`
/// where encoding it overflowed its buffer.
///
/// The tick is abandoned with `SerializeOverflow` where there is no packet or
/// it is longer than `MESSAGE_SIZE - CRC_SIZE` bytes. Otherwise the checksum of
/// the packet is computed. If no transfer is in flight, the packet's frame is
/// written to the front of the buffer, the buffer behind the frame is cleared,
/// and the state becomes `Running`. If one is in flight, the state and the
/// buffer stay as they were.
///
/// The frame holds no zero, so the first zero behind it ends it, and nothing
/// of an earlier frame follows. Only the frame of a payload of
/// `MESSAGE_SIZE - CRC_SIZE` bytes, which fills the buffer, goes out without a
/// zero behind it.
pub fn write_telemetry(
    send: &mut Option<TxBufferState>,
    serialized: Option<&[u8]>,
    crc: &mut Crc32,
) -> (outcome: TickOutcome)
    requires
        old(send).is_some(),
    ensures
        final(send).is_some(),
        !fits(serialized) ==> {
            &&& outcome == TickOutcome::SerializeOverflow
            &&& *final(send) == *old(send)
            &&& final(crc).value() == old(crc).value()
        },
        fits(serialized) ==> final(crc).value() == accumulated(serialized.unwrap()@),
        fits(serialized) && old(send).unwrap() is Running ==> {
            &&& outcome == TickOutcome::Overrun
            &&& *final(send) == *old(send)
        },
        fits(serialized) && old(send).unwrap() is Idle ==> {
            &&& outcome == TickOutcome::Started(frame_of(serialized.unwrap()@).len() as usize)
            &&& frame_of(serialized.unwrap()@).len() == serialized.unwrap()@.len() + CRC_SIZE + 1
            &&& final(send).unwrap() is Running
            &&& holds_no_zero(frame_of(serialized.unwrap()@))
            &&& final(send).unwrap().transfer()@ == padded(frame_of(serialized.unwrap()@))
            &&& frame_of(serialized.unwrap()@).len() < BUF_SIZE ==> begins_with(
                final(send).unwrap().transfer()@,
                frame_of(serialized.unwrap()@) + seq![0u8],
            )
        },
{
    let payload: &[u8] = match serialized {
        Some(payload) => payload,
        None => {
            return TickOutcome::SerializeOverflow;
        },
    };
    if payload.len() > MESSAGE_SIZE - CRC_SIZE {
        return TickOutcome::SerializeOverflow;
    }
    let message = seal_payload(payload, crc);
    match send.take().unwrap() {
        TxBufferState::Idle(mut transfer) => {
            let written: usize = transfer.load_frame(&message);
            proof {
                if written < BUF_SIZE {
                    lemma_padded_frame_is_terminated(frame_of(payload@));
                }
            }
            *send = Some(TxBufferState::Running(transfer));
            TickOutcome::Started(written)
        },
        TxBufferState::Running(transfer) => {
            *send = Some(TxBufferState::Running(transfer));
            TickOutcome::Overrun
        },
    }
}

} // verus!
