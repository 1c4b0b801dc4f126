//! Messages and payloads.
//!
//! A message is a payload followed by the payload's checksum in big-endian
//! order. The transmit side seals a payload into a message; the receive side
//! opens a message and hands out its payload only if the checksum agrees.

use crate::checksum::{
    accumulated, be_bytes, be_word, checksum, compute_crc, lemma_be_word_of_be_bytes, read_be_word,
    Crc32,
};
use crate::datamodel::rx_errors::RxError;
use crate::{BUF_SIZE, CRC_SIZE, MESSAGE_SIZE};
use vstd::prelude::*;

verus! {

/// A payload followed by its checksum, most significant byte first.
pub open spec fn sealed(payload: Seq<u8>) -> Seq<u8> {
    payload + be_bytes(checksum(payload))
}

/// The checksum that the sender appended: the last four bytes of a message,
/// read in big-endian order.
pub open spec fn sender_checksum(message: Seq<u8>) -> u32
    recommends
        message.len() >= CRC_SIZE,
{
    let end = message.len() as int;
    be_word(message[end - 4], message[end - 3], message[end - 2], message[end - 1])
}

/// The payload of a message, if the message proves to be intact: it is long
/// enough to end in a checksum, and that checksum is the checksum of the bytes
/// before it.
pub open spec fn authenticated(message: Seq<u8>) -> Result<Seq<u8>, RxError> {
    let payload = message.subrange(0, message.len() - CRC_SIZE);
    if message.len() < CRC_SIZE {
        Err(RxError::InvalidSenderCrc)
    } else if sender_checksum(message) != checksum(payload) {
        Err(RxError::InvalidSenderCrc)
    } else {
        Ok(payload)
    }
}

/// The checksum accumulator after a message was opened: untouched where the
/// message is too short to end in a checksum, else left by the computation
/// over the payload.
pub open spec fn register_after_opening(message: Seq<u8>, before: u32) -> u32 {
    if message.len() < CRC_SIZE {
        before
    } else {
        accumulated(message.subrange(0, message.len() - CRC_SIZE))
    }
}

/// A sealed payload is intact, and opening it gives the payload back.
pub proof fn lemma_sealed_is_authentic(payload: Seq<u8>)
    ensures
        sealed(payload).len() == payload.len() + CRC_SIZE,
        authenticated(sealed(payload)) matches Ok(opened) && opened == payload,
{
    let message = sealed(payload);
    lemma_be_word_of_be_bytes(checksum(payload));
    assert(message.subrange(0, message.len() - CRC_SIZE) == payload);
}

/// A message of at most `BUF_SIZE` bytes: what was sealed for sending, or
/// what was decoded from a frame and may or may not be intact.
#[derive(Debug)]
pub struct Message {
    buffer: [u8; BUF_SIZE],
    length: usize,
}

impl Message {
    #[verifier::type_invariant]
    spec fn well_formed(&self) -> bool {
        self.length <= BUF_SIZE
    }

    /// The bytes of the message.
    pub closed spec fn view(&self) -> Seq<u8> {
        self.buffer@.subrange(0, self.length as int)
    }

    /// The message that stands at the front of a buffer.
    pub fn new(buffer: [u8; BUF_SIZE], length: usize) -> (message: Message)
        requires
            length <= BUF_SIZE,
        ensures
            message@ == buffer@.subrange(0, length as int),
    {
        Message { buffer, length }
    }

    /// The message that holds the given bytes, if they are no more than
    /// `BUF_SIZE`.
    pub fn from_slice(bytes: &[u8]) -> (message: Option<Message>)
        ensures
            bytes@.len() <= BUF_SIZE ==> message.is_some() && message.unwrap()@ == bytes@,
            bytes@.len() > BUF_SIZE ==> message.is_none(),
    {
        let length: usize = bytes.len();
        if length > BUF_SIZE {
            return None;
        }
        let mut buffer: [u8; BUF_SIZE] = [0; BUF_SIZE];
        let mut i: usize = 0;
        while i < length
            invariant
                length == bytes@.len(),
                length <= BUF_SIZE,
                i <= length,
                forall|k: int| 0 <= k < i ==> buffer@[k] == bytes@[k],
            decreases length - i,
        {
            buffer[i] = bytes[i];
            i = i + 1;
        }
        let message = Message { buffer, length };
        assert(message@ =~= bytes@);
        Some(message)
    }

    /// The number of bytes of the message.
    pub fn len(&self) -> (length: usize)
        ensures
            length == self@.len(),
            length <= BUF_SIZE,
    {
        proof {
            use_type_invariant(self);
        }
        self.length
    }

    /// The bytes of the message.
    pub fn as_slice(&self) -> (bytes: &[u8])
        ensures
            bytes@ == self@,
    {
        proof {
            use_type_invariant(self);
        }
        vstd::slice::slice_subrange(self.buffer.as_slice(), 0, self.length)
    }
}

/// A payload that passed the integrity check.
///
/// Only opening a message makes one: the bytes of a `Payload` agree with the
/// checksum that their sender appended.
#[derive(Debug)]
pub struct Payload {
    buffer: [u8; BUF_SIZE],
    length: usize,
}

impl Payload {
    #[verifier::type_invariant]
    spec fn well_formed(&self) -> bool {
        self.length <= BUF_SIZE
    }

    /// The bytes of the payload.
    pub closed spec fn view(&self) -> Seq<u8> {
        self.buffer@.subrange(0, self.length as int)
    }

    /// The number of bytes of the payload.
    pub fn len(&self) -> (length: usize)
        ensures
            length == self@.len(),
    {
        proof {
            use_type_invariant(self);
        }
        self.length
    }

    /// The bytes of the payload.
    pub fn as_slice(&self) -> (bytes: &[u8])
        ensures
            bytes@ == self@,
    {
        proof {
            use_type_invariant(self);
        }
        vstd::slice::slice_subrange(self.buffer.as_slice(), 0, self.length)
    }
}

/// A result of the receive side as a plain value: the bytes of the payload,
/// or the error.
pub open spec fn delivered(result: Result<Payload, RxError>) -> Result<Seq<u8>, RxError> {
    match result {
        Ok(payload) => Ok(payload@),
        Err(error) => Err(error),
    }
}

/// Seals a payload: writes its checksum behind it.
pub fn seal_payload(payload: &[u8], crc: &mut Crc32) -> (message: Message)
    requires
        payload@.len() <= MESSAGE_SIZE - CRC_SIZE,
    ensures
        message@ == sealed(payload@),
        final(crc).value() == accumulated(payload@),
{
    let size: usize = payload.len();
    let mut buffer: [u8; BUF_SIZE] = [0; BUF_SIZE];
    let mut i: usize = 0;
    while i < size
        invariant
            size == payload@.len(),
            size <= MESSAGE_SIZE - CRC_SIZE,
            i <= size,
            forall|k: int| 0 <= k < i ==> buffer@[k] == payload@[k],
        decreases size - i,
    {
        buffer[i] = payload[i];
        i = i + 1;
    }
    let sum: u32 = compute_crc(payload, crc);
    buffer[size] = (sum >> 24) as u8;
    buffer[size + 1] = ((sum >> 16) & 0xff) as u8;
    buffer[size + 2] = ((sum >> 8) & 0xff) as u8;
    buffer[size + 3] = (sum & 0xff) as u8;
    let message = Message { buffer, length: size + CRC_SIZE };
    assert(message@ =~= sealed(payload@));
    message
}

/// Opens a message: splits the checksum off its end and compares it with the
/// checksum of the rest.
///
/// The payload is handed out if the two agree. A message that is too short to
/// end in a checksum, or whose checksum is not that of its payload, is
/// `InvalidSenderCrc`.
pub fn open_message(message: Message, crc: &mut Crc32) -> (result: Result<Payload, RxError>)
    ensures
        delivered(result) == authenticated(message@),
        final(crc).value() == register_after_opening(message@, old(crc).value()),
{
    proof {
        use_type_invariant(&message);
    }
    let length: usize = message.length;
    if length < CRC_SIZE {
        return Err(RxError::InvalidSenderCrc);
    }
    let size: usize = length - CRC_SIZE;
    let sender_crc: u32 = read_be_word(message.buffer.as_slice(), size);
    let device_crc: u32 = compute_crc(
        vstd::slice::slice_subrange(message.buffer.as_slice(), 0, size),
        crc,
    );
    proof {
        assert(message@.subrange(0, message@.len() - CRC_SIZE) == message.buffer@.subrange(
            0,
            size as int,
        ));
    }
    if sender_crc != device_crc {
        Err(RxError::InvalidSenderCrc)
    } else {
        Ok(Payload { buffer: message.buffer, length: size })
    }
}

} // verus!
