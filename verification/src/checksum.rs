//! The checksum engine: a 32-bit CRC over whole big-endian words.
//!
//! The engine is a shift register of 32 bits. A word is folded in by adding it
//! to the register (bit by bit, without carry) and shifting the register 32
//! times; whenever a shift pushes a one out at the top, the generator
//! polynomial is added. A buffer of bytes is checked word by word, each word
//! read in big-endian order, and the bytes that do not fill a last word are
//! left out.
//!
//! The accumulator shifts four bits at a time: what the four bits at the top
//! add to the register while they are pushed out depends on them alone and
//! comes from a table of sixteen entries.

use vstd::prelude::*;

verus! {

/// Generator polynomial of the checksum, without its leading term.
pub const CRC_POLYNOMIAL: u32 = 0x04C1_1DB7;

/// Value of the accumulator after a reset.
pub const CRC_RESET: u32 = 0xFFFF_FFFF;

/// The register after one shift.
pub open spec fn crc_shift(acc: u32) -> u32 {
    if acc & 0x8000_0000 != 0 {
        (acc << 1) ^ CRC_POLYNOMIAL
    } else {
        acc << 1
    }
}

/// The register after `n` shifts.
pub open spec fn crc_shifts(acc: u32, n: nat) -> u32
    decreases n,
{
    if n == 0 {
        acc
    } else {
        crc_shift(crc_shifts(acc, (n - 1) as nat))
    }
}

/// The register after one word was fed into it.
pub open spec fn crc_feed(acc: u32, word: u32) -> u32 {
    crc_shifts(acc ^ word, 32)
}

/// The register after the words were fed into it, first word first.
pub open spec fn crc_fold(acc: u32, words: Seq<u32>) -> u32
    decreases words.len(),
{
    if words.len() == 0 {
        acc
    } else {
        crc_feed(crc_fold(acc, words.drop_last()), words.last())
    }
}

/// The word that four bytes spell in big-endian order.
pub open spec fn be_word(b0: u8, b1: u8, b2: u8, b3: u8) -> u32 {
    ((b0 as u32) << 24) | ((b1 as u32) << 16) | ((b2 as u32) << 8) | (b3 as u32)
}

/// The four bytes of a word, most significant first.
pub open spec fn be_bytes(word: u32) -> Seq<u8> {
    seq![
        (word >> 24) as u8,
        ((word >> 16) & 0xff) as u8,
        ((word >> 8) & 0xff) as u8,
        (word & 0xff) as u8,
    ]
}

/// The word at position `index` of a buffer that is read as big-endian words.
pub open spec fn word_at(buffer: Seq<u8>, index: int) -> u32 {
    be_word(buffer[4 * index], buffer[4 * index + 1], buffer[4 * index + 2], buffer[4 * index + 3])
}

/// The whole words of a buffer. The last `buffer.len() % 4` bytes belong to
/// no word.
pub open spec fn words_of(buffer: Seq<u8>) -> Seq<u32> {
    Seq::new((buffer.len() / 4) as nat, |index: int| word_at(buffer, index))
}

/// The register after a reset and the whole words of a buffer.
pub open spec fn accumulated(buffer: Seq<u8>) -> u32 {
    crc_fold(CRC_RESET, words_of(buffer))
}

/// The checksum of a buffer: the register after a reset and the buffer's whole
/// words, or zero where the buffer holds no whole word.
pub open spec fn checksum(buffer: Seq<u8>) -> u32 {
    if buffer.len() < 4 {
        0
    } else {
        accumulated(buffer)
    }
}

/// The register after four shifts, written out.
spec fn four_shifts(acc: u32) -> u32 {
    crc_shift(crc_shift(crc_shift(crc_shift(acc))))
}

/// The table of the accumulator: what four shifts make of a register that
/// holds `top` in its four topmost bits and zeros below.
spec fn half_byte_table(top: u32) -> u32 {
    if top == 0 {
        0x0000_0000
    } else if top == 1 {
        0x04C1_1DB7
    } else if top == 2 {
        0x0982_3B6E
    } else if top == 3 {
        0x0D43_26D9
    } else if top == 4 {
        0x1304_76DC
    } else if top == 5 {
        0x17C5_6B6B
    } else if top == 6 {
        0x1A86_4DB2
    } else if top == 7 {
        0x1E47_5005
    } else if top == 8 {
        0x2608_EDB8
    } else if top == 9 {
        0x22C9_F00F
    } else if top == 10 {
        0x2F8A_D6D6
    } else if top == 11 {
        0x2B4B_CB61
    } else if top == 12 {
        0x350C_9B64
    } else if top == 13 {
        0x31CD_86D3
    } else if top == 14 {
        0x3C8E_A00A
    } else {
        0x384F_BDBD
    }
}

/// Shifting `n` times and then `m` times is shifting `n + m` times.
proof fn lemma_shifts_compose(acc: u32, n: nat, m: nat)
    ensures
        crc_shifts(acc, n + m) == crc_shifts(crc_shifts(acc, n), m),
    decreases m,
{
    if m > 0 {
        lemma_shifts_compose(acc, n, (m - 1) as nat);
        assert(n + m - 1 == n + (m - 1) as nat);
    }
}

/// Four shifts move the register up by four bits and add the table's entry
/// for the four bits that leave at the top.
proof fn lemma_half_byte_step(acc: u32)
    ensures
        acc >> 28 < 16,
        crc_shifts(acc, 4) == (acc << 4) ^ half_byte_table(acc >> 28),
{
    assert(crc_shifts(acc, 4) == four_shifts(acc)) by {
        reveal_with_fuel(crc_shifts, 5);
    }
    assert(acc >> 28 < 16 && four_shifts(acc) == (acc << 4) ^ half_byte_table(acc >> 28))
        by (bit_vector);
}

/// Looks up the table of the accumulator.
fn half_byte_entry(top: u32) -> (entry: u32)
    requires
        top < 16,
    ensures
        entry == half_byte_table(top),
{
    match top {
        0 => 0x0000_0000,
        1 => 0x04C1_1DB7,
        2 => 0x0982_3B6E,
        3 => 0x0D43_26D9,
        4 => 0x1304_76DC,
        5 => 0x17C5_6B6B,
        6 => 0x1A86_4DB2,
        7 => 0x1E47_5005,
        8 => 0x2608_EDB8,
        9 => 0x22C9_F00F,
        10 => 0x2F8A_D6D6,
        11 => 0x2B4B_CB61,
        12 => 0x350C_9B64,
        13 => 0x31CD_86D3,
        14 => 0x3C8E_A00A,
        _ => 0x384F_BDBD,
    }
}

/// The checksum accumulator.
///
/// One accumulator serves every computation of the device, so each
/// computation starts by resetting it.
#[derive(Debug)]
pub struct Crc32 {
    state: u32,
}

impl Crc32 {
    /// The value that the accumulator holds.
    pub closed spec fn value(&self) -> u32 {
        self.state
    }

    /// An accumulator that was just reset.
    pub fn new() -> (crc: Crc32)
        ensures
            crc.value() == CRC_RESET,
    {
        Crc32 { state: CRC_RESET }
    }

    /// Resets the accumulator.
    pub fn init(&mut self)
        ensures
            final(self).value() == CRC_RESET,
    {
        self.state = CRC_RESET;
    }

    /// Feeds words into the accumulator and returns the checksum of all that
    /// was fed since the last reset.
    pub fn update(&mut self, data: &[u32]) -> (crc: u32)
        ensures
            final(self).value() == crc_fold(old(self).value(), data@),
            crc == final(self).value(),
    {
        let mut i: usize = 0;
        while i < data.len()
            invariant
                i <= data.len(),
                self.state == crc_fold(old(self).state, data@.take(i as int)),
            decreases data.len() - i,
        {
            let word: u32 = data[i];
            let mut acc: u32 = self.state ^ word;
            let mut steps: u32 = 0;
            while steps < 8
                invariant
                    steps <= 8,
                    acc == crc_shifts(self.state ^ word, 4 * steps as nat),
                decreases 8 - steps,
            {
                proof {
                    lemma_half_byte_step(acc);
                    lemma_shifts_compose(self.state ^ word, 4 * steps as nat, 4);
                }
                acc = (acc << 4) ^ half_byte_entry(acc >> 28);
                steps = steps + 1;
            }
            proof {
                let fed = data@.take(i as int + 1);
                assert(fed.drop_last() == data@.take(i as int));
                assert(fed.last() == word);
            }
            self.state = acc;
            i = i + 1;
        }
        proof {
            assert(data@.take(data.len() as int) == data@);
        }
        self.state
    }
}

/// Computes the checksum of a buffer.
///
/// The accumulator is reset first, so what it held before has no influence.
/// The buffer is cut at the last word boundary: its last `buffer.len() % 4`
/// bytes are left out of the checksum.
pub fn compute_crc(buffer: &[u8], crc: &mut Crc32) -> (result: u32)
    ensures
        result == checksum(buffer@),
        final(crc).value() == accumulated(buffer@),
{
    crc.init();
    let total_words: usize = buffer.len() / 4;
    let mut result: u32 = 0;
    let mut index: usize = 0;
    while index < total_words
        invariant
            total_words == buffer@.len() / 4,
            buffer@.len() <= usize::MAX,
            index <= total_words,
            crc.value() == crc_fold(CRC_RESET, words_of(buffer@).take(index as int)),
            result == if index == 0 { 0 } else { crc.value() },
        decreases total_words - index,
    {
        assert(4 * index + 4 <= buffer@.len());
        let word: u32 = read_be_word(buffer, 4 * index);
        let ghost before = crc.value();
        let words: [u32; 1] = [word];
        result = crc.update(&words);
        proof {
            assert(words@ == seq![word]);
            let fed = words_of(buffer@).take(index as int + 1);
            assert(fed.drop_last() == words_of(buffer@).take(index as int));
            assert(fed.last() == word);
            assert(crc_fold(before, seq![word]) == crc_feed(before, word)) by {
                reveal_with_fuel(crc_fold, 2);
                assert(seq![word].drop_last() == Seq::<u32>::empty());
            }
        }
        index = index + 1;
    }
    proof {
        assert(words_of(buffer@).take(total_words as int) == words_of(buffer@));
    }
    result
}

/// Reads the big-endian word that starts at `offset`.
pub fn read_be_word(buffer: &[u8], offset: usize) -> (word: u32)
    requires
        offset + 4 <= buffer@.len(),
    ensures
        word == be_word(
            buffer@[offset as int],
            buffer@[offset + 1],
            buffer@[offset + 2],
            buffer@[offset + 3],
        ),
{
    ((buffer[offset] as u32) << 24) | ((buffer[offset + 1] as u32) << 16) | ((buffer[offset + 2] as u32) << 8)
        | (buffer[offset + 3] as u32)
}

/// The bytes of a word spell that word.
pub proof fn lemma_be_word_of_be_bytes(word: u32)
    ensures
        be_bytes(word).len() == 4,
        be_word(be_bytes(word)[0], be_bytes(word)[1], be_bytes(word)[2], be_bytes(word)[3]) == word,
{
    assert(be_word(
        (word >> 24) as u8,
        ((word >> 16) & 0xff) as u8,
        ((word >> 8) & 0xff) as u8,
        (word & 0xff) as u8,
    ) == word) by (bit_vector);
}

/// Two words that differ in one of their four bytes are different words.
pub proof fn lemma_be_word_injective(a0: u8, a1: u8, a2: u8, a3: u8, b0: u8, b1: u8, b2: u8, b3: u8)
    requires
        be_word(a0, a1, a2, a3) == be_word(b0, b1, b2, b3),
    ensures
        a0 == b0,
        a1 == b1,
        a2 == b2,
        a3 == b3,
{
    assert(be_word(a0, a1, a2, a3) == be_word(b0, b1, b2, b3) ==> a0 == b0 && a1 == b1 && a2 == b2
        && a3 == b3) by (bit_vector);
}

/// The checksum leaves out the bytes behind the last word boundary: a buffer
/// and its longest prefix of whole words have the same checksum.
pub proof fn lemma_checksum_ignores_tail(buffer: Seq<u8>)
    ensures
        checksum(buffer) == checksum(buffer.subrange(0, 4 * (buffer.len() as int / 4))),
{
    let aligned = buffer.subrange(0, 4 * (buffer.len() as int / 4));
    assert(aligned.len() / 4 == buffer.len() / 4);
    assert(words_of(aligned) =~= words_of(buffer));
}

/// The checksum depends on the whole words alone: two buffers with the same
/// words have the same checksum.
pub proof fn lemma_checksum_of_same_words(a: Seq<u8>, b: Seq<u8>)
    requires
        a.len() / 4 == b.len() / 4,
        forall|index: int| 0 <= index < a.len() / 4 ==> word_at(a, index) == word_at(b, index),
    ensures
        checksum(a) == checksum(b),
{
    assert(words_of(a) =~= words_of(b));
}

/// Shifting is one-to-one: different registers stay different.
proof fn lemma_shifts_injective(a: u32, b: u32, n: nat)
    requires
        crc_shifts(a, n) == crc_shifts(b, n),
    ensures
        a == b,
    decreases n,
{
    if n > 0 {
        let x = crc_shifts(a, (n - 1) as nat);
        let y = crc_shifts(b, (n - 1) as nat);
        assert(crc_shift(x) == crc_shift(y) ==> x == y) by (bit_vector);
        lemma_shifts_injective(a, b, (n - 1) as nat);
    }
}

/// Feeding is one-to-one in the register and in the word.
proof fn lemma_feed_injective(a: u32, v: u32, b: u32, w: u32)
    requires
        crc_feed(a, v) == crc_feed(b, w),
    ensures
        a == b <==> v == w,
{
    lemma_shifts_injective(a ^ v, b ^ w, 32);
    assert(a ^ v == b ^ w ==> (a == b <==> v == w)) by (bit_vector);
}

/// Two runs of words that differ in exactly one place leave different
/// registers behind.
proof fn lemma_fold_detects_one_word(acc: u32, v: Seq<u32>, w: Seq<u32>, place: int)
    requires
        v.len() == w.len(),
        0 <= place < v.len(),
        v[place] != w[place],
        forall|index: int| 0 <= index < v.len() && index != place ==> v[index] == w[index],
    ensures
        crc_fold(acc, v) != crc_fold(acc, w),
    decreases v.len(),
{
    if place == v.len() - 1 {
        assert(v.drop_last() =~= w.drop_last());
    } else {
        lemma_fold_detects_one_word(acc, v.drop_last(), w.drop_last(), place);
    }
    if crc_fold(acc, v) == crc_fold(acc, w) {
        lemma_feed_injective(
            crc_fold(acc, v.drop_last()),
            v.last(),
            crc_fold(acc, w.drop_last()),
            w.last(),
        );
    }
}

/// The checksum detects every change that stays within one word: two buffers
/// of the same length whose words differ in exactly one place have different
/// checksums.
pub proof fn lemma_checksum_detects_one_word(a: Seq<u8>, b: Seq<u8>, place: int)
    requires
        a.len() == b.len(),
        0 <= place < a.len() / 4,
        word_at(a, place) != word_at(b, place),
        forall|index: int|
            0 <= index < a.len() / 4 && index != place ==> word_at(a, index) == word_at(b, index),
    ensures
        checksum(a) != checksum(b),
{
    lemma_fold_detects_one_word(CRC_RESET, words_of(a), words_of(b), place);
}

/// The checksum detects every change of one byte that a word covers, and so
/// every flipped bit there.
pub proof fn lemma_checksum_detects_one_byte(buffer: Seq<u8>, position: int, byte: u8)
    requires
        0 <= position < 4 * (buffer.len() / 4),
        buffer[position] != byte,
    ensures
        checksum(buffer.update(position, byte)) != checksum(buffer),
{
    let changed = buffer.update(position, byte);
    let place = position / 4;
    if word_at(changed, place) == word_at(buffer, place) {
        lemma_be_word_injective(
            changed[4 * place],
            changed[4 * place + 1],
            changed[4 * place + 2],
            changed[4 * place + 3],
            buffer[4 * place],
            buffer[4 * place + 1],
            buffer[4 * place + 2],
            buffer[4 * place + 3],
        );
    }
    lemma_checksum_detects_one_word(changed, buffer, place);
}

} // verus!
