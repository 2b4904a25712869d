//! Scalar fields on the host: the bytes a field buffer is created with, and
//! the samples read back from one.

use vstd::prelude::*;
use crate::grid::{field_byte_len, PREVIEW_LEN};

verus! {

/// The word that four bytes starting at `4 * i` spell, lowest byte first.
pub open spec fn le_word(bytes: Seq<u8>, i: int) -> u32 {
    (bytes[4 * i] as int + bytes[4 * i + 1] as int * 0x100 + bytes[4 * i + 2] as int * 0x1_0000
        + bytes[4 * i + 3] as int * 0x100_0000) as u32
}

/// The word that four bytes starting at `4 * i` spell, highest byte first.
pub open spec fn be_word(bytes: Seq<u8>, i: int) -> u32 {
    (bytes[4 * i + 3] as int + bytes[4 * i + 2] as int * 0x100 + bytes[4 * i + 1] as int * 0x1_0000
        + bytes[4 * i] as int * 0x100_0000) as u32
}

/// `words` is what `bytes` spell in one byte order.
pub open spec fn spells(bytes: Seq<u8>, words: Seq<u32>, little_endian: bool) -> bool {
    &&& bytes.len() == 4 * words.len()
    &&& forall|i: int|
        0 <= i < words.len() ==> #[trigger] words[i] == if little_endian {
            le_word(bytes, i)
        } else {
            be_word(bytes, i)
        }
}

/// `words` is what `bytes` spell in the byte order of some machine.
pub open spec fn spells_natively(bytes: Seq<u8>, words: Seq<u32>) -> bool {
    spells(bytes, words, true) || spells(bytes, words, false)
}

/// Every element of the sequence is zero.
pub open spec fn all_zero_bytes(bytes: Seq<u8>) -> bool {
    forall|i: int| 0 <= i < bytes.len() ==> #[trigger] bytes[i] == 0
}

/// Every sample of the sequence is the pattern of positive zero.
pub open spec fn all_zero_samples(samples: Seq<u32>) -> bool {
    forall|i: int| 0 <= i < samples.len() ==> #[trigger] samples[i] == 0
}

/// What a field buffer may be used for.
#[derive(Clone, Copy, Debug, PartialEq, Eq, Structural)]
pub struct FieldUsage {
    /// The host may map the buffer and read it.
    pub map_read: bool,
    /// A shader may bind the buffer as a uniform block.
    pub uniform: bool,
    /// A shader may bind the buffer as general storage.
    pub storage: bool,
}

/// The usage every scalar field is created with.
pub open spec fn field_usage() -> FieldUsage {
    FieldUsage { map_read: true, uniform: true, storage: true }
}

/// What a scalar field is created from: its first contents and its usage.
#[derive(Debug)]
pub struct FieldAllocation {
    /// The buffer's bytes at creation.
    pub contents: Vec<u8>,
    /// The usage the buffer is created with.
    pub usage: FieldUsage,
}

/// Calls `bytemuck::cast_slice` from words to bytes and copies the result.
/// The cast cannot fail in this direction. The bytes are the words' memory:
/// four per word, in the byte order of the machine.
#[verifier::external_body]
fn bytes_of_words(words: &[u32]) -> (bytes: Vec<u8>)
    ensures
        spells_natively(bytes@, words@),
{
    bytemuck::cast_slice::<u32, u8>(words).to_vec()
}

/// Calls `bytemuck::pod_collect_to_vec` from bytes to words: the bytes are
/// copied into fresh words, four to a word, in the byte order of the machine.
/// A last group of fewer than four bytes would be padded; `requires` leaves
/// such input out.
#[verifier::external_body]
fn words_of_bytes(bytes: &[u8]) -> (words: Vec<u32>)
    requires
        bytes@.len() % 4 == 0,
    ensures
        spells_natively(bytes@, words@),
{
    bytemuck::pod_collect_to_vec::<u8, u32>(bytes)
}

/// Bytes that spell only zero words are zero, whatever the byte order.
pub proof fn lemma_zero_words_spell_zero_bytes(bytes: Seq<u8>, words: Seq<u32>)
    requires
        spells_natively(bytes, words),
        all_zero_samples(words),
    ensures
        all_zero_bytes(bytes),
{
    assert forall|j: int| 0 <= j < bytes.len() implies #[trigger] bytes[j] == 0 by {
        let i = j / 4;
        assert(words[i] == 0);
        assert(le_word(bytes, i) == 0 || be_word(bytes, i) == 0);
        assert(j == 4 * i || j == 4 * i + 1 || j == 4 * i + 2 || j == 4 * i + 3);
    }
}

/// A field created zero-filled reads back as zero samples: zero bytes spell
/// zero words, whatever the byte order.
pub proof fn lemma_zero_fill_reads_back_zero(bytes: Seq<u8>, samples: Seq<u32>)
    requires
        all_zero_bytes(bytes),
        spells_natively(bytes, samples),
    ensures
        all_zero_samples(samples),
{
    assert forall|i: int| 0 <= i < samples.len() implies #[trigger] samples[i] == 0 by {
        assert(bytes[4 * i] == 0 && bytes[4 * i + 1] == 0 && bytes[4 * i + 2] == 0 && bytes[4 * i
            + 3] == 0);
    }
}

/// What a scalar field over a grid of `width` by `height` cells is created
/// from: `width * height * 4` zero bytes, which are the zero floats, and the
/// usage of a field.
pub fn allocate_scalarfield(width: usize, height: usize) -> (field: FieldAllocation)
    requires
        field_byte_len(width as nat, height as nat) <= usize::MAX,
    ensures
        field.contents@.len() == field_byte_len(width as nat, height as nat),
        all_zero_bytes(field.contents@),
        field.usage == field_usage(),
{
    proof {
        assert(width * height <= width * height * 4) by (nonlinear_arith);
    }
    let cells: usize = width * height;
    let cont: Vec<u32> = vec![0u32; cells];
    let byte_buf = bytes_of_words(cont.as_slice());
    proof {
        lemma_zero_words_spell_zero_bytes(byte_buf@, cont@);
    }
    FieldAllocation {
        contents: byte_buf,
        usage: FieldUsage { map_read: true, uniform: true, storage: true },
    }
}

/// The samples that the bytes of a mapped field hold, one per four bytes, as
/// bit patterns.
pub fn read_samples(mapped: &[u8]) -> (samples: Vec<u32>)
    requires
        mapped@.len() % 4 == 0,
    ensures
        samples@.len() * 4 == mapped@.len(),
        spells_natively(mapped@, samples@),
        all_zero_bytes(mapped@) ==> all_zero_samples(samples@),
{
    let samples = words_of_bytes(mapped);
    proof {
        if all_zero_bytes(mapped@) {
            lemma_zero_fill_reads_back_zero(mapped@, samples@);
        }
    }
    samples
}

/// The first `PREVIEW_LEN` samples of a field, for the diagnostic preview.
pub fn preview(samples: &[u32]) -> (first: Vec<u32>)
    requires
        samples@.len() >= PREVIEW_LEN,
    ensures
        first@ == samples@.subrange(0, PREVIEW_LEN as int),
{
    let mut first: Vec<u32> = Vec::new();
    let mut i: usize = 0;
    while i < PREVIEW_LEN
        invariant
            i <= PREVIEW_LEN <= samples@.len(),
            first@ == samples@.subrange(0, i as int),
        decreases PREVIEW_LEN - i,
    {
        first.push(samples[i]);
        proof {
            assert(first@ =~= samples@.subrange(0, i + 1));
        }
        i += 1;
    }
    first
}

} // verus!
