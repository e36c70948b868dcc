//! A byte form of the summaries, for handing partial states from one worker
//! to another.
//!
//! A summary is written as its fields in order, the count first, each as
//! eight bytes with the least significant byte first; a number is written as
//! its pattern. Every field comes back as it was written, whatever it holds.

use crate::binary64::Binary64;
use crate::pair::PairSummary;
use crate::scalar::ScalarSummary;
use vstd::bytes::{
    lemma_auto_spec_u64_to_from_le_bytes, spec_u64_from_le_bytes, spec_u64_to_le_bytes,
    u64_from_le_bytes, u64_to_le_bytes,
};
use vstd::prelude::*;
use vstd::slice::slice_subrange;

verus! {

/// Length of the byte form of a scalar summary.
pub const SCALAR_BYTES: usize = 40;

/// Length of the byte form of a paired summary.
pub const PAIR_BYTES: usize = 80;

/// The word that the bytes hold at the given place, counted in words.
pub open spec fn spec_word_at(bytes: Seq<u8>, index: int) -> u64 {
    spec_u64_from_le_bytes(bytes.subrange(8 * index, 8 * index + 8))
}

/// The byte form of a scalar summary.
pub open spec fn spec_scalar_to_bytes(s: ScalarSummary) -> Seq<u8> {
    spec_u64_to_le_bytes(s.n) + spec_u64_to_le_bytes(s.sum.bits) + spec_u64_to_le_bytes(s.m2.bits)
        + spec_u64_to_le_bytes(s.m3.bits) + spec_u64_to_le_bytes(s.m4.bits)
}

/// The scalar summary that bytes stand for; none where they are not as many
/// as a summary takes.
pub open spec fn spec_scalar_from_bytes(bytes: Seq<u8>) -> Option<ScalarSummary> {
    if bytes.len() != SCALAR_BYTES {
        None
    } else {
        Some(
            ScalarSummary {
                n: spec_word_at(bytes, 0),
                sum: Binary64 { bits: spec_word_at(bytes, 1) },
                m2: Binary64 { bits: spec_word_at(bytes, 2) },
                m3: Binary64 { bits: spec_word_at(bytes, 3) },
                m4: Binary64 { bits: spec_word_at(bytes, 4) },
            },
        )
    }
}

/// The byte form of a paired summary.
pub open spec fn spec_pair_to_bytes(s: PairSummary) -> Seq<u8> {
    spec_u64_to_le_bytes(s.n) + spec_u64_to_le_bytes(s.sum_x.bits) + spec_u64_to_le_bytes(
        s.m2x.bits,
    ) + spec_u64_to_le_bytes(s.m3x.bits) + spec_u64_to_le_bytes(s.m4x.bits)
        + spec_u64_to_le_bytes(s.sum_y.bits) + spec_u64_to_le_bytes(s.m2y.bits)
        + spec_u64_to_le_bytes(s.m3y.bits) + spec_u64_to_le_bytes(s.m4y.bits)
        + spec_u64_to_le_bytes(s.c11.bits)
}

/// The paired summary that bytes stand for; none where they are not as many
/// as a summary takes.
pub open spec fn spec_pair_from_bytes(bytes: Seq<u8>) -> Option<PairSummary> {
    if bytes.len() != PAIR_BYTES {
        None
    } else {
        Some(
            PairSummary {
                n: spec_word_at(bytes, 0),
                sum_x: Binary64 { bits: spec_word_at(bytes, 1) },
                m2x: Binary64 { bits: spec_word_at(bytes, 2) },
                m3x: Binary64 { bits: spec_word_at(bytes, 3) },
                m4x: Binary64 { bits: spec_word_at(bytes, 4) },
                sum_y: Binary64 { bits: spec_word_at(bytes, 5) },
                m2y: Binary64 { bits: spec_word_at(bytes, 6) },
                m3y: Binary64 { bits: spec_word_at(bytes, 7) },
                m4y: Binary64 { bits: spec_word_at(bytes, 8) },
                c11: Binary64 { bits: spec_word_at(bytes, 9) },
            },
        )
    }
}

/// Appends the eight bytes of a word.
fn push_word(out: &mut Vec<u8>, word: u64)
    ensures
        final(out)@ == old(out)@ + spec_u64_to_le_bytes(word),
{
    let mut bytes: Vec<u8> = u64_to_le_bytes(word);
    out.append(&mut bytes);
}

/// Reads the word at the given place, counted in words.
fn word_at(bytes: &[u8], index: usize) -> (r: u64)
    requires
        index < 10,
        8 * index + 8 <= bytes@.len(),
    ensures
        r == spec_word_at(bytes@, index as int),
{
    u64_from_le_bytes(slice_subrange(bytes, 8 * index, 8 * index + 8))
}

/// Writes the state of a scalar aggregate as bytes.
pub fn stats1d_trans_serialize(state: ScalarSummary) -> (bytes: Vec<u8>)
    ensures
        bytes@ == spec_scalar_to_bytes(state),
        bytes@.len() == SCALAR_BYTES,
        spec_scalar_from_bytes(bytes@) == Some(state),
{
    let mut out: Vec<u8> = u64_to_le_bytes(state.n);
    push_word(&mut out, state.sum.to_bits());
    push_word(&mut out, state.m2.to_bits());
    push_word(&mut out, state.m3.to_bits());
    push_word(&mut out, state.m4.to_bits());
    proof {
        law_scalar_survives_bytes(state);
    }
    out
}

/// Reads the state of a scalar aggregate from bytes; `None` where the bytes
/// are not as many as a state takes.
pub fn stats1d_trans_deserialize(bytes: &[u8]) -> (r: Option<ScalarSummary>)
    ensures
        r == spec_scalar_from_bytes(bytes@),
        r is Some <==> bytes@.len() == SCALAR_BYTES,
{
    if bytes.len() != SCALAR_BYTES {
        None
    } else {
        Some(
            ScalarSummary {
                n: word_at(bytes, 0),
                sum: Binary64::from_bits(word_at(bytes, 1)),
                m2: Binary64::from_bits(word_at(bytes, 2)),
                m3: Binary64::from_bits(word_at(bytes, 3)),
                m4: Binary64::from_bits(word_at(bytes, 4)),
            },
        )
    }
}

/// Writes the state of a paired aggregate as bytes.
pub fn stats2d_trans_serialize(state: PairSummary) -> (bytes: Vec<u8>)
    ensures
        bytes@ == spec_pair_to_bytes(state),
        bytes@.len() == PAIR_BYTES,
        spec_pair_from_bytes(bytes@) == Some(state),
{
    let mut out: Vec<u8> = u64_to_le_bytes(state.n);
    push_word(&mut out, state.sum_x.to_bits());
    push_word(&mut out, state.m2x.to_bits());
    push_word(&mut out, state.m3x.to_bits());
    push_word(&mut out, state.m4x.to_bits());
    push_word(&mut out, state.sum_y.to_bits());
    push_word(&mut out, state.m2y.to_bits());
    push_word(&mut out, state.m3y.to_bits());
    push_word(&mut out, state.m4y.to_bits());
    push_word(&mut out, state.c11.to_bits());
    proof {
        law_pair_survives_bytes(state);
    }
    out
}

/// Reads the state of a paired aggregate from bytes; `None` where the bytes
/// are not as many as a state takes.
pub fn stats2d_trans_deserialize(bytes: &[u8]) -> (r: Option<PairSummary>)
    ensures
        r == spec_pair_from_bytes(bytes@),
        r is Some <==> bytes@.len() == PAIR_BYTES,
{
    if bytes.len() != PAIR_BYTES {
        None
    } else {
        Some(
            PairSummary {
                n: word_at(bytes, 0),
                sum_x: Binary64::from_bits(word_at(bytes, 1)),
                m2x: Binary64::from_bits(word_at(bytes, 2)),
                m3x: Binary64::from_bits(word_at(bytes, 3)),
                m4x: Binary64::from_bits(word_at(bytes, 4)),
                sum_y: Binary64::from_bits(word_at(bytes, 5)),
                m2y: Binary64::from_bits(word_at(bytes, 6)),
                m3y: Binary64::from_bits(word_at(bytes, 7)),
                m4y: Binary64::from_bits(word_at(bytes, 8)),
                c11: Binary64::from_bits(word_at(bytes, 9)),
            },
        )
    }
}

/// A scalar summary comes back from its byte form as it was, field for
/// field and pattern for pattern.
pub proof fn law_scalar_survives_bytes(s: ScalarSummary)
    ensures
        spec_scalar_to_bytes(s).len() == SCALAR_BYTES,
        spec_scalar_from_bytes(spec_scalar_to_bytes(s)) == Some(s),
{
    lemma_auto_spec_u64_to_from_le_bytes();
    let bytes: Seq<u8> = spec_scalar_to_bytes(s);
    assert(bytes.subrange(0, 8) =~= spec_u64_to_le_bytes(s.n));
    assert(bytes.subrange(8, 16) =~= spec_u64_to_le_bytes(s.sum.bits));
    assert(bytes.subrange(16, 24) =~= spec_u64_to_le_bytes(s.m2.bits));
    assert(bytes.subrange(24, 32) =~= spec_u64_to_le_bytes(s.m3.bits));
    assert(bytes.subrange(32, 40) =~= spec_u64_to_le_bytes(s.m4.bits));
}

/// A paired summary comes back from its byte form as it was, field for
/// field and pattern for pattern.
pub proof fn law_pair_survives_bytes(s: PairSummary)
    ensures
        spec_pair_to_bytes(s).len() == PAIR_BYTES,
        spec_pair_from_bytes(spec_pair_to_bytes(s)) == Some(s),
{
    lemma_auto_spec_u64_to_from_le_bytes();
    let bytes: Seq<u8> = spec_pair_to_bytes(s);
    assert(bytes.subrange(0, 8) =~= spec_u64_to_le_bytes(s.n));
    assert(bytes.subrange(8, 16) =~= spec_u64_to_le_bytes(s.sum_x.bits));
    assert(bytes.subrange(16, 24) =~= spec_u64_to_le_bytes(s.m2x.bits));
    assert(bytes.subrange(24, 32) =~= spec_u64_to_le_bytes(s.m3x.bits));
    assert(bytes.subrange(32, 40) =~= spec_u64_to_le_bytes(s.m4x.bits));
    assert(bytes.subrange(40, 48) =~= spec_u64_to_le_bytes(s.sum_y.bits));
    assert(bytes.subrange(48, 56) =~= spec_u64_to_le_bytes(s.m2y.bits));
    assert(bytes.subrange(56, 64) =~= spec_u64_to_le_bytes(s.m3y.bits));
    assert(bytes.subrange(64, 72) =~= spec_u64_to_le_bytes(s.m4y.bits));
    assert(bytes.subrange(72, 80) =~= spec_u64_to_le_bytes(s.c11.bits));
}

/// Bytes of the length of a scalar summary are the byte form of the summary
/// that they stand for.
pub proof fn law_bytes_survive_scalar(bytes: Seq<u8>)
    requires
        bytes.len() == SCALAR_BYTES,
    ensures
        spec_scalar_to_bytes(spec_scalar_from_bytes(bytes)->Some_0) == bytes,
{
    lemma_auto_spec_u64_to_from_le_bytes();
    assert(spec_u64_to_le_bytes(spec_word_at(bytes, 0)) == bytes.subrange(0, 8));
    assert(spec_u64_to_le_bytes(spec_word_at(bytes, 1)) == bytes.subrange(8, 16));
    assert(spec_u64_to_le_bytes(spec_word_at(bytes, 2)) == bytes.subrange(16, 24));
    assert(spec_u64_to_le_bytes(spec_word_at(bytes, 3)) == bytes.subrange(24, 32));
    assert(spec_u64_to_le_bytes(spec_word_at(bytes, 4)) == bytes.subrange(32, 40));
    assert(spec_scalar_to_bytes(spec_scalar_from_bytes(bytes)->Some_0) =~= bytes);
}

/// Bytes of the length of a paired summary are the byte form of the summary
/// that they stand for.
pub proof fn law_bytes_survive_pair(bytes: Seq<u8>)
    requires
        bytes.len() == PAIR_BYTES,
    ensures
        spec_pair_to_bytes(spec_pair_from_bytes(bytes)->Some_0) == bytes,
{
    lemma_auto_spec_u64_to_from_le_bytes();
    assert(spec_u64_to_le_bytes(spec_word_at(bytes, 0)) == bytes.subrange(0, 8));
    assert(spec_u64_to_le_bytes(spec_word_at(bytes, 1)) == bytes.subrange(8, 16));
    assert(spec_u64_to_le_bytes(spec_word_at(bytes, 2)) == bytes.subrange(16, 24));
    assert(spec_u64_to_le_bytes(spec_word_at(bytes, 3)) == bytes.subrange(24, 32));
    assert(spec_u64_to_le_bytes(spec_word_at(bytes, 4)) == bytes.subrange(32, 40));
    assert(spec_u64_to_le_bytes(spec_word_at(bytes, 5)) == bytes.subrange(40, 48));
    assert(spec_u64_to_le_bytes(spec_word_at(bytes, 6)) == bytes.subrange(48, 56));
    assert(spec_u64_to_le_bytes(spec_word_at(bytes, 7)) == bytes.subrange(56, 64));
    assert(spec_u64_to_le_bytes(spec_word_at(bytes, 8)) == bytes.subrange(64, 72));
    assert(spec_u64_to_le_bytes(spec_word_at(bytes, 9)) == bytes.subrange(72, 80));
    assert(spec_pair_to_bytes(spec_pair_from_bytes(bytes)->Some_0) =~= bytes);
}

} // verus!
