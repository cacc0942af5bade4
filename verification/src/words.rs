//! Fixed-layout struct values as sequences of fixed-width words: the
//! device-configuration blocks and statistics structs of link messages are
//! runs of 32- or 64-bit little-endian fields with no padding. Their codecs
//! and round-trip lemmas are proved here once, over word sequences.

use vstd::prelude::*;
use vstd::bytes::{
    spec_u32_from_le_bytes, spec_u32_to_le_bytes, spec_u64_from_le_bytes, spec_u64_to_le_bytes,
    lemma_auto_spec_u32_to_from_le_bytes, lemma_auto_spec_u64_to_from_le_bytes, u32_from_le_bytes,
    u64_from_le_bytes,
};
use vstd::slice::slice_subrange;
use crate::values::{push_u32_le, push_u64_le};

verus! {

/// The bytes of a run of 32-bit little-endian words.
pub open spec fn spec_words32_bytes(ws: Seq<u32>) -> Seq<u8>
    decreases ws.len(),
{
    if ws.len() == 0 {
        Seq::empty()
    } else {
        spec_u32_to_le_bytes(ws[0]) + spec_words32_bytes(ws.subrange(1, ws.len() as int))
    }
}

/// The words of a run of bytes, four at a time.
pub open spec fn spec_words32_of(v: Seq<u8>) -> Seq<u32> {
    Seq::new(v.len() / 4, |i: int| spec_u32_from_le_bytes(v.subrange(4 * i, 4 * i + 4)))
}

/// Shape of a word run's bytes: four bytes per word, each word at its
/// offset.
pub proof fn lemma_words32_facts(ws: Seq<u32>)
    ensures
        spec_words32_bytes(ws).len() == 4 * ws.len(),
        forall|i: int|
            0 <= i < ws.len() ==> #[trigger] spec_words32_bytes(ws).subrange(4 * i, 4 * i + 4)
                == spec_u32_to_le_bytes(ws[i]),
    decreases ws.len(),
{
    lemma_auto_spec_u32_to_from_le_bytes();
    if ws.len() > 0 {
        let tail = ws.subrange(1, ws.len() as int);
        lemma_words32_facts(tail);
        let b = spec_words32_bytes(ws);
        assert forall|i: int| 0 <= i < ws.len() implies #[trigger] b.subrange(4 * i, 4 * i + 4)
            == spec_u32_to_le_bytes(ws[i]) by {
            if i == 0 {
                assert(b.subrange(0, 4) =~= spec_u32_to_le_bytes(ws[0]));
            } else {
                assert(b.subrange(4 * i, 4 * i + 4) =~= spec_words32_bytes(tail).subrange(
                    4 * (i - 1),
                    4 * (i - 1) + 4,
                ));
                assert(tail[i - 1] == ws[i]);
            }
        }
    }
}

/// Reading the words of a word run's bytes yields the words back.
pub proof fn lemma_words32_roundtrip(ws: Seq<u32>)
    ensures
        spec_words32_of(spec_words32_bytes(ws)) == ws,
{
    lemma_auto_spec_u32_to_from_le_bytes();
    lemma_words32_facts(ws);
    let b = spec_words32_bytes(ws);
    assert(b.len() / 4 == ws.len());
    assert forall|i: int| 0 <= i < ws.len() implies spec_words32_of(b)[i] == ws[i] by {
        assert(b.subrange(4 * i, 4 * i + 4) == spec_u32_to_le_bytes(ws[i]));
    }
    assert(spec_words32_of(spec_words32_bytes(ws)) =~= ws);
}

/// Re-encoding the words read from a 4-aligned run of bytes yields the bytes
/// back.
pub proof fn lemma_words32_project(v: Seq<u8>)
    requires
        v.len() % 4 == 0,
    ensures
        spec_words32_bytes(spec_words32_of(v)) == v,
{
    lemma_auto_spec_u32_to_from_le_bytes();
    let ws = spec_words32_of(v);
    lemma_words32_facts(ws);
    let b = spec_words32_bytes(ws);
    assert forall|j: int| 0 <= j < v.len() implies b[j] == v[j] by {
        let i = j / 4;
        assert(4 * i <= j < 4 * i + 4) by (nonlinear_arith)
            requires
                i == j / 4,
                j >= 0,
        ;
        assert(b.subrange(4 * i, 4 * i + 4) == spec_u32_to_le_bytes(ws[i]));
        assert(spec_u32_to_le_bytes(ws[i]) == spec_u32_to_le_bytes(
            spec_u32_from_le_bytes(v.subrange(4 * i, 4 * i + 4)),
        ));
        assert(spec_u32_to_le_bytes(ws[i]) == v.subrange(4 * i, 4 * i + 4));
        assert(b[j] == b.subrange(4 * i, 4 * i + 4)[j - 4 * i]);
        assert(v[j] == v.subrange(4 * i, 4 * i + 4)[j - 4 * i]);
    }
    assert(b =~= v);
}

/// Reads a run of 32-bit words; the value's width must be a multiple of 4.
pub fn read_words32(value: &[u8]) -> (r: Option<Vec<u32>>)
    ensures
        match r {
            Some(ws) => value@.len() % 4 == 0 && ws@ == spec_words32_of(value@),
            None => value@.len() % 4 != 0,
        },
{
    let n = value.len();
    if n % 4 != 0 {
        return None;
    }
    let mut ws: Vec<u32> = Vec::new();
    let mut i: usize = 0;
    while i < n / 4
        invariant
            n == value@.len(),
            n % 4 == 0,
            i <= n / 4,
            ws@.len() == i,
            forall|k: int|
                0 <= k < i ==> ws@[k] == spec_u32_from_le_bytes(
                    value@.subrange(4 * k, 4 * k + 4),
                ),
        decreases n / 4 - i,
    {
        assert(4 * i + 4 <= n) by (nonlinear_arith)
            requires
                i < n / 4,
                n % 4 == 0,
                n >= 0,
        ;
        let w = u32_from_le_bytes(slice_subrange(value, 4 * i, 4 * i + 4));
        ws.push(w);
        i = i + 1;
    }
    assert(ws@ =~= spec_words32_of(value@));
    Some(ws)
}

/// Appends a run of 32-bit words as bytes.
pub fn push_words32(ws: &Vec<u32>, out: &mut Vec<u8>)
    ensures
        final(out)@ == old(out)@ + spec_words32_bytes(ws@),
{
    let n = ws.len();
    let mut i: usize = 0;
    assert(ws@.subrange(0, 0) =~= Seq::<u32>::empty());
    while i < n
        invariant
            i <= n,
            n == ws@.len(),
            out@ == old(out)@ + spec_words32_bytes(ws@.subrange(0, i as int)),
        decreases n - i,
    {
        push_u32_le(out, ws[i]);
        proof {
            lemma_words32_push(ws@.subrange(0, i as int), ws@[i as int]);
            assert(ws@.subrange(0, i + 1) =~= ws@.subrange(0, i as int).push(ws@[i as int]));
        }
        i = i + 1;
    }
    assert(ws@.subrange(0, n as int) =~= ws@);
}

/// Appending one word appends its four bytes.
proof fn lemma_words32_push(ws: Seq<u32>, w: u32)
    ensures
        spec_words32_bytes(ws.push(w)) == spec_words32_bytes(ws) + spec_u32_to_le_bytes(w),
    decreases ws.len(),
{
    if ws.len() == 0 {
        assert(ws.push(w)[0] == w);
        assert(ws.push(w).subrange(1, 1) =~= Seq::<u32>::empty());
        assert(spec_words32_bytes(ws.push(w)) == spec_u32_to_le_bytes(w) + spec_words32_bytes(
            Seq::<u32>::empty(),
        ));
        assert(spec_u32_to_le_bytes(w) + Seq::<u8>::empty() =~= spec_u32_to_le_bytes(w));
        assert(Seq::<u8>::empty() + spec_u32_to_le_bytes(w) =~= spec_u32_to_le_bytes(w));
    } else {
        assert(ws.push(w).subrange(1, ws.len() + 1 as int) =~= ws.subrange(
            1,
            ws.len() as int,
        ).push(w));
        lemma_words32_push(ws.subrange(1, ws.len() as int), w);
        assert(spec_words32_bytes(ws.push(w)) =~= spec_words32_bytes(ws) + spec_u32_to_le_bytes(
            w,
        ));
    }
}

/// The bytes of a run of 64-bit little-endian words.
pub open spec fn spec_words64_bytes(ws: Seq<u64>) -> Seq<u8>
    decreases ws.len(),
{
    if ws.len() == 0 {
        Seq::empty()
    } else {
        spec_u64_to_le_bytes(ws[0]) + spec_words64_bytes(ws.subrange(1, ws.len() as int))
    }
}

/// The words of a run of bytes, eight at a time.
pub open spec fn spec_words64_of(v: Seq<u8>) -> Seq<u64> {
    Seq::new(v.len() / 8, |i: int| spec_u64_from_le_bytes(v.subrange(8 * i, 8 * i + 8)))
}

/// Shape of a 64-bit word run's bytes.
pub proof fn lemma_words64_facts(ws: Seq<u64>)
    ensures
        spec_words64_bytes(ws).len() == 8 * ws.len(),
        forall|i: int|
            0 <= i < ws.len() ==> #[trigger] spec_words64_bytes(ws).subrange(8 * i, 8 * i + 8)
                == spec_u64_to_le_bytes(ws[i]),
    decreases ws.len(),
{
    lemma_auto_spec_u64_to_from_le_bytes();
    if ws.len() > 0 {
        let tail = ws.subrange(1, ws.len() as int);
        lemma_words64_facts(tail);
        let b = spec_words64_bytes(ws);
        assert forall|i: int| 0 <= i < ws.len() implies #[trigger] b.subrange(8 * i, 8 * i + 8)
            == spec_u64_to_le_bytes(ws[i]) by {
            if i == 0 {
                assert(b.subrange(0, 8) =~= spec_u64_to_le_bytes(ws[0]));
            } else {
                assert(b.subrange(8 * i, 8 * i + 8) =~= spec_words64_bytes(tail).subrange(
                    8 * (i - 1),
                    8 * (i - 1) + 8,
                ));
                assert(tail[i - 1] == ws[i]);
            }
        }
    }
}

/// Reading the words of a 64-bit word run's bytes yields the words back.
pub proof fn lemma_words64_roundtrip(ws: Seq<u64>)
    ensures
        spec_words64_of(spec_words64_bytes(ws)) == ws,
{
    lemma_auto_spec_u64_to_from_le_bytes();
    lemma_words64_facts(ws);
    let b = spec_words64_bytes(ws);
    assert(b.len() / 8 == ws.len());
    assert forall|i: int| 0 <= i < ws.len() implies spec_words64_of(b)[i] == ws[i] by {
        assert(b.subrange(8 * i, 8 * i + 8) == spec_u64_to_le_bytes(ws[i]));
    }
    assert(spec_words64_of(spec_words64_bytes(ws)) =~= ws);
}

/// Re-encoding the words read from an 8-aligned run of bytes yields the
/// bytes back.
pub proof fn lemma_words64_project(v: Seq<u8>)
    requires
        v.len() % 8 == 0,
    ensures
        spec_words64_bytes(spec_words64_of(v)) == v,
{
    lemma_auto_spec_u64_to_from_le_bytes();
    let ws = spec_words64_of(v);
    lemma_words64_facts(ws);
    let b = spec_words64_bytes(ws);
    assert forall|j: int| 0 <= j < v.len() implies b[j] == v[j] by {
        let i = j / 8;
        assert(8 * i <= j < 8 * i + 8) by (nonlinear_arith)
            requires
                i == j / 8,
                j >= 0,
        ;
        assert(b.subrange(8 * i, 8 * i + 8) == spec_u64_to_le_bytes(ws[i]));
        assert(spec_u64_to_le_bytes(ws[i]) == spec_u64_to_le_bytes(
            spec_u64_from_le_bytes(v.subrange(8 * i, 8 * i + 8)),
        ));
        assert(spec_u64_to_le_bytes(ws[i]) == v.subrange(8 * i, 8 * i + 8));
        assert(b[j] == b.subrange(8 * i, 8 * i + 8)[j - 8 * i]);
        assert(v[j] == v.subrange(8 * i, 8 * i + 8)[j - 8 * i]);
    }
    assert(b =~= v);
}

/// Reads a run of 64-bit words; the value's width must be a multiple of 8.
pub fn read_words64(value: &[u8]) -> (r: Option<Vec<u64>>)
    ensures
        match r {
            Some(ws) => value@.len() % 8 == 0 && ws@ == spec_words64_of(value@),
            None => value@.len() % 8 != 0,
        },
{
    let n = value.len();
    if n % 8 != 0 {
        return None;
    }
    let mut ws: Vec<u64> = Vec::new();
    let mut i: usize = 0;
    while i < n / 8
        invariant
            n == value@.len(),
            n % 8 == 0,
            i <= n / 8,
            ws@.len() == i,
            forall|k: int|
                0 <= k < i ==> ws@[k] == spec_u64_from_le_bytes(
                    value@.subrange(8 * k, 8 * k + 8),
                ),
        decreases n / 8 - i,
    {
        assert(8 * i + 8 <= n) by (nonlinear_arith)
            requires
                i < n / 8,
                n % 8 == 0,
                n >= 0,
        ;
        let w = u64_from_le_bytes(slice_subrange(value, 8 * i, 8 * i + 8));
        ws.push(w);
        i = i + 1;
    }
    assert(ws@ =~= spec_words64_of(value@));
    Some(ws)
}

/// Appends a run of 64-bit words as bytes.
pub fn push_words64(ws: &Vec<u64>, out: &mut Vec<u8>)
    ensures
        final(out)@ == old(out)@ + spec_words64_bytes(ws@),
{
    let n = ws.len();
    let mut i: usize = 0;
    assert(ws@.subrange(0, 0) =~= Seq::<u64>::empty());
    while i < n
        invariant
            i <= n,
            n == ws@.len(),
            out@ == old(out)@ + spec_words64_bytes(ws@.subrange(0, i as int)),
        decreases n - i,
    {
        push_u64_le(out, ws[i]);
        proof {
            lemma_words64_push(ws@.subrange(0, i as int), ws@[i as int]);
            assert(ws@.subrange(0, i + 1) =~= ws@.subrange(0, i as int).push(ws@[i as int]));
        }
        i = i + 1;
    }
    assert(ws@.subrange(0, n as int) =~= ws@);
}

/// Appending one word appends its eight bytes.
proof fn lemma_words64_push(ws: Seq<u64>, w: u64)
    ensures
        spec_words64_bytes(ws.push(w)) == spec_words64_bytes(ws) + spec_u64_to_le_bytes(w),
    decreases ws.len(),
{
    if ws.len() == 0 {
        assert(ws.push(w)[0] == w);
        assert(ws.push(w).subrange(1, 1) =~= Seq::<u64>::empty());
        assert(spec_words64_bytes(ws.push(w)) == spec_u64_to_le_bytes(w) + spec_words64_bytes(
            Seq::<u64>::empty(),
        ));
        assert(spec_u64_to_le_bytes(w) + Seq::<u8>::empty() =~= spec_u64_to_le_bytes(w));
        assert(Seq::<u8>::empty() + spec_u64_to_le_bytes(w) =~= spec_u64_to_le_bytes(w));
    } else {
        assert(ws.push(w).subrange(1, ws.len() + 1 as int) =~= ws.subrange(
            1,
            ws.len() as int,
        ).push(w));
        lemma_words64_push(ws.subrange(1, ws.len() as int), w);
        assert(spec_words64_bytes(ws.push(w)) =~= spec_words64_bytes(ws) + spec_u64_to_le_bytes(
            w,
        ));
    }
}

} // verus!
