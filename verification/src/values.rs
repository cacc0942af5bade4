//! Leaf value codecs shared by every attribute catalog: fixed-width integers
//! in little- and big-endian byte order, 32-bit signed fields, and
//! null-terminated strings.

use vstd::prelude::*;
use vstd::bytes::{
    spec_u16_from_le_bytes, spec_u32_from_le_bytes, spec_u64_from_le_bytes, spec_u16_to_le_bytes,
    spec_u32_to_le_bytes, spec_u64_to_le_bytes, lemma_auto_spec_u16_to_from_le_bytes,
    lemma_auto_spec_u32_to_from_le_bytes, lemma_auto_spec_u64_to_from_le_bytes, u16_from_le_bytes,
    u32_from_le_bytes, u64_from_le_bytes, u16_to_le_bytes, u32_to_le_bytes, u64_to_le_bytes,
};
use vstd::slice::{slice_subrange, slice_to_vec};
use vstd::utf8::{valid_utf8, decode_utf8, encode_utf8, encode_utf8_valid_utf8,
    encode_utf8_decode_utf8, decode_utf8_encode_utf8};
use vstd::string::StrSliceExecFns;

verus! {

/// Appends a 16-bit value in little-endian order.
pub fn push_u16_le(out: &mut Vec<u8>, x: u16)
    ensures
        final(out)@ == old(out)@ + spec_u16_to_le_bytes(x),
{
    let b = u16_to_le_bytes(x);
    out.push(b[0]);
    out.push(b[1]);
    assert(out@ =~= old(out)@ + spec_u16_to_le_bytes(x));
}

/// Appends a 32-bit value in little-endian order.
pub fn push_u32_le(out: &mut Vec<u8>, x: u32)
    ensures
        final(out)@ == old(out)@ + spec_u32_to_le_bytes(x),
{
    let b = u32_to_le_bytes(x);
    out.push(b[0]);
    out.push(b[1]);
    out.push(b[2]);
    out.push(b[3]);
    assert(out@ =~= old(out)@ + spec_u32_to_le_bytes(x));
}

/// Appends a 64-bit value in little-endian order.
pub fn push_u64_le(out: &mut Vec<u8>, x: u64)
    ensures
        final(out)@ == old(out)@ + spec_u64_to_le_bytes(x),
{
    let b = u64_to_le_bytes(x);
    let mut j: usize = 0;
    let ghost start = out@;
    while j < 8
        invariant
            j <= 8,
            b@ == spec_u64_to_le_bytes(x),
            b@.len() == 8,
            out@ == start + b@.subrange(0, j as int),
        decreases 8 - j,
    {
        out.push(b[j]);
        assert(start + b@.subrange(0, j as int) + seq![b@[j as int]] =~= start + b@.subrange(
            0,
            j + 1,
        ));
        j = j + 1;
    }
    assert(start + b@.subrange(0, 8) =~= start + b@);
}

/// The value bytes: exactly one byte, the value itself.
pub fn read_u8(value: &[u8]) -> (r: Option<u8>)
    ensures
        match r {
            Some(x) => value@.len() == 1 && x == value@[0],
            None => value@.len() != 1,
        },
{
    if value.len() == 1 {
        Some(value[0])
    } else {
        None
    }
}

/// The value bytes read as a strict boolean: exactly one byte, zero or one.
pub fn read_bool(value: &[u8]) -> (r: Option<bool>)
    ensures
        match r {
            Some(b) => value@.len() == 1 && (value@[0] == 0 || value@[0] == 1) && (b <==> value@[0]
                == 1),
            None => !(value@.len() == 1 && (value@[0] == 0 || value@[0] == 1)),
        },
{
    if value.len() == 1 && (value[0] == 0 || value[0] == 1) {
        Some(value[0] == 1)
    } else {
        None
    }
}

/// The value bytes read as a little-endian 16-bit integer.
pub fn read_u16_le(value: &[u8]) -> (r: Option<u16>)
    ensures
        match r {
            Some(x) => value@.len() == 2 && x == spec_u16_from_le_bytes(value@),
            None => value@.len() != 2,
        },
{
    if value.len() == 2 {
        Some(u16_from_le_bytes(value))
    } else {
        None
    }
}

/// The value bytes read as a little-endian 32-bit integer.
pub fn read_u32_le(value: &[u8]) -> (r: Option<u32>)
    ensures
        match r {
            Some(x) => value@.len() == 4 && x == spec_u32_from_le_bytes(value@),
            None => value@.len() != 4,
        },
{
    if value.len() == 4 {
        Some(u32_from_le_bytes(value))
    } else {
        None
    }
}

/// The value bytes read as a little-endian 64-bit integer.
pub fn read_u64_le(value: &[u8]) -> (r: Option<u64>)
    ensures
        match r {
            Some(x) => value@.len() == 8 && x == spec_u64_from_le_bytes(value@),
            None => value@.len() != 8,
        },
{
    if value.len() == 8 {
        Some(u64_from_le_bytes(value))
    } else {
        None
    }
}

/// A 16-bit value in big-endian byte order (used by fields that the wire
/// protocol defines as network byte order, such as VLAN protocol numbers and
/// bridge identifier priorities).
pub open spec fn spec_u16_to_be_bytes(x: u16) -> Seq<u8> {
    seq![(x / 256) as u8, (x % 256) as u8]
}

/// The 16-bit value of two big-endian bytes.
pub open spec fn spec_u16_from_be_bytes(s: Seq<u8>) -> u16
    recommends
        s.len() == 2,
{
    (s[0] * 256 + s[1]) as u16
}

/// The two big-endian conversions invert each other.
pub proof fn lemma_u16_be_inverse()
    ensures
        forall|x: u16| spec_u16_from_be_bytes(#[trigger] spec_u16_to_be_bytes(x)) == x,
        forall|s: Seq<u8>|
            s.len() == 2 ==> #[trigger] spec_u16_to_be_bytes(spec_u16_from_be_bytes(s)) == s,
{
    assert forall|s: Seq<u8>| s.len() == 2 implies #[trigger] spec_u16_to_be_bytes(
        spec_u16_from_be_bytes(s),
    ) == s by {
        assert(spec_u16_to_be_bytes(spec_u16_from_be_bytes(s)) =~= s);
    }
}

/// Reads a big-endian 16-bit field.
pub fn read_u16_be(value: &[u8]) -> (r: Option<u16>)
    ensures
        match r {
            Some(x) => value@.len() == 2 && x == spec_u16_from_be_bytes(value@),
            None => value@.len() != 2,
        },
{
    if value.len() == 2 {
        Some((value[0] as u16) * 256 + (value[1] as u16))
    } else {
        None
    }
}

/// Appends a 16-bit value in big-endian order.
pub fn push_u16_be(out: &mut Vec<u8>, x: u16)
    ensures
        final(out)@ == old(out)@ + spec_u16_to_be_bytes(x),
{
    out.push((x / 256) as u8);
    out.push((x % 256) as u8);
    assert(out@ =~= old(out)@ + spec_u16_to_be_bytes(x));
}

/// The unsigned 32-bit pattern that carries a signed 32-bit field on the
/// wire (two's complement).
pub open spec fn spec_u32_of_i32(x: i32) -> u32 {
    if x >= 0 {
        x as u32
    } else {
        (x + 0x1_0000_0000) as u32
    }
}

/// The signed 32-bit field carried by an unsigned 32-bit wire pattern.
pub open spec fn spec_i32_of_u32(y: u32) -> i32 {
    if y <= 0x7fff_ffff {
        y as i32
    } else {
        (y - 0x1_0000_0000) as i32
    }
}

/// The two 32-bit sign conversions invert each other.
pub proof fn lemma_i32_u32_inverse()
    ensures
        forall|x: i32| spec_i32_of_u32(#[trigger] spec_u32_of_i32(x)) == x,
        forall|y: u32| spec_u32_of_i32(#[trigger] spec_i32_of_u32(y)) == y,
{
}

/// The two's-complement pattern of a signed 32-bit value.
pub fn u32_of_i32(x: i32) -> (r: u32)
    ensures
        r == spec_u32_of_i32(x),
{
    if x >= 0 {
        x as u32
    } else {
        0xffff_ffffu32 - ((-(x + 1)) as u32)
    }
}

/// The signed 32-bit value of a two's-complement pattern.
pub fn i32_of_u32(y: u32) -> (r: i32)
    ensures
        r == spec_i32_of_u32(y),
{
    if y <= 0x7fff_ffff {
        y as i32
    } else {
        -((0xffff_ffffu32 - y) as i32) - 1
    }
}

/// The wire form of a string value: its UTF-8 bytes followed by one
/// terminating zero byte.
pub open spec fn spec_strz_bytes(s: Seq<char>) -> Seq<u8> {
    encode_utf8(s) + seq![0u8]
}

/// The value bytes are a well-formed null-terminated string: at least the
/// terminator, exactly one zero byte (the last), and valid UTF-8 before it.
pub open spec fn spec_strz_ok(v: Seq<u8>) -> bool {
    &&& v.len() >= 1
    &&& v[v.len() - 1] == 0
    &&& (forall|j: int| 0 <= j < v.len() - 1 ==> #[trigger] v[j] != 0)
    &&& valid_utf8(v.subrange(0, v.len() - 1))
}

/// The characters of a well-formed null-terminated string value.
pub open spec fn spec_strz_chars(v: Seq<u8>) -> Seq<char> {
    decode_utf8(v.subrange(0, v.len() - 1))
}

/// A string whose UTF-8 bytes contain no zero byte round-trips through the
/// null-terminated wire form.
pub proof fn lemma_strz_roundtrip(s: Seq<char>)
    requires
        forall|j: int| 0 <= j < encode_utf8(s).len() ==> #[trigger] encode_utf8(s)[j] != 0,
    ensures
        spec_strz_ok(spec_strz_bytes(s)),
        spec_strz_chars(spec_strz_bytes(s)) == s,
{
    encode_utf8_valid_utf8(s);
    encode_utf8_decode_utf8(s);
    let v = spec_strz_bytes(s);
    assert(v.subrange(0, v.len() - 1) =~= encode_utf8(s));
}

/// A well-formed null-terminated string value is reproduced by re-encoding
/// its characters, and those characters encode with no zero byte.
pub proof fn lemma_strz_project(v: Seq<u8>)
    requires
        spec_strz_ok(v),
    ensures
        spec_strz_bytes(spec_strz_chars(v)) == v,
        forall|j: int|
            0 <= j < encode_utf8(spec_strz_chars(v)).len() ==> #[trigger] encode_utf8(
                spec_strz_chars(v),
            )[j] != 0,
{
    let body = v.subrange(0, v.len() - 1);
    decode_utf8_encode_utf8(body);
    assert(encode_utf8(spec_strz_chars(v)) == body);
    assert(spec_strz_bytes(spec_strz_chars(v)) =~= v);
}

/// Relies on `String::from_utf8` of std: it succeeds exactly on valid UTF-8
/// input and the returned string's characters are the decoding of the bytes,
/// as `vstd`'s UTF-8 model states it.
#[verifier::external_body]
fn string_from_utf8(v: Vec<u8>) -> (r: Option<String>)
    ensures
        match r {
            Some(s) => valid_utf8(v@) && s@ == decode_utf8(v@),
            None => !valid_utf8(v@),
        },
{
    String::from_utf8(v).ok()
}

/// Decodes a null-terminated string value, strictly: the terminator must be
/// present, no zero byte may precede it, and the rest must be valid UTF-8.
pub fn read_strz(value: &[u8]) -> (r: Option<String>)
    ensures
        match r {
            Some(s) => spec_strz_ok(value@) && s@ == spec_strz_chars(value@),
            None => !spec_strz_ok(value@),
        },
{
    let n = value.len();
    if n < 1 {
        return None;
    }
    if value[n - 1] != 0 {
        return None;
    }
    let mut j: usize = 0;
    while j < n - 1
        invariant
            j <= n - 1,
            n == value@.len(),
            n >= 1,
            forall|k: int| 0 <= k < j ==> #[trigger] value@[k] != 0,
        decreases n - 1 - j,
    {
        if value[j] == 0 {
            return None;
        }
        j = j + 1;
    }
    let body = slice_to_vec(slice_subrange(value, 0, n - 1));
    match string_from_utf8(body) {
        Some(s) => Some(s),
        None => None,
    }
}

/// Appends a string value in its null-terminated wire form.
pub fn push_strz(s: &str, out: &mut Vec<u8>)
    ensures
        final(out)@ == old(out)@ + spec_strz_bytes(s@),
{
    let mut bytes = s.as_bytes_vec();
    out.append(&mut bytes);
    out.push(0u8);
    assert(out@ =~= old(out)@ + spec_strz_bytes(s@));
}

/// The length of a string value's wire form: its UTF-8 bytes plus the
/// terminator.
pub fn strz_len(s: &str) -> (r: usize)
    requires
        encode_utf8(s@).len() + 1 <= usize::MAX,
    ensures
        r == spec_strz_bytes(s@).len(),
{
    s.as_bytes().len() + 1
}

} // verus!
