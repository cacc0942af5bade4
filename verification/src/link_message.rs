//! The link message envelope: a fixed 16-byte header (family, link-layer
//! type, interface index and two flag bitsets) followed by the message's
//! attribute stream.

use vstd::prelude::*;
use vstd::bytes::{
    spec_u16_from_le_bytes, spec_u16_to_le_bytes, spec_u32_from_le_bytes, spec_u32_to_le_bytes,
    lemma_auto_spec_u16_to_from_le_bytes, lemma_auto_spec_u32_to_from_le_bytes, u16_from_le_bytes,
    u32_from_le_bytes,
};
use vstd::slice::slice_subrange;
use crate::error::DecodeError;
use crate::link_attrs::{LinkAttribute, LinkAttributeModel};
use crate::nla::{
    models_of, spec_attrs_bytes, spec_canonical_attrs, spec_parse_attrs, spec_zeros,
    lemma_attrs_canonical, lemma_attrs_roundtrip, lemma_parse_attrs_wf, attrs_buffer_len,
    emit_attrs, parse_attrs, Nla, NlaDecode,
};
use crate::tc_message::{AddressFamily, spec_af_byte, spec_af_of_byte, spec_af_wf,
    lemma_af_inverse, af_byte, af_of_byte};
use crate::values::{push_u16_le, push_u32_le};

verus! {

/// One named interface flag of a link, or the leftover bits this codec does
/// not name, kept so the full bit pattern survives a round trip.
#[derive(Debug, PartialEq, Eq, Clone, Copy)]
pub enum LinkFlag {
    Allmulti,
    AutoMedia,
    Broadcast,
    Debug,
    Dormant,
    Dynamic,
    Echo,
    Loopback,
    LowerUp,
    Master,
    Multicast,
    NoArp,
    NoTrailers,
    Pointopoint,
    Portsel,
    Promisc,
    Running,
    Slave,
    Up,
    /// The remaining bits, verbatim.
    Other(u32),
}

/// The bit pattern one flag contributes.
pub open spec fn spec_link_flag_bit(f: LinkFlag) -> u32 {
    match f {
        LinkFlag::Allmulti => 0x200,
        LinkFlag::AutoMedia => 0x4000,
        LinkFlag::Broadcast => 0x2,
        LinkFlag::Debug => 0x4,
        LinkFlag::Dormant => 0x2_0000,
        LinkFlag::Dynamic => 0x8000,
        LinkFlag::Echo => 0x4_0000,
        LinkFlag::Loopback => 0x8,
        LinkFlag::LowerUp => 0x1_0000,
        LinkFlag::Master => 0x400,
        LinkFlag::Multicast => 0x1000,
        LinkFlag::NoArp => 0x80,
        LinkFlag::NoTrailers => 0x20,
        LinkFlag::Pointopoint => 0x10,
        LinkFlag::Portsel => 0x2000,
        LinkFlag::Promisc => 0x100,
        LinkFlag::Running => 0x40,
        LinkFlag::Slave => 0x800,
        LinkFlag::Up => 0x1,
        LinkFlag::Other(b) => b,
    }
}

/// The 32-bit pattern a flag list encodes to.
pub open spec fn spec_link_flags_bits(fs: Seq<LinkFlag>) -> u32
    decreases fs.len(),
{
    if fs.len() == 0 {
        0u32
    } else {
        spec_link_flag_bit(fs[0]) | spec_link_flags_bits(fs.subrange(1, fs.len() as int))
    }
}

/// One conditional singleton of the flag decomposition.
pub open spec fn spec_flag_if(b: u32, mask: u32, f: LinkFlag) -> Seq<LinkFlag> {
    if b & mask != 0 {
        seq![f]
    } else {
        Seq::empty()
    }
}

/// The named flags, by table position, in name order.
pub open spec fn spec_link_flag_entry(i: int) -> (u32, LinkFlag) {
    if i == 0 {
        (0x200u32, LinkFlag::Allmulti)
    } else if i == 1 {
        (0x4000u32, LinkFlag::AutoMedia)
    } else if i == 2 {
        (0x2u32, LinkFlag::Broadcast)
    } else if i == 3 {
        (0x4u32, LinkFlag::Debug)
    } else if i == 4 {
        (0x2_0000u32, LinkFlag::Dormant)
    } else if i == 5 {
        (0x8000u32, LinkFlag::Dynamic)
    } else if i == 6 {
        (0x4_0000u32, LinkFlag::Echo)
    } else if i == 7 {
        (0x8u32, LinkFlag::Loopback)
    } else if i == 8 {
        (0x1_0000u32, LinkFlag::LowerUp)
    } else if i == 9 {
        (0x400u32, LinkFlag::Master)
    } else if i == 10 {
        (0x1000u32, LinkFlag::Multicast)
    } else if i == 11 {
        (0x80u32, LinkFlag::NoArp)
    } else if i == 12 {
        (0x20u32, LinkFlag::NoTrailers)
    } else if i == 13 {
        (0x10u32, LinkFlag::Pointopoint)
    } else if i == 14 {
        (0x2000u32, LinkFlag::Portsel)
    } else if i == 15 {
        (0x100u32, LinkFlag::Promisc)
    } else if i == 16 {
        (0x40u32, LinkFlag::Running)
    } else if i == 17 {
        (0x800u32, LinkFlag::Slave)
    } else {
        (0x1u32, LinkFlag::Up)
    }
}

/// The flags a 32-bit pattern decodes to, from table position `i` on: the
/// named flags it holds, then the leftover bits in one verbatim entry.
pub open spec fn spec_link_flags_of_from(b: u32, i: int) -> Seq<LinkFlag>
    decreases 19 - i,
{
    if i < 0 || i >= 19 {
        if b & 0xfff8_0000 != 0 {
            seq![LinkFlag::Other(b & 0xfff8_0000)]
        } else {
            Seq::<LinkFlag>::empty()
        }
    } else {
        spec_flag_if(b, spec_link_flag_entry(i).0, spec_link_flag_entry(i).1)
            + spec_link_flags_of_from(b, i + 1)
    }
}

/// The flag list a 32-bit pattern decodes to.
pub open spec fn spec_link_flags_of(b: u32) -> Seq<LinkFlag> {
    spec_link_flags_of_from(b, 0)
}

/// Concatenating flag lists combines their bit patterns.
pub proof fn lemma_flags_bits_append(a: Seq<LinkFlag>, c: Seq<LinkFlag>)
    ensures
        spec_link_flags_bits(a + c) == spec_link_flags_bits(a) | spec_link_flags_bits(c),
    decreases a.len(),
{
    if a.len() == 0 {
        assert(a + c =~= c);
        let x = spec_link_flags_bits(c);
        assert(0u32 | x == x) by (bit_vector);
    } else {
        assert((a + c).subrange(1, (a + c).len() as int) =~= a.subrange(1, a.len() as int) + c);
        lemma_flags_bits_append(a.subrange(1, a.len() as int), c);
        let h = spec_link_flag_bit(a[0]);
        let t = spec_link_flags_bits(a.subrange(1, a.len() as int));
        let x = spec_link_flags_bits(c);
        assert((a + c)[0] == a[0]);
        assert(h | (t | x) == (h | t) | x) by (bit_vector);
    }
}

/// A single flag's list encodes to just its bit pattern.
proof fn lemma_flags_bits_singleton(f: LinkFlag)
    ensures
        spec_link_flags_bits(seq![f]) == spec_link_flag_bit(f),
{
    assert(seq![f].subrange(1, 1) =~= Seq::<LinkFlag>::empty());
    assert(spec_link_flags_bits(Seq::<LinkFlag>::empty()) == 0u32);
    assert(seq![f][0] == f);
    let h = spec_link_flag_bit(f);
    assert(h | 0u32 == h) by (bit_vector);
    assert(spec_link_flags_bits(seq![f]) == h | 0u32);
}

/// Every flag list of one conditional singleton encodes to its selected bit.
proof fn lemma_flags_bits_cond(b: u32, mask: u32, f: LinkFlag)
    requires
        spec_link_flag_bit(f) == mask,
    ensures
        spec_link_flags_bits(spec_flag_if(b, mask, f)) == (if b & mask != 0 {
            mask
        } else {
            0u32
        }),
{
    if b & mask != 0 {
        lemma_flags_bits_singleton(f);
    }
}

/// From table position `i` on, the decoded flags encode to the selected
/// bits from `i` on plus the leftover bits.
proof fn lemma_link_flags_of_bits_from(b: u32, i: int)
    requires
        0 <= i <= 19,
    ensures
        spec_link_flags_bits(spec_link_flags_of_from(b, i)) == spec_link_sel_from(b, i),
    decreases 19 - i,
{
    if i == 19 {
        if b & 0xfff8_0000 != 0 {
            lemma_flags_bits_singleton(LinkFlag::Other(b & 0xfff8_0000));
        }
    } else {
        let mask = spec_link_flag_entry(i).0;
        let f = spec_link_flag_entry(i).1;
        lemma_flags_bits_cond(b, mask, f);
        lemma_flags_bits_append(spec_flag_if(b, mask, f), spec_link_flags_of_from(b, i + 1));
        lemma_link_flags_of_bits_from(b, i + 1);
    }
}

/// The selected bits of the pattern from table position `i` on, plus the
/// leftover bits.
pub open spec fn spec_link_sel_from(b: u32, i: int) -> u32
    decreases 19 - i,
{
    if i < 0 || i >= 19 {
        b & 0xfff8_0000
    } else {
        (if b & spec_link_flag_entry(i).0 != 0 {
            spec_link_flag_entry(i).0
        } else {
            0u32
        }) | spec_link_sel_from(b, i + 1)
    }
}

/// Decoding a 32-bit pattern and re-encoding it yields the pattern back.
#[verifier::spinoff_prover]
#[verifier::rlimit(100)]
pub proof fn lemma_link_flags_of_bits(b: u32)
    ensures
        spec_link_flags_bits(spec_link_flags_of(b)) == b,
{
    lemma_link_flags_of_bits_from(b, 0);
    let c0: u32 = spec_link_sel_from(b, 19);
    let c1: u32 = spec_link_sel_from(b, 18);
    let c2: u32 = spec_link_sel_from(b, 17);
    let c3: u32 = spec_link_sel_from(b, 16);
    let c4: u32 = spec_link_sel_from(b, 15);
    let c5: u32 = spec_link_sel_from(b, 14);
    let c6: u32 = spec_link_sel_from(b, 13);
    let c7: u32 = spec_link_sel_from(b, 12);
    let c8: u32 = spec_link_sel_from(b, 11);
    let c9: u32 = spec_link_sel_from(b, 10);
    let c10: u32 = spec_link_sel_from(b, 9);
    let c11: u32 = spec_link_sel_from(b, 8);
    let c12: u32 = spec_link_sel_from(b, 7);
    let c13: u32 = spec_link_sel_from(b, 6);
    let c14: u32 = spec_link_sel_from(b, 5);
    let c15: u32 = spec_link_sel_from(b, 4);
    let c16: u32 = spec_link_sel_from(b, 3);
    let c17: u32 = spec_link_sel_from(b, 2);
    let c18: u32 = spec_link_sel_from(b, 1);
    let c19: u32 = spec_link_sel_from(b, 0);
    assert(c19 == b) by (bit_vector)
        requires
            c0 == b & 0xfff8_0000u32,
            c1 == (if b & 0x1u32 != 0 {
                0x1u32
            } else {
                0u32
            }) | c0,
            c2 == (if b & 0x800u32 != 0 {
                0x800u32
            } else {
                0u32
            }) | c1,
            c3 == (if b & 0x40u32 != 0 {
                0x40u32
            } else {
                0u32
            }) | c2,
            c4 == (if b & 0x100u32 != 0 {
                0x100u32
            } else {
                0u32
            }) | c3,
            c5 == (if b & 0x2000u32 != 0 {
                0x2000u32
            } else {
                0u32
            }) | c4,
            c6 == (if b & 0x10u32 != 0 {
                0x10u32
            } else {
                0u32
            }) | c5,
            c7 == (if b & 0x20u32 != 0 {
                0x20u32
            } else {
                0u32
            }) | c6,
            c8 == (if b & 0x80u32 != 0 {
                0x80u32
            } else {
                0u32
            }) | c7,
            c9 == (if b & 0x1000u32 != 0 {
                0x1000u32
            } else {
                0u32
            }) | c8,
            c10 == (if b & 0x400u32 != 0 {
                0x400u32
            } else {
                0u32
            }) | c9,
            c11 == (if b & 0x1_0000u32 != 0 {
                0x1_0000u32
            } else {
                0u32
            }) | c10,
            c12 == (if b & 0x8u32 != 0 {
                0x8u32
            } else {
                0u32
            }) | c11,
            c13 == (if b & 0x4_0000u32 != 0 {
                0x4_0000u32
            } else {
                0u32
            }) | c12,
            c14 == (if b & 0x8000u32 != 0 {
                0x8000u32
            } else {
                0u32
            }) | c13,
            c15 == (if b & 0x2_0000u32 != 0 {
                0x2_0000u32
            } else {
                0u32
            }) | c14,
            c16 == (if b & 0x4u32 != 0 {
                0x4u32
            } else {
                0u32
            }) | c15,
            c17 == (if b & 0x2u32 != 0 {
                0x2u32
            } else {
                0u32
            }) | c16,
            c18 == (if b & 0x4000u32 != 0 {
                0x4000u32
            } else {
                0u32
            }) | c17,
            c19 == (if b & 0x200u32 != 0 {
                0x200u32
            } else {
                0u32
            }) | c18,
    ;
}

/// The bit pattern this flag contributes.
/// The bit pattern this flag contributes.
pub fn link_flag_bit(f: &LinkFlag) -> (r: u32)
    ensures
        r == spec_link_flag_bit(*f),
{
    match f {
        LinkFlag::Allmulti => 0x200,
        LinkFlag::AutoMedia => 0x4000,
        LinkFlag::Broadcast => 0x2,
        LinkFlag::Debug => 0x4,
        LinkFlag::Dormant => 0x2_0000,
        LinkFlag::Dynamic => 0x8000,
        LinkFlag::Echo => 0x4_0000,
        LinkFlag::Loopback => 0x8,
        LinkFlag::LowerUp => 0x1_0000,
        LinkFlag::Master => 0x400,
        LinkFlag::Multicast => 0x1000,
        LinkFlag::NoArp => 0x80,
        LinkFlag::NoTrailers => 0x20,
        LinkFlag::Pointopoint => 0x10,
        LinkFlag::Portsel => 0x2000,
        LinkFlag::Promisc => 0x100,
        LinkFlag::Running => 0x40,
        LinkFlag::Slave => 0x800,
        LinkFlag::Up => 0x1,
        LinkFlag::Other(b) => *b,
    }
}

/// The 32-bit pattern this flag list encodes to.
#[verifier::spinoff_prover]
#[verifier::rlimit(100)]
pub fn link_flags_bits(fs: &Vec<LinkFlag>) -> (r: u32)
    ensures
        r == spec_link_flags_bits(fs@),
{
    let n = fs.len();
    let mut acc: u32 = 0;
    let mut i: usize = 0;
    assert(fs@.subrange(0, 0) =~= Seq::<LinkFlag>::empty());
    while i < n
        invariant
            i <= n,
            n == fs@.len(),
            acc == spec_link_flags_bits(fs@.subrange(0, i as int)),
        decreases n - i,
    {
        let b = link_flag_bit(&fs[i]);
        proof {
            lemma_flags_bits_append(fs@.subrange(0, i as int), seq![fs@[i as int]]);
            assert(fs@.subrange(0, i + 1) =~= fs@.subrange(0, i as int) + seq![fs@[i as int]]);
            lemma_flags_bits_singleton(fs@[i as int]);
        }
        acc = acc | b;
        i = i + 1;
    }
    assert(fs@.subrange(0, n as int) =~= fs@);
    acc
}

/// One named flag table entry.
fn link_flag_entry(i: usize) -> (r: (u32, LinkFlag))
    requires
        i < 19,
    ensures
        r == spec_link_flag_entry(i as int),
{
    if i == 0 {
        (0x200, LinkFlag::Allmulti)
    } else if i == 1 {
        (0x4000, LinkFlag::AutoMedia)
    } else if i == 2 {
        (0x2, LinkFlag::Broadcast)
    } else if i == 3 {
        (0x4, LinkFlag::Debug)
    } else if i == 4 {
        (0x2_0000, LinkFlag::Dormant)
    } else if i == 5 {
        (0x8000, LinkFlag::Dynamic)
    } else if i == 6 {
        (0x4_0000, LinkFlag::Echo)
    } else if i == 7 {
        (0x8, LinkFlag::Loopback)
    } else if i == 8 {
        (0x1_0000, LinkFlag::LowerUp)
    } else if i == 9 {
        (0x400, LinkFlag::Master)
    } else if i == 10 {
        (0x1000, LinkFlag::Multicast)
    } else if i == 11 {
        (0x80, LinkFlag::NoArp)
    } else if i == 12 {
        (0x20, LinkFlag::NoTrailers)
    } else if i == 13 {
        (0x10, LinkFlag::Pointopoint)
    } else if i == 14 {
        (0x2000, LinkFlag::Portsel)
    } else if i == 15 {
        (0x100, LinkFlag::Promisc)
    } else if i == 16 {
        (0x40, LinkFlag::Running)
    } else if i == 17 {
        (0x800, LinkFlag::Slave)
    } else {
        (0x1, LinkFlag::Up)
    }
}

/// The flag list this 32-bit pattern decodes to.
pub fn link_flags_of(b: u32) -> (r: Vec<LinkFlag>)
    ensures
        r@ == spec_link_flags_of(b),
{
    let mut r: Vec<LinkFlag> = Vec::new();
    let mut i: usize = 0;
    while i < 19
        invariant
            i <= 19,
            spec_link_flags_of(b) == r@ + spec_link_flags_of_from(b, i as int),
        decreases 19 - i,
    {
        let (mask, f) = link_flag_entry(i);
        let ghost before = r@;
        if b & mask != 0 {
            r.push(f);
        }
        proof {
            assert(r@ =~= before + spec_flag_if(b, mask, f));
            assert(spec_link_flags_of_from(b, i as int) == spec_flag_if(b, mask, f)
                + spec_link_flags_of_from(b, i + 1));
            assert(before + (spec_flag_if(b, mask, f) + spec_link_flags_of_from(b, i + 1)) =~= (
            before + spec_flag_if(b, mask, f)) + spec_link_flags_of_from(b, i + 1));
        }
        i = i + 1;
    }
    let ghost before = r@;
    if b & 0xfff8_0000 != 0 {
        r.push(LinkFlag::Other(b & 0xfff8_0000));
    }
    proof {
        assert(r@ =~= before + spec_link_flags_of_from(b, 19));
        assert(spec_link_flags_of(b) =~= r@);
    }
    r
}

/// A canonical flag list: one that decoding some 32-bit pattern produces.
pub open spec fn spec_link_flags_canonical(fs: Seq<LinkFlag>) -> bool {
    fs == spec_link_flags_of(spec_link_flags_bits(fs))
}

/// The link-layer type of an interface, 16 bits on the wire.
#[derive(Debug, PartialEq, Eq, Clone, Copy)]
pub enum LinkLayerType {
    /// Ethernet.
    Ether,
    /// The loopback device type.
    Loopback,
    /// Any other link-layer type value, kept verbatim.
    Other(u16),
}

/// The 16-bit value a link-layer type is written as.
pub open spec fn spec_llt_bits(t: LinkLayerType) -> u16 {
    match t {
        LinkLayerType::Ether => 1,
        LinkLayerType::Loopback => 772,
        LinkLayerType::Other(b) => b,
    }
}

/// The link-layer type a 16-bit value decodes to.
pub open spec fn spec_llt_of_bits(b: u16) -> LinkLayerType {
    if b == 1 {
        LinkLayerType::Ether
    } else if b == 772 {
        LinkLayerType::Loopback
    } else {
        LinkLayerType::Other(b)
    }
}

/// The fallback arm carries only values without a name of their own.
pub open spec fn spec_llt_wf(t: LinkLayerType) -> bool {
    match t {
        LinkLayerType::Other(b) => !(b == 1 || b == 772),
        _ => true,
    }
}

/// The two link-layer type conversions invert each other.
pub proof fn lemma_llt_inverse()
    ensures
        forall|t: LinkLayerType|
            spec_llt_wf(t) ==> spec_llt_of_bits(#[trigger] spec_llt_bits(t)) == t,
        forall|b: u16| spec_llt_bits(#[trigger] spec_llt_of_bits(b)) == b,
        forall|b: u16| spec_llt_wf(#[trigger] spec_llt_of_bits(b)),
{
}

/// The 16-bit value this link-layer type is written as.
pub fn llt_bits(t: &LinkLayerType) -> (r: u16)
    ensures
        r == spec_llt_bits(*t),
{
    match t {
        LinkLayerType::Ether => 1,
        LinkLayerType::Loopback => 772,
        LinkLayerType::Other(b) => *b,
    }
}

/// The link-layer type this 16-bit value decodes to.
pub fn llt_of_bits(b: u16) -> (r: LinkLayerType)
    ensures
        r == spec_llt_of_bits(b),
{
    if b == 1 {
        LinkLayerType::Ether
    } else if b == 772 {
        LinkLayerType::Loopback
    } else {
        LinkLayerType::Other(b)
    }
}

/// The width of a link message's fixed header.
pub const LINK_HEADER_LEN: usize = 16;

/// The fixed header of a link message: family byte, one reserved byte, the
/// link-layer type, the interface index, the interface flags, and the change
/// mask, in native (little-endian) byte order.
#[derive(Debug, PartialEq, Eq, Clone)]
pub struct LinkHeader {
    pub interface_family: AddressFamily,
    pub index: u32,
    pub link_layer_type: LinkLayerType,
    pub flags: Vec<LinkFlag>,
    pub change_mask: Vec<LinkFlag>,
}

/// The model of a [`LinkHeader`].
pub struct LinkHeaderModel {
    pub interface_family: AddressFamily,
    pub index: u32,
    pub link_layer_type: LinkLayerType,
    pub flags: Seq<LinkFlag>,
    pub change_mask: Seq<LinkFlag>,
}

impl LinkHeader {
    /// The model of this header.
    pub open spec fn model(&self) -> LinkHeaderModel {
        LinkHeaderModel {
            interface_family: self.interface_family,
            index: self.index,
            link_layer_type: self.link_layer_type,
            flags: self.flags@,
            change_mask: self.change_mask@,
        }
    }
}

/// The 16 header bytes of a link message.
pub open spec fn spec_link_header_bytes(h: LinkHeaderModel) -> Seq<u8> {
    seq![spec_af_byte(h.interface_family)] + spec_zeros(1) + spec_u16_to_le_bytes(
        spec_llt_bits(h.link_layer_type),
    ) + spec_u32_to_le_bytes(h.index) + spec_u32_to_le_bytes(spec_link_flags_bits(h.flags))
        + spec_u32_to_le_bytes(spec_link_flags_bits(h.change_mask))
}

/// What decoding a link header from the front of a buffer yields. The
/// reserved byte is ignored, not validated.
pub open spec fn spec_link_header_parse(b: Seq<u8>) -> Result<LinkHeaderModel, DecodeError> {
    if b.len() < 16 {
        Err(DecodeError::TooShort { expected: 16, available: b.len() as usize })
    } else {
        Ok(
            LinkHeaderModel {
                interface_family: spec_af_of_byte(b[0]),
                index: spec_u32_from_le_bytes(b.subrange(4, 8)),
                link_layer_type: spec_llt_of_bits(spec_u16_from_le_bytes(b.subrange(2, 4))),
                flags: spec_link_flags_of(spec_u32_from_le_bytes(b.subrange(8, 12))),
                change_mask: spec_link_flags_of(spec_u32_from_le_bytes(b.subrange(12, 16))),
            },
        )
    }
}

/// A link header's well-formedness: the fallback arms decode back to
/// themselves and the flag lists are canonical.
pub open spec fn spec_link_header_wf(h: LinkHeaderModel) -> bool {
    &&& spec_af_wf(h.interface_family)
    &&& spec_llt_wf(h.link_layer_type)
    &&& spec_link_flags_canonical(h.flags)
    &&& spec_link_flags_canonical(h.change_mask)
}

/// Decoding inverts encoding for link headers; decoding a 16-byte prefix
/// whose reserved byte is zero and re-encoding reproduces that prefix.
pub proof fn lemma_link_header_roundtrip(h: LinkHeaderModel, b: Seq<u8>)
    ensures
        spec_link_header_bytes(h).len() == 16,
        spec_link_header_wf(h) ==> spec_link_header_parse(spec_link_header_bytes(h)) == Ok::<
            LinkHeaderModel,
            DecodeError,
        >(h),
        spec_link_header_parse(b) matches Ok(t) ==> {
            &&& spec_link_header_wf(t)
            &&& (b.len() >= 16 && b[1] == 0 ==> spec_link_header_bytes(t) == b.subrange(0, 16))
        },
{
    lemma_auto_spec_u16_to_from_le_bytes();
    lemma_auto_spec_u32_to_from_le_bytes();
    lemma_af_inverse();
    lemma_llt_inverse();
    let hb = spec_link_header_bytes(h);
    assert(hb.len() == 16);
    if spec_link_header_wf(h) {
        assert(hb.subrange(2, 4) =~= spec_u16_to_le_bytes(spec_llt_bits(h.link_layer_type)));
        assert(hb.subrange(4, 8) =~= spec_u32_to_le_bytes(h.index));
        assert(hb.subrange(8, 12) =~= spec_u32_to_le_bytes(spec_link_flags_bits(h.flags)));
        assert(hb.subrange(12, 16) =~= spec_u32_to_le_bytes(spec_link_flags_bits(h.change_mask)));
    }
    if spec_link_header_parse(b) is Ok {
        let t = spec_link_header_parse(b)->Ok_0;
        lemma_link_flags_of_bits(spec_u32_from_le_bytes(b.subrange(8, 12)));
        lemma_link_flags_of_bits(spec_u32_from_le_bytes(b.subrange(12, 16)));
        if b.len() >= 16 && b[1] == 0 {
            assert(spec_link_header_bytes(t) =~= b.subrange(0, 16));
        }
    }
}

/// Decodes the fixed header from the front of a buffer.
pub fn parse_link_header(buf: &[u8]) -> (r: Result<LinkHeader, DecodeError>)
    ensures
        match r {
            Ok(h) => spec_link_header_parse(buf@) == Ok::<LinkHeaderModel, DecodeError>(h.model()),
            Err(e) => spec_link_header_parse(buf@) == Err::<LinkHeaderModel, DecodeError>(e),
        },
{
    let n = buf.len();
    if n < 16 {
        return Err(DecodeError::TooShort { expected: 16, available: n });
    }
    let interface_family = af_of_byte(buf[0]);
    let link_layer_type = llt_of_bits(u16_from_le_bytes(slice_subrange(buf, 2, 4)));
    let index = u32_from_le_bytes(slice_subrange(buf, 4, 8));
    let flags = link_flags_of(u32_from_le_bytes(slice_subrange(buf, 8, 12)));
    let change_mask = link_flags_of(u32_from_le_bytes(slice_subrange(buf, 12, 16)));
    Ok(LinkHeader { interface_family, index, link_layer_type, flags, change_mask })
}

/// Appends the fixed header's 16 bytes, reserved byte zero.
pub fn emit_link_header(h: &LinkHeader, out: &mut Vec<u8>)
    ensures
        final(out)@ == old(out)@ + spec_link_header_bytes(h.model()),
{
    out.push(af_byte(&h.interface_family));
    out.push(0);
    push_u16_le(out, llt_bits(&h.link_layer_type));
    push_u32_le(out, h.index);
    push_u32_le(out, link_flags_bits(&h.flags));
    push_u32_le(out, link_flags_bits(&h.change_mask));
    assert(out@ =~= old(out)@ + spec_link_header_bytes(h.model()));
}

/// A link message: its fixed header and its attributes, order and repetition
/// preserved exactly as decoded or constructed.
#[derive(Debug, PartialEq, Eq, Clone)]
pub struct LinkMessage {
    pub header: LinkHeader,
    pub attributes: Vec<LinkAttribute>,
}

/// The model of a [`LinkMessage`].
pub struct LinkMessageModel {
    pub header: LinkHeaderModel,
    pub attributes: Seq<LinkAttributeModel>,
}

/// The bytes a link message model encodes to: header, then the records in
/// attribute order.
pub open spec fn spec_link_msg_bytes(m: LinkMessageModel) -> Seq<u8> {
    spec_link_header_bytes(m.header) + spec_attrs_bytes::<LinkAttribute>(m.attributes)
}

/// A well-formed link message model.
pub open spec fn spec_link_msg_wf(m: LinkMessageModel) -> bool {
    &&& spec_link_header_wf(m.header)
    &&& (forall|i: int|
        0 <= i < m.attributes.len() ==> LinkAttribute::m_wf(#[trigger] m.attributes[i]))
    &&& spec_link_msg_bytes(m).len() <= 0xffff_ffff
}

/// What decoding a link message yields: the header from the first 16 bytes,
/// then the attribute walk over the rest.
pub open spec fn spec_link_msg_parse(b: Seq<u8>) -> Result<LinkMessageModel, DecodeError> {
    match spec_link_header_parse(b) {
        Ok(h) => match spec_parse_attrs::<(), LinkAttribute>((), b.subrange(16, b.len() as int)) {
            Ok(ms) => Ok(LinkMessageModel { header: h, attributes: ms }),
            Err(e) => Err(e),
        },
        Err(e) => Err(e),
    }
}

/// A canonical link message buffer: reserved header byte zero, a canonical
/// attribute stream after the header, and within a netlink frame's length.
pub open spec fn spec_link_msg_canonical(b: Seq<u8>) -> bool {
    &&& b.len() >= 16
    &&& b.len() <= 0xffff_ffff
    &&& b[1] == 0
    &&& spec_canonical_attrs::<(), LinkAttribute>((), b.subrange(16, b.len() as int))
}

/// The round-trip law for link messages, decode after encode: decoding the
/// encoding of any well-formed message yields that message back.
pub proof fn lemma_link_msg_roundtrip(m: LinkMessageModel)
    requires
        spec_link_msg_wf(m),
    ensures
        spec_link_msg_parse(spec_link_msg_bytes(m)) == Ok::<LinkMessageModel, DecodeError>(m),
{
    let b = spec_link_msg_bytes(m);
    let hb = spec_link_header_bytes(m.header);
    let ab = spec_attrs_bytes::<LinkAttribute>(m.attributes);
    lemma_link_header_roundtrip(m.header, b);
    assert(b.subrange(0, 16) =~= hb);
    assert(b[0] == hb[0]);
    assert(spec_link_header_parse(b) == Ok::<LinkHeaderModel, DecodeError>(m.header)) by {
        assert(spec_link_header_parse(hb) == Ok::<LinkHeaderModel, DecodeError>(m.header));
        assert(b.subrange(2, 4) =~= hb.subrange(2, 4));
        assert(b.subrange(4, 8) =~= hb.subrange(4, 8));
        assert(b.subrange(8, 12) =~= hb.subrange(8, 12));
        assert(b.subrange(12, 16) =~= hb.subrange(12, 16));
    }
    lemma_attrs_roundtrip::<(), LinkAttribute>((), m.attributes);
    assert(b.subrange(16, b.len() as int) =~= ab);
}

/// The round-trip law for link messages, encode after decode: re-encoding
/// the message decoded from a canonical buffer reproduces that buffer byte
/// for byte, and the decoded message is well-formed.
#[verifier::spinoff_prover]
#[verifier::rlimit(100)]
pub proof fn lemma_link_msg_canonical(b: Seq<u8>)
    requires
        spec_link_msg_canonical(b),
        spec_link_msg_parse(b) is Ok,
    ensures
        spec_link_msg_bytes(spec_link_msg_parse(b)->Ok_0) == b,
        spec_link_msg_wf(spec_link_msg_parse(b)->Ok_0),
{
    let m = spec_link_msg_parse(b)->Ok_0;
    let ab = b.subrange(16, b.len() as int);
    lemma_link_header_roundtrip(m.header, b);
    lemma_attrs_canonical::<(), LinkAttribute>((), ab);
    lemma_parse_attrs_wf::<(), LinkAttribute>((), ab);
    assert(spec_link_msg_bytes(m) =~= b);
}

impl LinkMessage {
    /// The model of this message.
    pub open spec fn model(&self) -> LinkMessageModel {
        LinkMessageModel { header: self.header.model(), attributes: models_of(self.attributes@) }
    }

    /// Decodes a link message from a buffer: the fixed header, then the
    /// attribute stream, exactly as [`spec_link_msg_parse`] says.
    pub fn parse(buf: &[u8]) -> (r: Result<LinkMessage, DecodeError>)
        ensures
            match r {
                Ok(m) => spec_link_msg_parse(buf@) == Ok::<LinkMessageModel, DecodeError>(
                    m.model(),
                ),
                Err(e) => spec_link_msg_parse(buf@) == Err::<LinkMessageModel, DecodeError>(e),
            },
    {
        let header = match parse_link_header(buf) {
            Ok(h) => h,
            Err(e) => {
                return Err(e);
            },
        };
        let rest = slice_subrange(buf, 16, buf.len());
        proof {
            assert(rest@ =~= buf@.subrange(16, buf@.len() as int));
        }
        match parse_attrs::<(), LinkAttribute>(&(), rest) {
            Ok(attributes) => Ok(LinkMessage { header, attributes }),
            Err(e) => Err(e),
        }
    }

    /// The number of bytes [`LinkMessage::emit`] writes for this message.
    pub fn buffer_len(&self) -> (r: usize)
        requires
            spec_link_msg_wf(self.model()),
        ensures
            r == spec_link_msg_bytes(self.model()).len(),
    {
        proof {
            assert forall|i: int| 0 <= i < self.attributes@.len() implies LinkAttribute::m_wf(
                (#[trigger] self.attributes@[i]).model(),
            ) by {
                assert(models_of(self.attributes@)[i] == self.attributes@[i].model());
            }
            lemma_link_header_roundtrip(self.header.model(), Seq::empty());
        }
        16 + attrs_buffer_len(&self.attributes)
    }

    /// Encodes this message: the header's 16 bytes, then each attribute's
    /// record in list order, with zero padding.
    pub fn emit(&self) -> (r: Vec<u8>)
        requires
            spec_link_msg_wf(self.model()),
        ensures
            r@ == spec_link_msg_bytes(self.model()),
    {
        proof {
            assert forall|i: int| 0 <= i < self.attributes@.len() implies LinkAttribute::m_wf(
                (#[trigger] self.attributes@[i]).model(),
            ) by {
                assert(models_of(self.attributes@)[i] == self.attributes@[i].model());
            }
        }
        let mut out: Vec<u8> = Vec::new();
        emit_link_header(&self.header, &mut out);
        emit_attrs(&self.attributes, &mut out);
        assert(out@ =~= spec_link_msg_bytes(self.model()));
        out
    }
}

} // verus!
