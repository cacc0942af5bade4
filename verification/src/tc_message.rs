//! The tc message envelope: a fixed 20-byte header followed by the message's
//! attribute stream. The attribute walk is stateful: the kind attribute's
//! string selects the scope under which a later options attribute resolves.

use vstd::prelude::*;
use vstd::bytes::{
    spec_u32_from_le_bytes, spec_u32_to_le_bytes, lemma_auto_spec_u32_to_from_le_bytes,
    u32_from_le_bytes,
};
use vstd::slice::slice_subrange;
use vstd::utf8::encode_utf8;
use crate::align::{spec_align4, lemma_align4_smallest, align4};
use crate::error::DecodeError;
use crate::fallback::{DefaultNla, DefaultNlaModel};
use crate::nla::{
    Nla, NlaDecode, models_of, spec_attr_bytes, spec_attrs_bytes, spec_record_bytes,
    spec_canonical_attrs, spec_parse_attrs, spec_zeros, lemma_attrs_bytes_push,
    lemma_attrs_canonical, lemma_attrs_roundtrip, lemma_attrs_bytes_aligned, lemma_parse_attrs_len, lemma_parse_attrs_wf,
    lemma_record_bytes_facts, attrs_buffer_len, emit_attrs, parse_attrs,
};
use crate::tc_handle::{TcHandle, spec_tc_handle_bits, spec_tc_handle_of_bits,
    lemma_tc_handle_bits_inverse};
use crate::tc_options::{TcOption, TcOptionModel, TcOptionScope, spec_scope_of_chars,
    scope_of_kind};
use crate::tc_stats::{
    TcStats, TcStats2, TcStats2Model, spec_tc_stats_bytes, spec_tc_stats_parse,
    lemma_tc_stats_roundtrip, parse_tc_stats, emit_tc_stats,
};
use crate::values::{
    spec_u32_of_i32, spec_i32_of_u32, lemma_i32_u32_inverse, u32_of_i32, i32_of_u32,
    spec_strz_bytes, spec_strz_ok, spec_strz_chars, lemma_strz_roundtrip, lemma_strz_project,
    read_strz, push_strz, strz_len, push_u32_le, read_u8,
};

verus! {

/// An address family byte, with every value this codec does not name kept
/// verbatim.
#[derive(Debug, PartialEq, Eq, Clone, Copy)]
pub enum AddressFamily {
    /// AF_UNSPEC.
    Unspec,
    /// AF_INET.
    Inet,
    /// AF_BRIDGE.
    Bridge,
    /// AF_INET6.
    Inet6,
    /// AF_PACKET.
    Packet,
    /// Any other family value.
    Other(u8),
}

/// The byte an address family is written as.
pub open spec fn spec_af_byte(a: AddressFamily) -> u8 {
    match a {
        AddressFamily::Unspec => 0,
        AddressFamily::Inet => 2,
        AddressFamily::Bridge => 7,
        AddressFamily::Inet6 => 10,
        AddressFamily::Packet => 17,
        AddressFamily::Other(b) => b,
    }
}

/// The address family a byte decodes to.
pub open spec fn spec_af_of_byte(b: u8) -> AddressFamily {
    if b == 0 {
        AddressFamily::Unspec
    } else if b == 2 {
        AddressFamily::Inet
    } else if b == 7 {
        AddressFamily::Bridge
    } else if b == 10 {
        AddressFamily::Inet6
    } else if b == 17 {
        AddressFamily::Packet
    } else {
        AddressFamily::Other(b)
    }
}

/// The fallback arm carries only bytes without a name of their own.
pub open spec fn spec_af_wf(a: AddressFamily) -> bool {
    match a {
        AddressFamily::Other(b) => !(b == 0 || b == 2 || b == 7 || b == 10 || b == 17),
        _ => true,
    }
}

/// The two address family conversions invert each other.
pub proof fn lemma_af_inverse()
    ensures
        forall|a: AddressFamily|
            spec_af_wf(a) ==> spec_af_of_byte(#[trigger] spec_af_byte(a)) == a,
        forall|b: u8| spec_af_byte(#[trigger] spec_af_of_byte(b)) == b,
        forall|b: u8| spec_af_wf(#[trigger] spec_af_of_byte(b)),
{
}

/// The byte this address family is written as.
pub fn af_byte(a: &AddressFamily) -> (r: u8)
    ensures
        r == spec_af_byte(*a),
{
    match a {
        AddressFamily::Unspec => 0,
        AddressFamily::Inet => 2,
        AddressFamily::Bridge => 7,
        AddressFamily::Inet6 => 10,
        AddressFamily::Packet => 17,
        AddressFamily::Other(b) => *b,
    }
}

/// The address family this byte decodes to.
pub fn af_of_byte(b: u8) -> (r: AddressFamily)
    ensures
        r == spec_af_of_byte(b),
{
    if b == 0 {
        AddressFamily::Unspec
    } else if b == 2 {
        AddressFamily::Inet
    } else if b == 7 {
        AddressFamily::Bridge
    } else if b == 10 {
        AddressFamily::Inet6
    } else if b == 17 {
        AddressFamily::Packet
    } else {
        AddressFamily::Other(b)
    }
}

/// The width of a tc message's fixed header.
pub const TC_HEADER_LEN: usize = 20;

/// The fixed header of a tc message: family byte, three reserved bytes, the
/// interface index, the object's handle, its parent handle, and the info
/// field, all in native (little-endian) byte order.
#[derive(Debug, PartialEq, Eq, Clone, Copy)]
pub struct TcHeader {
    pub family: AddressFamily,
    pub index: i32,
    pub handle: TcHandle,
    pub parent: TcHandle,
    pub info: u32,
}

/// The 20 header bytes of a tc message.
pub open spec fn spec_tc_header_bytes(h: TcHeader) -> Seq<u8> {
    seq![spec_af_byte(h.family)] + spec_zeros(3) + spec_u32_to_le_bytes(
        spec_u32_of_i32(h.index),
    ) + spec_u32_to_le_bytes(spec_tc_handle_bits(h.handle)) + spec_u32_to_le_bytes(
        spec_tc_handle_bits(h.parent),
    ) + spec_u32_to_le_bytes(h.info)
}

/// What decoding a tc header from the front of a buffer yields. The three
/// reserved bytes are ignored, not validated.
pub open spec fn spec_tc_header_parse(b: Seq<u8>) -> Result<TcHeader, DecodeError> {
    if b.len() < 20 {
        Err(DecodeError::TooShort { expected: 20, available: b.len() as usize })
    } else {
        Ok(
            TcHeader {
                family: spec_af_of_byte(b[0]),
                index: spec_i32_of_u32(spec_u32_from_le_bytes(b.subrange(4, 8))),
                handle: spec_tc_handle_of_bits(spec_u32_from_le_bytes(b.subrange(8, 12))),
                parent: spec_tc_handle_of_bits(spec_u32_from_le_bytes(b.subrange(12, 16))),
                info: spec_u32_from_le_bytes(b.subrange(16, 20)),
            },
        )
    }
}

/// A header's well-formedness: its family byte decodes back to it.
pub open spec fn spec_tc_header_wf(h: TcHeader) -> bool {
    spec_af_wf(h.family)
}

/// Decoding inverts encoding for tc headers; decoding a 20-byte prefix whose
/// reserved bytes are zero and re-encoding reproduces that prefix.
pub proof fn lemma_tc_header_roundtrip(h: TcHeader, b: Seq<u8>)
    ensures
        spec_tc_header_bytes(h).len() == 20,
        spec_tc_header_wf(h) ==> spec_tc_header_parse(spec_tc_header_bytes(h)) == Ok::<
            TcHeader,
            DecodeError,
        >(h),
        spec_tc_header_parse(b) matches Ok(t) ==> {
            &&& spec_tc_header_wf(t)
            &&& (b.len() >= 20 && b[1] == 0 && b[2] == 0 && b[3] == 0 ==> spec_tc_header_bytes(t)
                == b.subrange(0, 20))
        },
{
    lemma_auto_spec_u32_to_from_le_bytes();
    lemma_tc_handle_bits_inverse();
    lemma_i32_u32_inverse();
    lemma_af_inverse();
    let hb = spec_tc_header_bytes(h);
    assert(hb.len() == 20);
    if spec_tc_header_wf(h) {
        assert(hb.subrange(4, 8) =~= spec_u32_to_le_bytes(spec_u32_of_i32(h.index)));
        assert(hb.subrange(8, 12) =~= spec_u32_to_le_bytes(spec_tc_handle_bits(h.handle)));
        assert(hb.subrange(12, 16) =~= spec_u32_to_le_bytes(spec_tc_handle_bits(h.parent)));
        assert(hb.subrange(16, 20) =~= spec_u32_to_le_bytes(h.info));
    }
    if spec_tc_header_parse(b) is Ok {
        let t = spec_tc_header_parse(b)->Ok_0;
        if b.len() >= 20 && b[1] == 0 && b[2] == 0 && b[3] == 0 {
            assert(spec_tc_header_bytes(t) =~= b.subrange(0, 20));
        }
    }
}

/// Decodes the fixed header from the front of a buffer.
pub fn parse_tc_header(buf: &[u8]) -> (r: Result<TcHeader, DecodeError>)
    ensures
        r == spec_tc_header_parse(buf@),
{
    let n = buf.len();
    if n < 20 {
        return Err(DecodeError::TooShort { expected: 20, available: n });
    }
    let family = af_of_byte(buf[0]);
    let index = i32_of_u32(u32_from_le_bytes(slice_subrange(buf, 4, 8)));
    let handle = TcHandle::from_bits(u32_from_le_bytes(slice_subrange(buf, 8, 12)));
    let parent = TcHandle::from_bits(u32_from_le_bytes(slice_subrange(buf, 12, 16)));
    let info = u32_from_le_bytes(slice_subrange(buf, 16, 20));
    Ok(TcHeader { family, index, handle, parent, info })
}

/// Appends the fixed header's 20 bytes, reserved bytes zero.
pub fn emit_tc_header(h: &TcHeader, out: &mut Vec<u8>)
    ensures
        final(out)@ == old(out)@ + spec_tc_header_bytes(*h),
{
    out.push(af_byte(&h.family));
    out.push(0);
    out.push(0);
    out.push(0);
    push_u32_le(out, u32_of_i32(h.index));
    push_u32_le(out, h.handle.bits());
    push_u32_le(out, h.parent.bits());
    push_u32_le(out, h.info);
    assert(out@ =~= old(out)@ + spec_tc_header_bytes(*h));
}

/// The type code of a tc message's kind attribute.
pub const TCA_KIND: u16 = 1;

/// The type code of a tc message's options attribute.
pub const TCA_OPTIONS: u16 = 2;

/// The type code of a tc message's legacy statistics attribute.
pub const TCA_STATS: u16 = 3;

/// The type code of a tc message's nested statistics attribute.
pub const TCA_STATS2: u16 = 7;

/// The type code of a tc message's hardware-offload attribute.
pub const TCA_HW_OFFLOAD: u16 = 12;

/// One attribute of a tc message.
#[derive(Debug, PartialEq, Eq, Clone)]
pub enum TcAttribute {
    /// The qdisc or filter kind, a null-terminated string on the wire.
    Kind(String),
    /// The kind-specific options, a nested attribute list.
    Options(Vec<TcOption>),
    /// Legacy statistics, one fixed-layout struct.
    Stats(TcStats),
    /// Nested statistics entries.
    Stats2(Vec<TcStats2>),
    /// Whether the object is offloaded to hardware.
    HwOffload(u8),
    /// Any attribute this catalog has no rule for, kept verbatim.
    Other(DefaultNla),
}

/// The model of a [`TcAttribute`].
pub enum TcAttributeModel {
    Kind(Seq<char>),
    Options(Seq<TcOptionModel>),
    Stats(TcStats),
    Stats2(Seq<TcStats2Model>),
    HwOffload(u8),
    Other(DefaultNlaModel),
}

/// Whether the tc attribute catalog has a rule for this type code.
pub open spec fn spec_tc_attr_known(code: u16) -> bool {
    code == TCA_KIND || code == TCA_OPTIONS || code == TCA_STATS || code == TCA_STATS2 || code
        == TCA_HW_OFFLOAD
}

impl Nla for TcAttribute {
    type Model = TcAttributeModel;

    open spec fn model(&self) -> TcAttributeModel {
        match self {
            TcAttribute::Kind(s) => TcAttributeModel::Kind(s@),
            TcAttribute::Options(l) => TcAttributeModel::Options(models_of(l@)),
            TcAttribute::Stats(s) => TcAttributeModel::Stats(*s),
            TcAttribute::Stats2(l) => TcAttributeModel::Stats2(models_of(l@)),
            TcAttribute::HwOffload(x) => TcAttributeModel::HwOffload(*x),
            TcAttribute::Other(n) => TcAttributeModel::Other(n.model()),
        }
    }

    open spec fn m_wf(m: TcAttributeModel) -> bool {
        match m {
            TcAttributeModel::Kind(s) => (forall|j: int|
                0 <= j < encode_utf8(s).len() ==> #[trigger] encode_utf8(s)[j] != 0)
                && spec_strz_bytes(s).len() + 4 <= 0xffff,
            TcAttributeModel::Options(l) => (forall|i: int|
                0 <= i < l.len() ==> TcOption::m_wf(#[trigger] l[i])) && spec_attrs_bytes::<
                TcOption,
            >(l).len() + 4 <= 0xffff,
            TcAttributeModel::Stats(_) => true,
            TcAttributeModel::Stats2(l) => (forall|i: int|
                0 <= i < l.len() ==> TcStats2::m_wf(#[trigger] l[i])) && spec_attrs_bytes::<
                TcStats2,
            >(l).len() + 4 <= 0xffff,
            TcAttributeModel::HwOffload(_) => true,
            TcAttributeModel::Other(n) => DefaultNla::m_wf(n) && !spec_tc_attr_known(n.code),
        }
    }

    open spec fn m_code(m: TcAttributeModel) -> u16 {
        match m {
            TcAttributeModel::Kind(_) => TCA_KIND,
            TcAttributeModel::Options(_) => TCA_OPTIONS,
            TcAttributeModel::Stats(_) => TCA_STATS,
            TcAttributeModel::Stats2(_) => TCA_STATS2,
            TcAttributeModel::HwOffload(_) => TCA_HW_OFFLOAD,
            TcAttributeModel::Other(n) => n.code,
        }
    }

    open spec fn m_value(m: TcAttributeModel) -> Seq<u8> {
        match m {
            TcAttributeModel::Kind(s) => spec_strz_bytes(s),
            TcAttributeModel::Options(l) => spec_attrs_bytes::<TcOption>(l),
            TcAttributeModel::Stats(s) => spec_tc_stats_bytes(s),
            TcAttributeModel::Stats2(l) => spec_attrs_bytes::<TcStats2>(l),
            TcAttributeModel::HwOffload(x) => seq![x],
            TcAttributeModel::Other(n) => n.value,
        }
    }

    proof fn lemma_wf_len(m: TcAttributeModel) {
        lemma_auto_spec_u32_to_from_le_bytes();
        match m {
            TcAttributeModel::Stats(s) => {
                lemma_tc_stats_roundtrip(s, Seq::empty(), TCA_STATS);
                assert(spec_tc_stats_bytes(s).len() == 40);
            },
            _ => {},
        }
    }

    fn kind(&self) -> u16 {
        match self {
            TcAttribute::Kind(_) => TCA_KIND,
            TcAttribute::Options(_) => TCA_OPTIONS,
            TcAttribute::Stats(_) => TCA_STATS,
            TcAttribute::Stats2(_) => TCA_STATS2,
            TcAttribute::HwOffload(_) => TCA_HW_OFFLOAD,
            TcAttribute::Other(n) => n.kind(),
        }
    }

    fn value_len(&self) -> usize {
        match self {
            TcAttribute::Kind(s) => strz_len(s.as_str()),
            TcAttribute::Options(l) => {
                proof {
                    assert forall|i: int| 0 <= i < l@.len() implies TcOption::m_wf(
                        (#[trigger] l@[i]).model(),
                    ) by {
                        assert(models_of(l@)[i] == l@[i].model());
                    }
                }
                attrs_buffer_len(l)
            },
            TcAttribute::Stats(_) => {
                proof {
                    let s = self.model()->Stats_0;
                    lemma_tc_stats_roundtrip(s, Seq::empty(), TCA_STATS);
                }
                40
            },
            TcAttribute::Stats2(l) => {
                proof {
                    assert forall|i: int| 0 <= i < l@.len() implies TcStats2::m_wf(
                        (#[trigger] l@[i]).model(),
                    ) by {
                        assert(models_of(l@)[i] == l@[i].model());
                    }
                }
                attrs_buffer_len(l)
            },
            TcAttribute::HwOffload(_) => 1,
            TcAttribute::Other(n) => n.value_len(),
        }
    }

    fn emit_value(&self, out: &mut Vec<u8>) {
        match self {
            TcAttribute::Kind(s) => push_strz(s.as_str(), out),
            TcAttribute::Options(l) => {
                proof {
                    assert forall|i: int| 0 <= i < l@.len() implies TcOption::m_wf(
                        (#[trigger] l@[i]).model(),
                    ) by {
                        assert(models_of(l@)[i] == l@[i].model());
                    }
                }
                emit_attrs(l, out);
            },
            TcAttribute::Stats(s) => emit_tc_stats(s, out),
            TcAttribute::Stats2(l) => {
                proof {
                    assert forall|i: int| 0 <= i < l@.len() implies TcStats2::m_wf(
                        (#[trigger] l@[i]).model(),
                    ) by {
                        assert(models_of(l@)[i] == l@[i].model());
                    }
                }
                emit_attrs(l, out);
            },
            TcAttribute::HwOffload(x) => {
                out.push(*x);
                assert(out@ =~= old(out)@ + seq![*x]);
            },
            TcAttribute::Other(n) => n.emit_value(out),
        }
    }
}

impl NlaDecode<TcOptionScope> for TcAttribute {
    open spec fn m_in_scope(m: TcAttributeModel, ctx: TcOptionScope) -> bool {
        match m {
            TcAttributeModel::Options(l) => forall|i: int|
                0 <= i < l.len() ==> TcOption::m_in_scope(#[trigger] l[i], ctx),
            _ => true,
        }
    }

    open spec fn m_resolve(ctx: TcOptionScope, code: u16, value: Seq<u8>) -> Result<
        TcAttributeModel,
        DecodeError,
    > {
        if code == TCA_KIND {
            if spec_strz_ok(value) {
                Ok(TcAttributeModel::Kind(spec_strz_chars(value)))
            } else {
                Err(DecodeError::InvalidField { code })
            }
        } else if code == TCA_OPTIONS {
            if value.len() % 4 != 0 {
                Err(DecodeError::InvalidField { code })
            } else {
                match spec_parse_attrs::<TcOptionScope, TcOption>(ctx, value) {
                    Ok(l) => Ok(TcAttributeModel::Options(l)),
                    Err(e) => Err(e),
                }
            }
        } else if code == TCA_STATS {
            match spec_tc_stats_parse(value, code) {
                Ok(s) => Ok(TcAttributeModel::Stats(s)),
                Err(e) => Err(e),
            }
        } else if code == TCA_STATS2 {
            if value.len() % 4 != 0 {
                Err(DecodeError::InvalidField { code })
            } else {
                match spec_parse_attrs::<(), TcStats2>((), value) {
                    Ok(l) => Ok(TcAttributeModel::Stats2(l)),
                    Err(e) => Err(e),
                }
            }
        } else if code == TCA_HW_OFFLOAD {
            if value.len() == 1 {
                Ok(TcAttributeModel::HwOffload(value[0]))
            } else {
                Err(DecodeError::InvalidField { code })
            }
        } else {
            Ok(TcAttributeModel::Other(DefaultNlaModel { code, value }))
        }
    }

    open spec fn v_canon(ctx: TcOptionScope, code: u16, value: Seq<u8>) -> bool {
        if code == TCA_OPTIONS {
            spec_canonical_attrs::<TcOptionScope, TcOption>(ctx, value)
        } else if code == TCA_STATS2 {
            spec_canonical_attrs::<(), TcStats2>((), value)
        } else {
            true
        }
    }

    proof fn lemma_resolve_project(ctx: TcOptionScope, code: u16, value: Seq<u8>) {
        if code == TCA_KIND {
            if spec_strz_ok(value) {
                lemma_strz_project(value);
            }
        } else if code == TCA_OPTIONS {
            if value.len() % 4 == 0 && spec_parse_attrs::<TcOptionScope, TcOption>(ctx, value)
                is Ok {
                lemma_parse_attrs_wf::<TcOptionScope, TcOption>(ctx, value);
                lemma_parse_attrs_len::<TcOptionScope, TcOption>(ctx, value);
                if spec_canonical_attrs::<TcOptionScope, TcOption>(ctx, value) {
                    lemma_attrs_canonical::<TcOptionScope, TcOption>(ctx, value);
                }
            }
        } else if code == TCA_STATS {
            lemma_tc_stats_roundtrip(
                TcStats {
                    bytes: 0,
                    packets: 0,
                    drops: 0,
                    overlimits: 0,
                    bps: 0,
                    pps: 0,
                    qlen: 0,
                    backlog: 0,
                },
                value,
                code,
            );
        } else if code == TCA_STATS2 {
            if value.len() % 4 == 0 && spec_parse_attrs::<(), TcStats2>((), value) is Ok {
                lemma_parse_attrs_wf::<(), TcStats2>((), value);
                lemma_parse_attrs_len::<(), TcStats2>((), value);
                if spec_canonical_attrs::<(), TcStats2>((), value) {
                    lemma_attrs_canonical::<(), TcStats2>((), value);
                }
            }
        } else if code == TCA_HW_OFFLOAD {
            if value.len() == 1 {
                assert(seq![value[0]] =~= value);
            }
        }
    }

    proof fn lemma_project_resolve(m: TcAttributeModel, ctx: TcOptionScope) {
        match m {
            TcAttributeModel::Kind(s) => {
                lemma_strz_roundtrip(s);
            },
            TcAttributeModel::Options(l) => {
                lemma_attrs_bytes_aligned::<TcOption>(l);
                lemma_attrs_roundtrip::<TcOptionScope, TcOption>(ctx, l);
            },
            TcAttributeModel::Stats(s) => {
                lemma_tc_stats_roundtrip(s, Seq::empty(), TCA_STATS);
            },
            TcAttributeModel::Stats2(l) => {
                lemma_attrs_bytes_aligned::<TcStats2>(l);
                lemma_attrs_roundtrip::<(), TcStats2>((), l);
            },
            TcAttributeModel::HwOffload(_) => {},
            TcAttributeModel::Other(_) => {},
        }
    }

    fn parse(ctx: &TcOptionScope, code: u16, value: &[u8]) -> Result<TcAttribute, DecodeError> {
        if code == TCA_KIND {
            match read_strz(value) {
                Some(s) => Ok(TcAttribute::Kind(s)),
                None => Err(DecodeError::InvalidField { code }),
            }
        } else if code == TCA_OPTIONS {
            if value.len() % 4 != 0 {
                Err(DecodeError::InvalidField { code })
            } else {
                match parse_attrs::<TcOptionScope, TcOption>(ctx, value) {
                    Ok(l) => Ok(TcAttribute::Options(l)),
                    Err(e) => Err(e),
                }
            }
        } else if code == TCA_STATS {
            match parse_tc_stats(value, code) {
                Ok(s) => Ok(TcAttribute::Stats(s)),
                Err(e) => Err(e),
            }
        } else if code == TCA_STATS2 {
            if value.len() % 4 != 0 {
                Err(DecodeError::InvalidField { code })
            } else {
                match parse_attrs::<(), TcStats2>(&(), value) {
                    Ok(l) => Ok(TcAttribute::Stats2(l)),
                    Err(e) => Err(e),
                }
            }
        } else if code == TCA_HW_OFFLOAD {
            match read_u8(value) {
                Some(x) => Ok(TcAttribute::HwOffload(x)),
                None => Err(DecodeError::InvalidField { code }),
            }
        } else {
            match <DefaultNla as NlaDecode<()>>::parse(&(), code, value) {
                Ok(n) => Ok(TcAttribute::Other(n)),
                Err(e) => Err(e),
            }
        }
    }
}

/// Fallback totality for the tc attribute catalog: a code without a rule
/// resolves to the verbatim fallback under every scope, and projects back to
/// the same code and value bytes unchanged.
pub proof fn lemma_tc_attr_fallback_totality(ctx: TcOptionScope, code: u16, value: Seq<u8>)
    requires
        !spec_tc_attr_known(code),
    ensures
        TcAttribute::m_resolve(ctx, code, value) == Ok::<TcAttributeModel, DecodeError>(
            TcAttributeModel::Other(DefaultNlaModel { code, value }),
        ),
        TcAttribute::m_code(TcAttribute::m_resolve(ctx, code, value)->Ok_0) == code,
        TcAttribute::m_value(TcAttribute::m_resolve(ctx, code, value)->Ok_0) == value,
{
}

/// How one record changes the scope for the records after it: a kind record
/// with a well-formed string selects that kind's option catalog.
pub open spec fn spec_tc_scope_step_rec(scope: TcOptionScope, code: u16, value: Seq<u8>)
    -> TcOptionScope {
    if code == TCA_KIND && spec_strz_ok(value) {
        spec_scope_of_chars(spec_strz_chars(value))
    } else {
        scope
    }
}

/// How one decoded attribute changes the scope for the attributes after it.
pub open spec fn spec_tc_scope_step(scope: TcOptionScope, m: TcAttributeModel) -> TcOptionScope {
    match m {
        TcAttributeModel::Kind(s) => spec_scope_of_chars(s),
        _ => scope,
    }
}

/// What walking a tc message's attribute stream yields. The walk is the
/// stream walk of [`spec_parse_attrs`], with the scope threaded from record
/// to record as [`spec_tc_scope_step_rec`] says.
pub open spec fn spec_parse_tc_attrs(scope: TcOptionScope, b: Seq<u8>) -> Result<
    Seq<TcAttributeModel>,
    DecodeError,
>
    decreases b.len(),
{
    if b.len() == 0 {
        Ok(Seq::empty())
    } else if b.len() < 4 {
        Err(DecodeError::TooShort { expected: 4, available: b.len() as usize })
    } else {
        let stored = vstd::bytes::spec_u16_from_le_bytes(b.subrange(0, 2)) as int;
        let code = vstd::bytes::spec_u16_from_le_bytes(b.subrange(2, 4));
        if stored < 4 {
            Err(DecodeError::InvalidField { code })
        } else if stored > b.len() {
            Err(DecodeError::TooShort { expected: stored as usize, available: b.len() as usize })
        } else {
            let next = if spec_align4(stored) <= b.len() {
                spec_align4(stored)
            } else {
                b.len() as int
            };
            let value = b.subrange(4, stored);
            match TcAttribute::m_resolve(scope, code, value) {
                Ok(m) => match spec_parse_tc_attrs(
                    spec_tc_scope_step_rec(scope, code, value),
                    b.subrange(next, b.len() as int),
                ) {
                    Ok(rest) => Ok(seq![m] + rest),
                    Err(e) => Err(e),
                },
                Err(e) => Err(e),
            }
        }
    }
}

/// A tc attribute list is well-formed when each attribute is well-formed and
/// in the scope that the attributes before it select.
pub open spec fn spec_tc_attrs_wf(scope: TcOptionScope, ms: Seq<TcAttributeModel>) -> bool
    decreases ms.len(),
{
    ms.len() == 0 || {
        &&& TcAttribute::m_wf(ms[0])
        &&& TcAttribute::m_in_scope(ms[0], scope)
        &&& spec_tc_attrs_wf(spec_tc_scope_step(scope, ms[0]), ms.subrange(1, ms.len() as int))
    }
}

/// Each attribute of a well-formed tc attribute list is well-formed.
pub proof fn lemma_tc_attrs_wf_each(scope: TcOptionScope, ms: Seq<TcAttributeModel>)
    requires
        spec_tc_attrs_wf(scope, ms),
    ensures
        forall|i: int| 0 <= i < ms.len() ==> TcAttribute::m_wf(#[trigger] ms[i]),
    decreases ms.len(),
{
    if ms.len() > 0 {
        lemma_tc_attrs_wf_each(
            spec_tc_scope_step(scope, ms[0]),
            ms.subrange(1, ms.len() as int),
        );
        assert forall|i: int| 0 <= i < ms.len() implies TcAttribute::m_wf(#[trigger] ms[i]) by {
            if i > 0 {
                assert(ms[i] == ms.subrange(1, ms.len() as int)[i - 1]);
            }
        }
    }
}

/// A resolved record steps the scope exactly as its decoded attribute does.
proof fn lemma_tc_scope_step_agree(scope: TcOptionScope, m: TcAttributeModel)
    requires
        TcAttribute::m_wf(m),
    ensures
        spec_tc_scope_step_rec(scope, TcAttribute::m_code(m), TcAttribute::m_value(m))
            == spec_tc_scope_step(scope, m),
{
    match m {
        TcAttributeModel::Kind(s) => {
            lemma_strz_roundtrip(s);
        },
        _ => {},
    }
}

/// The round-trip law for tc attribute streams, decode after encode.
pub proof fn lemma_tc_attrs_roundtrip(scope: TcOptionScope, ms: Seq<TcAttributeModel>)
    requires
        spec_tc_attrs_wf(scope, ms),
    ensures
        spec_parse_tc_attrs(scope, spec_attrs_bytes::<TcAttribute>(ms)) == Ok::<
            Seq<TcAttributeModel>,
            DecodeError,
        >(ms),
    decreases ms.len(),
{
    vstd::bytes::lemma_auto_spec_u16_to_from_le_bytes();
    if ms.len() == 0 {
        assert(ms =~= Seq::<TcAttributeModel>::empty());
        assert(spec_attrs_bytes::<TcAttribute>(ms) == Seq::<u8>::empty());
    } else {
        let m = ms[0];
        TcAttribute::lemma_wf_len(m);
        let val = TcAttribute::m_value(m);
        let stored = val.len() + 4;
        let rec = spec_attr_bytes::<TcAttribute>(m);
        let tail = ms.subrange(1, ms.len() as int);
        let rest = spec_attrs_bytes::<TcAttribute>(tail);
        let b = spec_attrs_bytes::<TcAttribute>(ms);
        assert(b == rec + rest);
        lemma_record_bytes_facts(TcAttribute::m_code(m), val);
        lemma_align4_smallest(stored as int);
        assert(rec.len() == spec_align4(stored as int));
        assert(b.len() >= 4);
        assert(b.subrange(0, 2) =~= rec.subrange(0, 2));
        assert(b.subrange(2, 4) =~= rec.subrange(2, 4));
        assert(vstd::bytes::spec_u16_from_le_bytes(b.subrange(0, 2)) == stored as u16);
        assert(vstd::bytes::spec_u16_from_le_bytes(b.subrange(2, 4)) == TcAttribute::m_code(m));
        assert(stored <= rec.len() <= b.len());
        assert(b.subrange(4, stored as int) =~= rec.subrange(4, stored as int));
        assert(b.subrange(4, stored as int) == val);
        TcAttribute::lemma_project_resolve(m, scope);
        lemma_tc_scope_step_agree(scope, m);
        let next = spec_align4(stored as int);
        assert(b.subrange(next, b.len() as int) =~= rest);
        lemma_tc_attrs_roundtrip(spec_tc_scope_step(scope, m), tail);
        let stored_rd = vstd::bytes::spec_u16_from_le_bytes(b.subrange(0, 2)) as int;
        assert(stored_rd == stored);
        assert(spec_parse_tc_attrs(scope, b) == Ok::<Seq<TcAttributeModel>, DecodeError>(
            seq![m] + tail,
        ));
        assert(seq![m] + tail =~= ms);
    }
}

/// A canonical tc attribute stream: full zero padding, and each record's
/// value canonical for the rule its code selects in the scope where it
/// stands.
pub open spec fn spec_canonical_tc_attrs(scope: TcOptionScope, b: Seq<u8>) -> bool
    decreases b.len(),
{
    if b.len() == 0 {
        true
    } else if b.len() < 4 {
        false
    } else {
        let stored = vstd::bytes::spec_u16_from_le_bytes(b.subrange(0, 2)) as int;
        let code = vstd::bytes::spec_u16_from_le_bytes(b.subrange(2, 4));
        let value = b.subrange(4, stored);
        &&& 4 <= stored
        &&& spec_align4(stored) <= b.len()
        &&& (forall|j: int| stored <= j < spec_align4(stored) ==> #[trigger] b[j] == 0)
        &&& TcAttribute::v_canon(scope, code, value)
        &&& spec_canonical_tc_attrs(
            spec_tc_scope_step_rec(scope, code, value),
            b.subrange(spec_align4(stored), b.len() as int),
        )
    }
}

/// The walk of a successful tc attribute stream yields a well-formed list.
pub proof fn lemma_parse_tc_attrs_wf(scope: TcOptionScope, b: Seq<u8>)
    requires
        spec_parse_tc_attrs(scope, b) is Ok,
    ensures
        spec_tc_attrs_wf(scope, spec_parse_tc_attrs(scope, b)->Ok_0),
    decreases b.len(),
{
    if b.len() >= 4 {
        let stored = vstd::bytes::spec_u16_from_le_bytes(b.subrange(0, 2)) as int;
        if 4 <= stored <= b.len() {
            let code = vstd::bytes::spec_u16_from_le_bytes(b.subrange(2, 4));
            let value = b.subrange(4, stored);
            let next = if spec_align4(stored) <= b.len() {
                spec_align4(stored)
            } else {
                b.len() as int
            };
            TcAttribute::lemma_resolve_project(scope, code, value);
            if TcAttribute::m_resolve(scope, code, value) is Ok {
                let m = TcAttribute::m_resolve(scope, code, value)->Ok_0;
                let scope2 = spec_tc_scope_step_rec(scope, code, value);
                lemma_parse_tc_attrs_wf(scope2, b.subrange(next, b.len() as int));
                if spec_parse_tc_attrs(scope2, b.subrange(next, b.len() as int)) is Ok {
                    let rest = spec_parse_tc_attrs(scope2, b.subrange(next, b.len() as int))->Ok_0;
                    lemma_tc_scope_step_agree(scope, m);
                    assert((seq![m] + rest).subrange(1, (seq![m] + rest).len() as int) =~= rest);
                    assert((seq![m] + rest)[0] == m);
                }
            }
        }
    }
}

/// The round-trip law for tc attribute streams, encode after decode: a
/// canonical stream is reproduced byte for byte.
pub proof fn lemma_tc_attrs_canonical(scope: TcOptionScope, b: Seq<u8>)
    requires
        spec_canonical_tc_attrs(scope, b),
        spec_parse_tc_attrs(scope, b) is Ok,
    ensures
        spec_attrs_bytes::<TcAttribute>(spec_parse_tc_attrs(scope, b)->Ok_0) == b,
    decreases b.len(),
{
    vstd::bytes::lemma_auto_spec_u16_to_from_le_bytes();
    if b.len() == 0 {
        assert(spec_attrs_bytes::<TcAttribute>(spec_parse_tc_attrs(scope, b)->Ok_0) =~= b);
    } else {
        let stored = vstd::bytes::spec_u16_from_le_bytes(b.subrange(0, 2)) as int;
        let code = vstd::bytes::spec_u16_from_le_bytes(b.subrange(2, 4));
        let val = b.subrange(4, stored);
        let next = spec_align4(stored);
        lemma_align4_smallest(stored);
        let scope2 = spec_tc_scope_step_rec(scope, code, val);
        let suffix = b.subrange(next, b.len() as int);
        let m = TcAttribute::m_resolve(scope, code, val)->Ok_0;
        TcAttribute::lemma_resolve_project(scope, code, val);
        assert(TcAttribute::m_code(m) == code && TcAttribute::m_value(m) == val
            && TcAttribute::m_wf(m));
        lemma_tc_attrs_canonical(scope2, suffix);
        let rest = spec_parse_tc_attrs(scope2, suffix)->Ok_0;
        let ms = spec_parse_tc_attrs(scope, b)->Ok_0;
        assert(ms == seq![m] + rest);
        lemma_record_bytes_facts(code, val);
        assert(spec_attr_bytes::<TcAttribute>(m).len() == next);
        assert(spec_attr_bytes::<TcAttribute>(m) =~= b.subrange(0, next)) by {
            let rec = spec_attr_bytes::<TcAttribute>(m);
            assert(rec.subrange(0, 2) == vstd::bytes::spec_u16_to_le_bytes(stored as u16));
            assert(b.subrange(0, 2) == vstd::bytes::spec_u16_to_le_bytes(stored as u16));
            assert forall|j: int| 0 <= j < next implies rec[j] == b[j] by {
                if j < 2 {
                    assert(rec[j] == rec.subrange(0, 2)[j]);
                    assert(b[j] == b.subrange(0, 2)[j]);
                } else if j < 4 {
                    assert(rec[j] == rec.subrange(2, 4)[j - 2]);
                    assert(b[j] == b.subrange(2, 4)[j - 2]);
                } else if j < stored {
                    assert(rec[j] == rec.subrange(4, stored)[j - 4]);
                    assert(b[j] == b.subrange(4, stored)[j - 4]);
                } else {
                    assert(rec[j] == 0);
                    assert(b[j] == 0);
                }
            }
        }
        assert((seq![m] + rest).subrange(1, (seq![m] + rest).len() as int) =~= rest);
        assert(spec_attrs_bytes::<TcAttribute>(ms) == spec_attr_bytes::<TcAttribute>(m)
            + spec_attrs_bytes::<TcAttribute>(rest));
        assert(spec_attr_bytes::<TcAttribute>(m) + spec_attrs_bytes::<TcAttribute>(rest) =~= b);
    }
}

/// Walks a tc message's attribute stream, threading the scope, exactly as
/// [`spec_parse_tc_attrs`] says.
pub fn parse_tc_attrs(buf: &[u8]) -> (r: Result<Vec<TcAttribute>, DecodeError>)
    ensures
        match r {
            Ok(v) => spec_parse_tc_attrs(TcOptionScope::Unknown, buf@) == Ok::<
                Seq<TcAttributeModel>,
                DecodeError,
            >(models_of(v@)),
            Err(e) => spec_parse_tc_attrs(TcOptionScope::Unknown, buf@) == Err::<
                Seq<TcAttributeModel>,
                DecodeError,
            >(e),
        },
{
    let len = buf.len();
    let mut out: Vec<TcAttribute> = Vec::new();
    let mut i: usize = 0;
    let mut scope = TcOptionScope::Unknown;
    proof {
        assert(buf@.subrange(0, len as int) =~= buf@);
        assert forall|s: Seq<TcAttributeModel>|
            spec_parse_tc_attrs(scope, buf@.subrange(0, len as int)) == Ok::<
                Seq<TcAttributeModel>,
                DecodeError,
            >(s) implies spec_parse_tc_attrs(TcOptionScope::Unknown, buf@) == Ok::<
            Seq<TcAttributeModel>,
            DecodeError,
        >(models_of(out@) + s) by {
            assert(models_of(out@) + s =~= s);
        }
    }
    while i < len
        invariant
            i <= len,
            len == buf@.len(),
            forall|s: Seq<TcAttributeModel>|
                spec_parse_tc_attrs(scope, buf@.subrange(i as int, len as int)) == Ok::<
                    Seq<TcAttributeModel>,
                    DecodeError,
                >(s) ==> spec_parse_tc_attrs(TcOptionScope::Unknown, buf@) == Ok::<
                    Seq<TcAttributeModel>,
                    DecodeError,
                >(models_of(out@) + s),
            forall|e: DecodeError|
                spec_parse_tc_attrs(scope, buf@.subrange(i as int, len as int)) == Err::<
                    Seq<TcAttributeModel>,
                    DecodeError,
                >(e) ==> spec_parse_tc_attrs(TcOptionScope::Unknown, buf@) == Err::<
                    Seq<TcAttributeModel>,
                    DecodeError,
                >(e),
        decreases len - i,
    {
        let ghost suffix = buf@.subrange(i as int, len as int);
        let rem = len - i;
        if rem < 4 {
            return Err(DecodeError::TooShort { expected: 4, available: rem });
        }
        let stored = vstd::bytes::u16_from_le_bytes(slice_subrange(buf, i, i + 2)) as usize;
        let code = vstd::bytes::u16_from_le_bytes(slice_subrange(buf, i + 2, i + 4));
        proof {
            assert(buf@.subrange(i as int, i + 2) =~= suffix.subrange(0, 2));
            assert(buf@.subrange(i + 2, i + 4) =~= suffix.subrange(2, 4));
        }
        if stored < 4 {
            return Err(DecodeError::InvalidField { code });
        }
        if stored > rem {
            return Err(DecodeError::TooShort { expected: stored, available: rem });
        }
        let value = slice_subrange(buf, i + 4, i + stored);
        proof {
            assert(buf@.subrange(i + 4, i + stored) =~= suffix.subrange(4, stored as int));
        }
        match TcAttribute::parse(&scope, code, value) {
            Err(e) => {
                return Err(e);
            },
            Ok(a) => {
                let ghost old_scope = scope;
                if code == TCA_KIND {
                    if let TcAttribute::Kind(s) = &a {
                        scope = scope_of_kind(s);
                    }
                }
                proof {
                    assert(scope == spec_tc_scope_step_rec(
                        old_scope,
                        code,
                        suffix.subrange(4, stored as int),
                    ));
                }
                let aligned = align4(stored);
                let step = if aligned < rem {
                    aligned
                } else {
                    rem
                };
                proof {
                    let ghost next = i + step;
                    assert(buf@.subrange(next as int, len as int) =~= suffix.subrange(
                        step as int,
                        suffix.len() as int,
                    ));
                    assert forall|s: Seq<TcAttributeModel>|
                        spec_parse_tc_attrs(scope, buf@.subrange(next as int, len as int)) == Ok::<
                            Seq<TcAttributeModel>,
                            DecodeError,
                        >(s) implies spec_parse_tc_attrs(TcOptionScope::Unknown, buf@) == Ok::<
                        Seq<TcAttributeModel>,
                        DecodeError,
                    >(models_of(out@.push(a)) + s) by {
                        assert(spec_parse_tc_attrs(old_scope, suffix) == Ok::<
                            Seq<TcAttributeModel>,
                            DecodeError,
                        >(seq![a.model()] + s));
                        assert(models_of(out@) + (seq![a.model()] + s) =~= models_of(out@.push(a))
                            + s);
                    }
                    assert forall|e: DecodeError|
                        spec_parse_tc_attrs(scope, buf@.subrange(next as int, len as int)) == Err::<
                            Seq<TcAttributeModel>,
                            DecodeError,
                        >(e) implies spec_parse_tc_attrs(TcOptionScope::Unknown, buf@) == Err::<
                        Seq<TcAttributeModel>,
                        DecodeError,
                    >(e) by {
                        assert(spec_parse_tc_attrs(old_scope, suffix) == Err::<
                            Seq<TcAttributeModel>,
                            DecodeError,
                        >(e));
                    }
                }
                out.push(a);
                i = i + step;
            },
        }
    }
    proof {
        assert(buf@.subrange(len as int, len as int) =~= Seq::<u8>::empty());
        assert(spec_parse_tc_attrs(scope, buf@.subrange(len as int, len as int)) == Ok::<
            Seq<TcAttributeModel>,
            DecodeError,
        >(Seq::<TcAttributeModel>::empty()));
        assert(models_of(out@) + Seq::<TcAttributeModel>::empty() =~= models_of(out@));
    }
    Ok(out)
}

/// A tc message: its fixed header and its attributes, order and repetition
/// preserved exactly as decoded or constructed.
#[derive(Debug, PartialEq, Eq, Clone)]
pub struct TcMessage {
    pub header: TcHeader,
    pub attributes: Vec<TcAttribute>,
}

/// The model of a [`TcMessage`].
pub struct TcMessageModel {
    pub header: TcHeader,
    pub attributes: Seq<TcAttributeModel>,
}

/// The bytes a tc message model encodes to: header, then the records in
/// attribute order.
pub open spec fn spec_tc_msg_bytes(m: TcMessageModel) -> Seq<u8> {
    spec_tc_header_bytes(m.header) + spec_attrs_bytes::<TcAttribute>(m.attributes)
}

/// A well-formed tc message model: header and attribute list well-formed,
/// and the whole message within the 32-bit length a netlink frame can carry.
pub open spec fn spec_tc_msg_wf(m: TcMessageModel) -> bool {
    &&& spec_tc_header_wf(m.header)
    &&& spec_tc_attrs_wf(TcOptionScope::Unknown, m.attributes)
    &&& spec_tc_msg_bytes(m).len() <= 0xffff_ffff
}

/// What decoding a tc message yields: the header from the first 20 bytes,
/// then the attribute walk over the rest.
pub open spec fn spec_tc_msg_parse(b: Seq<u8>) -> Result<TcMessageModel, DecodeError> {
    match spec_tc_header_parse(b) {
        Ok(h) => match spec_parse_tc_attrs(
            TcOptionScope::Unknown,
            b.subrange(20, b.len() as int),
        ) {
            Ok(ms) => Ok(TcMessageModel { header: h, attributes: ms }),
            Err(e) => Err(e),
        },
        Err(e) => Err(e),
    }
}

/// A canonical tc message buffer: reserved header bytes zero, a canonical
/// attribute stream after the header, and within a netlink frame's length.
pub open spec fn spec_tc_msg_canonical(b: Seq<u8>) -> bool {
    &&& b.len() >= 20
    &&& b.len() <= 0xffff_ffff
    &&& b[1] == 0 && b[2] == 0 && b[3] == 0
    &&& spec_canonical_tc_attrs(TcOptionScope::Unknown, b.subrange(20, b.len() as int))
}

/// The round-trip law for tc messages, decode after encode: decoding the
/// encoding of any well-formed message yields that message back.
pub proof fn lemma_tc_msg_roundtrip(m: TcMessageModel)
    requires
        spec_tc_msg_wf(m),
    ensures
        spec_tc_msg_parse(spec_tc_msg_bytes(m)) == Ok::<TcMessageModel, DecodeError>(m),
{
    let b = spec_tc_msg_bytes(m);
    let hb = spec_tc_header_bytes(m.header);
    let ab = spec_attrs_bytes::<TcAttribute>(m.attributes);
    lemma_tc_header_roundtrip(m.header, b);
    assert(b.subrange(0, 20) =~= hb);
    assert(b.subrange(0, 20).subrange(4, 8) =~= b.subrange(4, 8));
    assert(b.subrange(0, 20).subrange(8, 12) =~= b.subrange(8, 12));
    assert(b.subrange(0, 20).subrange(12, 16) =~= b.subrange(12, 16));
    assert(b.subrange(0, 20).subrange(16, 20) =~= b.subrange(16, 20));
    assert(b[0] == hb[0]);
    assert(spec_tc_header_parse(b) == Ok::<TcHeader, DecodeError>(m.header)) by {
        assert(spec_tc_header_parse(hb) == Ok::<TcHeader, DecodeError>(m.header));
        assert(b.subrange(4, 8) =~= hb.subrange(4, 8));
        assert(b.subrange(8, 12) =~= hb.subrange(8, 12));
        assert(b.subrange(12, 16) =~= hb.subrange(12, 16));
        assert(b.subrange(16, 20) =~= hb.subrange(16, 20));
    }
    lemma_tc_attrs_roundtrip(TcOptionScope::Unknown, m.attributes);
    assert(b.subrange(20, b.len() as int) =~= ab);
}

/// The round-trip law for tc messages, encode after decode: re-encoding the
/// message decoded from a canonical buffer reproduces that buffer byte for
/// byte, and the decoded message is well-formed.
pub proof fn lemma_tc_msg_canonical(b: Seq<u8>)
    requires
        spec_tc_msg_canonical(b),
        spec_tc_msg_parse(b) is Ok,
    ensures
        spec_tc_msg_bytes(spec_tc_msg_parse(b)->Ok_0) == b,
        spec_tc_msg_wf(spec_tc_msg_parse(b)->Ok_0),
{
    let m = spec_tc_msg_parse(b)->Ok_0;
    let ab = b.subrange(20, b.len() as int);
    lemma_tc_header_roundtrip(m.header, b);
    lemma_tc_attrs_canonical(TcOptionScope::Unknown, ab);
    lemma_parse_tc_attrs_wf(TcOptionScope::Unknown, ab);
    assert(spec_tc_msg_bytes(m) =~= b);
}

impl TcMessage {
    /// The model of this message.
    pub open spec fn model(&self) -> TcMessageModel {
        TcMessageModel { header: self.header, attributes: models_of(self.attributes@) }
    }

    /// Decodes a tc message from a buffer: the fixed header, then the
    /// attribute stream, exactly as [`spec_tc_msg_parse`] says.
    pub fn parse(buf: &[u8]) -> (r: Result<TcMessage, DecodeError>)
        ensures
            match r {
                Ok(m) => spec_tc_msg_parse(buf@) == Ok::<TcMessageModel, DecodeError>(m.model()),
                Err(e) => spec_tc_msg_parse(buf@) == Err::<TcMessageModel, DecodeError>(e),
            },
    {
        let header = match parse_tc_header(buf) {
            Ok(h) => h,
            Err(e) => {
                return Err(e);
            },
        };
        let rest = slice_subrange(buf, 20, buf.len());
        proof {
            assert(rest@ =~= buf@.subrange(20, buf@.len() as int));
        }
        match parse_tc_attrs(rest) {
            Ok(attributes) => Ok(TcMessage { header, attributes }),
            Err(e) => Err(e),
        }
    }

    /// The number of bytes [`TcMessage::emit`] writes for this message.
    pub fn buffer_len(&self) -> (r: usize)
        requires
            spec_tc_msg_wf(self.model()),
        ensures
            r == spec_tc_msg_bytes(self.model()).len(),
    {
        proof {
            lemma_tc_attrs_wf_each(TcOptionScope::Unknown, models_of(self.attributes@));
            assert forall|i: int| 0 <= i < self.attributes@.len() implies TcAttribute::m_wf(
                (#[trigger] self.attributes@[i]).model(),
            ) by {
                assert(models_of(self.attributes@)[i] == self.attributes@[i].model());
            }
            lemma_tc_header_roundtrip(self.header, Seq::empty());
        }
        20 + attrs_buffer_len(&self.attributes)
    }

    /// Encodes this message: the header's 20 bytes, then each attribute's
    /// record in list order, with zero padding.
    pub fn emit(&self) -> (r: Vec<u8>)
        requires
            spec_tc_msg_wf(self.model()),
        ensures
            r@ == spec_tc_msg_bytes(self.model()),
    {
        proof {
            lemma_tc_attrs_wf_each(TcOptionScope::Unknown, models_of(self.attributes@));
            assert forall|i: int| 0 <= i < self.attributes@.len() implies TcAttribute::m_wf(
                (#[trigger] self.attributes@[i]).model(),
            ) by {
                assert(models_of(self.attributes@)[i] == self.attributes@[i].model());
            }
        }
        let mut out: Vec<u8> = Vec::new();
        emit_tc_header(&self.header, &mut out);
        emit_attrs(&self.attributes, &mut out);
        assert(out@ =~= spec_tc_msg_bytes(self.model()));
        out
    }
}

} // verus!
