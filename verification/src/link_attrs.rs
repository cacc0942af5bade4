//! The attribute catalog of a link message: names, counters, operational
//! state, statistics, the device map, the XDP block, the link-info block and
//! the per-address-family blocks.

use vstd::prelude::*;
use vstd::bytes::{
    spec_u32_from_le_bytes, spec_u32_to_le_bytes, lemma_auto_spec_u32_to_from_le_bytes,
};
use vstd::slice::slice_to_vec;
use vstd::utf8::encode_utf8;
use crate::error::DecodeError;
use crate::fallback::{DefaultNla, DefaultNlaModel};
use crate::link_inet::{AfSpecInet, AfSpecInetModel};
use crate::link_inet6::{AfSpecInet6, AfSpecInet6Model};
use crate::link_info::{
    LinkInfo, LinkInfoModel, LinkInfoScope, spec_link_info_scope_initial, spec_parse_link_info,
    spec_canonical_link_info, spec_link_info_wf, lemma_link_info_roundtrip,
    lemma_link_info_canonical, lemma_parse_link_info_wf, lemma_parse_link_info_len,
    lemma_link_info_wf_each, parse_link_info,
};
use crate::link_stats::{
    Stats, Stats64, DeviceMap, spec_stats_bytes, spec_stats_parse, lemma_stats_roundtrip,
    parse_stats, emit_stats, spec_stats64_bytes, spec_stats64_parse,
    lemma_stats64_roundtrip, parse_stats64, emit_stats64, spec_device_map_bytes,
    spec_device_map_parse, lemma_device_map_roundtrip, parse_device_map, emit_device_map,
};
use crate::nla::{
    Nla, NlaDecode, models_of, spec_attrs_bytes, spec_canonical_attrs, spec_parse_attrs,
    lemma_attrs_bytes_aligned, lemma_attrs_canonical, lemma_attrs_roundtrip,
    lemma_parse_attrs_len, lemma_parse_attrs_wf, attrs_buffer_len, emit_attrs, parse_attrs,
};
use crate::values::{
    spec_strz_bytes, spec_strz_ok, spec_strz_chars, lemma_strz_roundtrip, lemma_strz_project,
    read_strz, push_strz, strz_len, push_u32_le, read_u32_le, read_u8,
};

verus! {

/// The operational state of a link, one byte on the wire.
#[derive(Debug, PartialEq, Eq, Clone, Copy)]
pub enum State {
    Unknown,
    NotPresent,
    Down,
    LowerLayerDown,
    Testing,
    Dormant,
    Up,
    /// Any other state byte, kept verbatim.
    Other(u8),
}

/// The byte an operational state is written as.
pub open spec fn spec_state_byte(s: State) -> u8 {
    match s {
        State::Unknown => 0,
        State::NotPresent => 1,
        State::Down => 2,
        State::LowerLayerDown => 3,
        State::Testing => 4,
        State::Dormant => 5,
        State::Up => 6,
        State::Other(b) => b,
    }
}

/// The operational state a byte decodes to.
pub open spec fn spec_state_of_byte(b: u8) -> State {
    if b == 0 {
        State::Unknown
    } else if b == 1 {
        State::NotPresent
    } else if b == 2 {
        State::Down
    } else if b == 3 {
        State::LowerLayerDown
    } else if b == 4 {
        State::Testing
    } else if b == 5 {
        State::Dormant
    } else if b == 6 {
        State::Up
    } else {
        State::Other(b)
    }
}

/// The fallback arm carries only bytes without a name of their own.
pub open spec fn spec_state_wf(s: State) -> bool {
    match s {
        State::Other(b) => b > 6,
        _ => true,
    }
}

/// The two operational state conversions invert each other.
pub proof fn lemma_state_inverse()
    ensures
        forall|s: State|
            spec_state_wf(s) ==> spec_state_of_byte(#[trigger] spec_state_byte(s)) == s,
        forall|b: u8| spec_state_byte(#[trigger] spec_state_of_byte(b)) == b,
        forall|b: u8| spec_state_wf(#[trigger] spec_state_of_byte(b)),
{
}

/// The byte this operational state is written as.
pub fn state_byte(s: &State) -> (r: u8)
    ensures
        r == spec_state_byte(*s),
{
    match s {
        State::Unknown => 0,
        State::NotPresent => 1,
        State::Down => 2,
        State::LowerLayerDown => 3,
        State::Testing => 4,
        State::Dormant => 5,
        State::Up => 6,
        State::Other(b) => *b,
    }
}

/// The operational state this byte decodes to.
pub fn state_of_byte(b: u8) -> (r: State)
    ensures
        r == spec_state_of_byte(b),
{
    if b == 0 {
        State::Unknown
    } else if b == 1 {
        State::NotPresent
    } else if b == 2 {
        State::Down
    } else if b == 3 {
        State::LowerLayerDown
    } else if b == 4 {
        State::Testing
    } else if b == 5 {
        State::Dormant
    } else if b == 6 {
        State::Up
    } else {
        State::Other(b)
    }
}

/// What an XDP program is attached as, one byte on the wire.
#[derive(Debug, PartialEq, Eq, Clone, Copy)]
pub enum XdpAttached {
    /// No program attached.
    NotAttached,
    Driver,
    SocketBuffer,
    Hardware,
    Multiple,
    /// Any other mode byte, kept verbatim.
    Other(u8),
}

/// The byte an attach mode is written as.
pub open spec fn spec_xdp_attached_byte(s: XdpAttached) -> u8 {
    match s {
        XdpAttached::NotAttached => 0,
        XdpAttached::Driver => 1,
        XdpAttached::SocketBuffer => 2,
        XdpAttached::Hardware => 3,
        XdpAttached::Multiple => 4,
        XdpAttached::Other(b) => b,
    }
}

/// The attach mode a byte decodes to.
pub open spec fn spec_xdp_attached_of_byte(b: u8) -> XdpAttached {
    if b == 0 {
        XdpAttached::NotAttached
    } else if b == 1 {
        XdpAttached::Driver
    } else if b == 2 {
        XdpAttached::SocketBuffer
    } else if b == 3 {
        XdpAttached::Hardware
    } else if b == 4 {
        XdpAttached::Multiple
    } else {
        XdpAttached::Other(b)
    }
}

/// The fallback arm carries only bytes without a name of their own.
pub open spec fn spec_xdp_attached_wf(s: XdpAttached) -> bool {
    match s {
        XdpAttached::Other(b) => b > 4,
        _ => true,
    }
}

/// The two attach mode conversions invert each other.
pub proof fn lemma_xdp_attached_inverse()
    ensures
        forall|s: XdpAttached|
            spec_xdp_attached_wf(s) ==> spec_xdp_attached_of_byte(
                #[trigger] spec_xdp_attached_byte(s),
            ) == s,
        forall|b: u8| spec_xdp_attached_byte(#[trigger] spec_xdp_attached_of_byte(b)) == b,
        forall|b: u8| spec_xdp_attached_wf(#[trigger] spec_xdp_attached_of_byte(b)),
{
}

/// The byte this attach mode is written as.
pub fn xdp_attached_byte(s: &XdpAttached) -> (r: u8)
    ensures
        r == spec_xdp_attached_byte(*s),
{
    match s {
        XdpAttached::NotAttached => 0,
        XdpAttached::Driver => 1,
        XdpAttached::SocketBuffer => 2,
        XdpAttached::Hardware => 3,
        XdpAttached::Multiple => 4,
        XdpAttached::Other(b) => *b,
    }
}

/// The attach mode this byte decodes to.
pub fn xdp_attached_of_byte(b: u8) -> (r: XdpAttached)
    ensures
        r == spec_xdp_attached_of_byte(b),
{
    if b == 0 {
        XdpAttached::NotAttached
    } else if b == 1 {
        XdpAttached::Driver
    } else if b == 2 {
        XdpAttached::SocketBuffer
    } else if b == 3 {
        XdpAttached::Hardware
    } else if b == 4 {
        XdpAttached::Multiple
    } else {
        XdpAttached::Other(b)
    }
}

/// The type code of the attach mode inside an XDP block.
pub const IFLA_XDP_ATTACHED: u16 = 2;

/// One attribute of a link's XDP block.
#[derive(Debug, PartialEq, Eq, Clone)]
pub enum LinkXdp {
    /// What is attached.
    Attached(XdpAttached),
    /// Any XDP attribute this catalog has no rule for, kept verbatim.
    Other(DefaultNla),
}

/// The model of a [`LinkXdp`] attribute.
pub enum LinkXdpModel {
    Attached(XdpAttached),
    Other(DefaultNlaModel),
}

/// Whether the XDP catalog has a rule for this type code.
pub open spec fn spec_link_xdp_known(code: u16) -> bool {
    code == IFLA_XDP_ATTACHED
}

impl Nla for LinkXdp {
    type Model = LinkXdpModel;

    open spec fn model(&self) -> LinkXdpModel {
        match self {
            LinkXdp::Attached(s) => LinkXdpModel::Attached(*s),
            LinkXdp::Other(n) => LinkXdpModel::Other(n.model()),
        }
    }

    open spec fn m_wf(m: LinkXdpModel) -> bool {
        match m {
            LinkXdpModel::Attached(s) => spec_xdp_attached_wf(s),
            LinkXdpModel::Other(n) => DefaultNla::m_wf(n) && !spec_link_xdp_known(n.code),
        }
    }

    open spec fn m_code(m: LinkXdpModel) -> u16 {
        match m {
            LinkXdpModel::Attached(_) => IFLA_XDP_ATTACHED,
            LinkXdpModel::Other(n) => n.code,
        }
    }

    open spec fn m_value(m: LinkXdpModel) -> Seq<u8> {
        match m {
            LinkXdpModel::Attached(s) => seq![spec_xdp_attached_byte(s)],
            LinkXdpModel::Other(n) => n.value,
        }
    }

    proof fn lemma_wf_len(m: LinkXdpModel) {
    }

    fn kind(&self) -> u16 {
        match self {
            LinkXdp::Attached(_) => IFLA_XDP_ATTACHED,
            LinkXdp::Other(n) => n.kind(),
        }
    }

    fn value_len(&self) -> usize {
        match self {
            LinkXdp::Attached(_) => 1,
            LinkXdp::Other(n) => n.value_len(),
        }
    }

    fn emit_value(&self, out: &mut Vec<u8>) {
        match self {
            LinkXdp::Attached(s) => {
                out.push(xdp_attached_byte(s));
                assert(out@ =~= old(out)@ + LinkXdp::m_value(self.model()));
            },
            LinkXdp::Other(n) => n.emit_value(out),
        }
    }
}

impl NlaDecode<()> for LinkXdp {
    open spec fn m_in_scope(m: LinkXdpModel, ctx: ()) -> bool {
        true
    }

    open spec fn m_resolve(ctx: (), code: u16, value: Seq<u8>) -> Result<
        LinkXdpModel,
        DecodeError,
    > {
        if code == IFLA_XDP_ATTACHED {
            if value.len() == 1 {
                Ok(LinkXdpModel::Attached(spec_xdp_attached_of_byte(value[0])))
            } else {
                Err(DecodeError::InvalidField { code })
            }
        } else {
            Ok(LinkXdpModel::Other(DefaultNlaModel { code, value }))
        }
    }

    open spec fn v_canon(ctx: (), code: u16, value: Seq<u8>) -> bool {
        true
    }

    proof fn lemma_resolve_project(ctx: (), code: u16, value: Seq<u8>) {
        lemma_xdp_attached_inverse();
        match Self::m_resolve(ctx, code, value) {
            Ok(x) => {
                assert(Self::m_value(x) =~= value);
            },
            Err(_) => {},
        }
    }

    proof fn lemma_project_resolve(m: LinkXdpModel, ctx: ()) {
        lemma_xdp_attached_inverse();
    }

    fn parse(ctx: &(), code: u16, value: &[u8]) -> Result<LinkXdp, DecodeError> {
        if code == IFLA_XDP_ATTACHED {
            match read_u8(value) {
                Some(b) => Ok(LinkXdp::Attached(xdp_attached_of_byte(b))),
                None => Err(DecodeError::InvalidField { code }),
            }
        } else {
            match <DefaultNla as NlaDecode<()>>::parse(ctx, code, value) {
                Ok(n) => Ok(LinkXdp::Other(n)),
                Err(e) => Err(e),
            }
        }
    }
}

/// The type code of the IPv4 block inside the unspecified address-family
/// attribute.
pub const AF_SPEC_INET: u16 = 2;

/// The type code of the IPv6 block inside the unspecified address-family
/// attribute.
pub const AF_SPEC_INET6: u16 = 10;

/// One per-address-family block of a link's address-family attribute.
#[derive(Debug, PartialEq, Eq, Clone)]
pub enum AfSpecUnspec {
    /// The IPv4 block, itself an attribute list.
    Inet(Vec<AfSpecInet>),
    /// The IPv6 block, itself an attribute list.
    Inet6(Vec<AfSpecInet6>),
    /// Any family block this catalog has no rule for, kept verbatim.
    Other(DefaultNla),
}

/// The model of an [`AfSpecUnspec`] block.
pub enum AfSpecUnspecModel {
    Inet(Seq<AfSpecInetModel>),
    Inet6(Seq<AfSpecInet6Model>),
    Other(DefaultNlaModel),
}

/// Whether the address-family catalog has a rule for this type code.
pub open spec fn spec_af_unspec_known(code: u16) -> bool {
    code == AF_SPEC_INET || code == AF_SPEC_INET6
}

impl Nla for AfSpecUnspec {
    type Model = AfSpecUnspecModel;

    open spec fn model(&self) -> AfSpecUnspecModel {
        match self {
            AfSpecUnspec::Inet(l) => AfSpecUnspecModel::Inet(models_of(l@)),
            AfSpecUnspec::Inet6(l) => AfSpecUnspecModel::Inet6(models_of(l@)),
            AfSpecUnspec::Other(n) => AfSpecUnspecModel::Other(n.model()),
        }
    }

    open spec fn m_wf(m: AfSpecUnspecModel) -> bool {
        match m {
            AfSpecUnspecModel::Inet(l) => (forall|i: int|
                0 <= i < l.len() ==> AfSpecInet::m_wf(#[trigger] l[i])) && spec_attrs_bytes::<
                AfSpecInet,
            >(l).len() + 4 <= 0xffff,
            AfSpecUnspecModel::Inet6(l) => (forall|i: int|
                0 <= i < l.len() ==> AfSpecInet6::m_wf(#[trigger] l[i])) && spec_attrs_bytes::<
                AfSpecInet6,
            >(l).len() + 4 <= 0xffff,
            AfSpecUnspecModel::Other(n) => DefaultNla::m_wf(n) && !spec_af_unspec_known(n.code),
        }
    }

    open spec fn m_code(m: AfSpecUnspecModel) -> u16 {
        match m {
            AfSpecUnspecModel::Inet(_) => AF_SPEC_INET,
            AfSpecUnspecModel::Inet6(_) => AF_SPEC_INET6,
            AfSpecUnspecModel::Other(n) => n.code,
        }
    }

    open spec fn m_value(m: AfSpecUnspecModel) -> Seq<u8> {
        match m {
            AfSpecUnspecModel::Inet(l) => spec_attrs_bytes::<AfSpecInet>(l),
            AfSpecUnspecModel::Inet6(l) => spec_attrs_bytes::<AfSpecInet6>(l),
            AfSpecUnspecModel::Other(n) => n.value,
        }
    }

    proof fn lemma_wf_len(m: AfSpecUnspecModel) {
    }

    fn kind(&self) -> u16 {
        match self {
            AfSpecUnspec::Inet(_) => AF_SPEC_INET,
            AfSpecUnspec::Inet6(_) => AF_SPEC_INET6,
            AfSpecUnspec::Other(n) => n.kind(),
        }
    }

    fn value_len(&self) -> usize {
        match self {
            AfSpecUnspec::Inet(l) => {
                proof {
                    assert forall|i: int| 0 <= i < l@.len() implies AfSpecInet::m_wf(
                        (#[trigger] l@[i]).model(),
                    ) by {
                        assert(models_of(l@)[i] == l@[i].model());
                    }
                }
                attrs_buffer_len(l)
            },
            AfSpecUnspec::Inet6(l) => {
                proof {
                    assert forall|i: int| 0 <= i < l@.len() implies AfSpecInet6::m_wf(
                        (#[trigger] l@[i]).model(),
                    ) by {
                        assert(models_of(l@)[i] == l@[i].model());
                    }
                }
                attrs_buffer_len(l)
            },
            AfSpecUnspec::Other(n) => n.value_len(),
        }
    }

    fn emit_value(&self, out: &mut Vec<u8>) {
        match self {
            AfSpecUnspec::Inet(l) => {
                proof {
                    assert forall|i: int| 0 <= i < l@.len() implies AfSpecInet::m_wf(
                        (#[trigger] l@[i]).model(),
                    ) by {
                        assert(models_of(l@)[i] == l@[i].model());
                    }
                }
                emit_attrs(l, out);
            },
            AfSpecUnspec::Inet6(l) => {
                proof {
                    assert forall|i: int| 0 <= i < l@.len() implies AfSpecInet6::m_wf(
                        (#[trigger] l@[i]).model(),
                    ) by {
                        assert(models_of(l@)[i] == l@[i].model());
                    }
                }
                emit_attrs(l, out);
            },
            AfSpecUnspec::Other(n) => n.emit_value(out),
        }
    }
}

impl NlaDecode<()> for AfSpecUnspec {
    open spec fn m_in_scope(m: AfSpecUnspecModel, ctx: ()) -> bool {
        true
    }

    open spec fn m_resolve(ctx: (), code: u16, value: Seq<u8>) -> Result<
        AfSpecUnspecModel,
        DecodeError,
    > {
        if code == AF_SPEC_INET {
            if value.len() % 4 != 0 {
                Err(DecodeError::InvalidField { code })
            } else {
                match spec_parse_attrs::<(), AfSpecInet>((), value) {
                    Ok(l) => Ok(AfSpecUnspecModel::Inet(l)),
                    Err(e) => Err(e),
                }
            }
        } else if code == AF_SPEC_INET6 {
            if value.len() % 4 != 0 {
                Err(DecodeError::InvalidField { code })
            } else {
                match spec_parse_attrs::<(), AfSpecInet6>((), value) {
                    Ok(l) => Ok(AfSpecUnspecModel::Inet6(l)),
                    Err(e) => Err(e),
                }
            }
        } else {
            Ok(AfSpecUnspecModel::Other(DefaultNlaModel { code, value }))
        }
    }

    open spec fn v_canon(ctx: (), code: u16, value: Seq<u8>) -> bool {
        if code == AF_SPEC_INET {
            spec_canonical_attrs::<(), AfSpecInet>((), value)
        } else if code == AF_SPEC_INET6 {
            spec_canonical_attrs::<(), AfSpecInet6>((), value)
        } else {
            true
        }
    }

    proof fn lemma_resolve_project(ctx: (), code: u16, value: Seq<u8>) {
        if code == AF_SPEC_INET {
            if value.len() % 4 == 0 && spec_parse_attrs::<(), AfSpecInet>((), value) is Ok {
                lemma_parse_attrs_wf::<(), AfSpecInet>((), value);
                lemma_parse_attrs_len::<(), AfSpecInet>((), value);
                if spec_canonical_attrs::<(), AfSpecInet>((), value) {
                    lemma_attrs_canonical::<(), AfSpecInet>((), value);
                }
            }
        } else if code == AF_SPEC_INET6 {
            if value.len() % 4 == 0 && spec_parse_attrs::<(), AfSpecInet6>((), value) is Ok {
                lemma_parse_attrs_wf::<(), AfSpecInet6>((), value);
                lemma_parse_attrs_len::<(), AfSpecInet6>((), value);
                if spec_canonical_attrs::<(), AfSpecInet6>((), value) {
                    lemma_attrs_canonical::<(), AfSpecInet6>((), value);
                }
            }
        }
    }

    proof fn lemma_project_resolve(m: AfSpecUnspecModel, ctx: ()) {
        match m {
            AfSpecUnspecModel::Inet(l) => {
                lemma_attrs_bytes_aligned::<AfSpecInet>(l);
                lemma_attrs_roundtrip::<(), AfSpecInet>((), l);
            },
            AfSpecUnspecModel::Inet6(l) => {
                lemma_attrs_bytes_aligned::<AfSpecInet6>(l);
                lemma_attrs_roundtrip::<(), AfSpecInet6>((), l);
            },
            AfSpecUnspecModel::Other(_) => {},
        }
    }

    fn parse(ctx: &(), code: u16, value: &[u8]) -> Result<AfSpecUnspec, DecodeError> {
        if code == AF_SPEC_INET {
            if value.len() % 4 != 0 {
                Err(DecodeError::InvalidField { code })
            } else {
                match parse_attrs::<(), AfSpecInet>(&(), value) {
                    Ok(l) => Ok(AfSpecUnspec::Inet(l)),
                    Err(e) => Err(e),
                }
            }
        } else if code == AF_SPEC_INET6 {
            if value.len() % 4 != 0 {
                Err(DecodeError::InvalidField { code })
            } else {
                match parse_attrs::<(), AfSpecInet6>(&(), value) {
                    Ok(l) => Ok(AfSpecUnspec::Inet6(l)),
                    Err(e) => Err(e),
                }
            }
        } else {
            match <DefaultNla as NlaDecode<()>>::parse(ctx, code, value) {
                Ok(n) => Ok(AfSpecUnspec::Other(n)),
                Err(e) => Err(e),
            }
        }
    }
}

/// One attribute of a link message.
#[derive(Debug, PartialEq, Eq, Clone)]
pub enum LinkAttribute {
    Address(Vec<u8>),
    Broadcast(Vec<u8>),
    IfName(String),
    Qdisc(String),
    Mtu(u32),
    TxQueueLen(u32),
    Group(u32),
    Promiscuity(u32),
    NumTxQueues(u32),
    NumRxQueues(u32),
    CarrierChanges(u32),
    GsoMaxSegs(u32),
    GsoMaxSize(u32),
    CarrierUpCount(u32),
    CarrierDownCount(u32),
    MinMtu(u32),
    MaxMtu(u32),
    Mode(u8),
    Carrier(u8),
    ProtoDown(u8),
    Stats(Stats),
    Stats64(Stats64),
    DeviceMap(DeviceMap),
    OperState(State),
    LinkInfo(Vec<LinkInfo>),
    AfSpecUnspec(Vec<AfSpecUnspec>),
    Xdp(Vec<LinkXdp>),
    /// Any link attribute this catalog has no rule for, kept verbatim.
    Other(DefaultNla),
}

/// The model of a [`LinkAttribute`].
pub enum LinkAttributeModel {
    Address(Seq<u8>),
    Broadcast(Seq<u8>),
    IfName(Seq<char>),
    Qdisc(Seq<char>),
    Mtu(u32),
    TxQueueLen(u32),
    Group(u32),
    Promiscuity(u32),
    NumTxQueues(u32),
    NumRxQueues(u32),
    CarrierChanges(u32),
    GsoMaxSegs(u32),
    GsoMaxSize(u32),
    CarrierUpCount(u32),
    CarrierDownCount(u32),
    MinMtu(u32),
    MaxMtu(u32),
    Mode(u8),
    Carrier(u8),
    ProtoDown(u8),
    Stats(Stats),
    Stats64(Stats64),
    DeviceMap(DeviceMap),
    OperState(State),
    LinkInfo(Seq<LinkInfoModel>),
    AfSpecUnspec(Seq<AfSpecUnspecModel>),
    Xdp(Seq<LinkXdpModel>),
    Other(DefaultNlaModel),
}

/// Whether the link attribute catalog has a rule for this type code.
pub open spec fn spec_link_attr_known(code: u16) -> bool {
    code == 1 || code == 2 || code == 3 || code == 4 || code == 6 || code == 7 || code == 13 || code == 14 || code == 16 || code == 17 || code == 18 || code == 23 || code == 26 || code == 27 || code == 30 || code == 31 || code == 32 || code == 33 || code == 35 || code == 39 || code == 40 || code == 41 || code == 43 || code == 47 || code == 48 || code == 50 || code == 51
}

impl Nla for LinkAttribute {
    type Model = LinkAttributeModel;

    open spec fn model(&self) -> LinkAttributeModel {
        match self {
            LinkAttribute::Address(v) => LinkAttributeModel::Address(v@),
            LinkAttribute::Broadcast(v) => LinkAttributeModel::Broadcast(v@),
            LinkAttribute::IfName(s) => LinkAttributeModel::IfName(s@),
            LinkAttribute::Qdisc(s) => LinkAttributeModel::Qdisc(s@),
            LinkAttribute::Mtu(x) => LinkAttributeModel::Mtu(*x),
            LinkAttribute::TxQueueLen(x) => LinkAttributeModel::TxQueueLen(*x),
            LinkAttribute::Group(x) => LinkAttributeModel::Group(*x),
            LinkAttribute::Promiscuity(x) => LinkAttributeModel::Promiscuity(*x),
            LinkAttribute::NumTxQueues(x) => LinkAttributeModel::NumTxQueues(*x),
            LinkAttribute::NumRxQueues(x) => LinkAttributeModel::NumRxQueues(*x),
            LinkAttribute::CarrierChanges(x) => LinkAttributeModel::CarrierChanges(*x),
            LinkAttribute::GsoMaxSegs(x) => LinkAttributeModel::GsoMaxSegs(*x),
            LinkAttribute::GsoMaxSize(x) => LinkAttributeModel::GsoMaxSize(*x),
            LinkAttribute::CarrierUpCount(x) => LinkAttributeModel::CarrierUpCount(*x),
            LinkAttribute::CarrierDownCount(x) => LinkAttributeModel::CarrierDownCount(*x),
            LinkAttribute::MinMtu(x) => LinkAttributeModel::MinMtu(*x),
            LinkAttribute::MaxMtu(x) => LinkAttributeModel::MaxMtu(*x),
            LinkAttribute::Mode(x) => LinkAttributeModel::Mode(*x),
            LinkAttribute::Carrier(x) => LinkAttributeModel::Carrier(*x),
            LinkAttribute::ProtoDown(x) => LinkAttributeModel::ProtoDown(*x),
            LinkAttribute::Stats(x) => LinkAttributeModel::Stats(*x),
            LinkAttribute::Stats64(x) => LinkAttributeModel::Stats64(*x),
            LinkAttribute::DeviceMap(x) => LinkAttributeModel::DeviceMap(*x),
            LinkAttribute::OperState(x) => LinkAttributeModel::OperState(*x),
            LinkAttribute::LinkInfo(l) => LinkAttributeModel::LinkInfo(models_of(l@)),
            LinkAttribute::AfSpecUnspec(l) => LinkAttributeModel::AfSpecUnspec(models_of(l@)),
            LinkAttribute::Xdp(l) => LinkAttributeModel::Xdp(models_of(l@)),
            LinkAttribute::Other(n) => LinkAttributeModel::Other(n.model()),
        }
    }

    open spec fn m_wf(m: LinkAttributeModel) -> bool {
        match m {
            LinkAttributeModel::Address(v) => v.len() + 4 <= 0xffff,
            LinkAttributeModel::Broadcast(v) => v.len() + 4 <= 0xffff,
            LinkAttributeModel::IfName(s) => (forall|j: int|
                0 <= j < encode_utf8(s).len() ==> #[trigger] encode_utf8(s)[j] != 0)
                && spec_strz_bytes(s).len() + 4 <= 0xffff,
            LinkAttributeModel::Qdisc(s) => (forall|j: int|
                0 <= j < encode_utf8(s).len() ==> #[trigger] encode_utf8(s)[j] != 0)
                && spec_strz_bytes(s).len() + 4 <= 0xffff,
            LinkAttributeModel::Mtu(_) => true,
            LinkAttributeModel::TxQueueLen(_) => true,
            LinkAttributeModel::Group(_) => true,
            LinkAttributeModel::Promiscuity(_) => true,
            LinkAttributeModel::NumTxQueues(_) => true,
            LinkAttributeModel::NumRxQueues(_) => true,
            LinkAttributeModel::CarrierChanges(_) => true,
            LinkAttributeModel::GsoMaxSegs(_) => true,
            LinkAttributeModel::GsoMaxSize(_) => true,
            LinkAttributeModel::CarrierUpCount(_) => true,
            LinkAttributeModel::CarrierDownCount(_) => true,
            LinkAttributeModel::MinMtu(_) => true,
            LinkAttributeModel::MaxMtu(_) => true,
            LinkAttributeModel::Mode(_) => true,
            LinkAttributeModel::Carrier(_) => true,
            LinkAttributeModel::ProtoDown(_) => true,
            LinkAttributeModel::Stats(_) => true,
            LinkAttributeModel::Stats64(_) => true,
            LinkAttributeModel::DeviceMap(_) => true,
            LinkAttributeModel::OperState(s) => spec_state_wf(s),
            LinkAttributeModel::LinkInfo(l) => spec_link_info_wf(spec_link_info_scope_initial(), l)
                && spec_attrs_bytes::<LinkInfo>(l).len() + 4 <= 0xffff,
            LinkAttributeModel::AfSpecUnspec(l) => (forall|i: int|
                0 <= i < l.len() ==> AfSpecUnspec::m_wf(#[trigger] l[i]))
                && spec_attrs_bytes::<AfSpecUnspec>(l).len() + 4 <= 0xffff,
            LinkAttributeModel::Xdp(l) => (forall|i: int|
                0 <= i < l.len() ==> LinkXdp::m_wf(#[trigger] l[i]))
                && spec_attrs_bytes::<LinkXdp>(l).len() + 4 <= 0xffff,
            LinkAttributeModel::Other(n) => DefaultNla::m_wf(n) && !spec_link_attr_known(n.code),
        }
    }

    open spec fn m_code(m: LinkAttributeModel) -> u16 {
        match m {
            LinkAttributeModel::Address(_) => 1,
            LinkAttributeModel::Broadcast(_) => 2,
            LinkAttributeModel::IfName(_) => 3,
            LinkAttributeModel::Qdisc(_) => 6,
            LinkAttributeModel::Mtu(_) => 4,
            LinkAttributeModel::TxQueueLen(_) => 13,
            LinkAttributeModel::Group(_) => 27,
            LinkAttributeModel::Promiscuity(_) => 30,
            LinkAttributeModel::NumTxQueues(_) => 31,
            LinkAttributeModel::NumRxQueues(_) => 32,
            LinkAttributeModel::CarrierChanges(_) => 35,
            LinkAttributeModel::GsoMaxSegs(_) => 40,
            LinkAttributeModel::GsoMaxSize(_) => 41,
            LinkAttributeModel::CarrierUpCount(_) => 47,
            LinkAttributeModel::CarrierDownCount(_) => 48,
            LinkAttributeModel::MinMtu(_) => 50,
            LinkAttributeModel::MaxMtu(_) => 51,
            LinkAttributeModel::Mode(_) => 17,
            LinkAttributeModel::Carrier(_) => 33,
            LinkAttributeModel::ProtoDown(_) => 39,
            LinkAttributeModel::Stats(_) => 7,
            LinkAttributeModel::Stats64(_) => 23,
            LinkAttributeModel::DeviceMap(_) => 14,
            LinkAttributeModel::OperState(_) => 16,
            LinkAttributeModel::LinkInfo(_) => 18,
            LinkAttributeModel::AfSpecUnspec(_) => 26,
            LinkAttributeModel::Xdp(_) => 43,
            LinkAttributeModel::Other(n) => n.code,
        }
    }

    open spec fn m_value(m: LinkAttributeModel) -> Seq<u8> {
        match m {
            LinkAttributeModel::Address(v) => v,
            LinkAttributeModel::Broadcast(v) => v,
            LinkAttributeModel::IfName(s) => spec_strz_bytes(s),
            LinkAttributeModel::Qdisc(s) => spec_strz_bytes(s),
            LinkAttributeModel::Mtu(x) => spec_u32_to_le_bytes(x),
            LinkAttributeModel::TxQueueLen(x) => spec_u32_to_le_bytes(x),
            LinkAttributeModel::Group(x) => spec_u32_to_le_bytes(x),
            LinkAttributeModel::Promiscuity(x) => spec_u32_to_le_bytes(x),
            LinkAttributeModel::NumTxQueues(x) => spec_u32_to_le_bytes(x),
            LinkAttributeModel::NumRxQueues(x) => spec_u32_to_le_bytes(x),
            LinkAttributeModel::CarrierChanges(x) => spec_u32_to_le_bytes(x),
            LinkAttributeModel::GsoMaxSegs(x) => spec_u32_to_le_bytes(x),
            LinkAttributeModel::GsoMaxSize(x) => spec_u32_to_le_bytes(x),
            LinkAttributeModel::CarrierUpCount(x) => spec_u32_to_le_bytes(x),
            LinkAttributeModel::CarrierDownCount(x) => spec_u32_to_le_bytes(x),
            LinkAttributeModel::MinMtu(x) => spec_u32_to_le_bytes(x),
            LinkAttributeModel::MaxMtu(x) => spec_u32_to_le_bytes(x),
            LinkAttributeModel::Mode(x) => seq![x],
            LinkAttributeModel::Carrier(x) => seq![x],
            LinkAttributeModel::ProtoDown(x) => seq![x],
            LinkAttributeModel::Stats(s) => spec_stats_bytes(s),
            LinkAttributeModel::Stats64(s) => spec_stats64_bytes(s),
            LinkAttributeModel::DeviceMap(s) => spec_device_map_bytes(s),
            LinkAttributeModel::OperState(s) => seq![spec_state_byte(s)],
            LinkAttributeModel::LinkInfo(l) => spec_attrs_bytes::<LinkInfo>(l),
            LinkAttributeModel::AfSpecUnspec(l) => spec_attrs_bytes::<AfSpecUnspec>(l),
            LinkAttributeModel::Xdp(l) => spec_attrs_bytes::<LinkXdp>(l),
            LinkAttributeModel::Other(n) => n.value,
        }
    }

    proof fn lemma_wf_len(m: LinkAttributeModel) {
        lemma_auto_spec_u32_to_from_le_bytes();
        match m {
            LinkAttributeModel::Stats(s) => { lemma_stats_roundtrip(s, Seq::empty(), 7); },
            LinkAttributeModel::Stats64(s) => { lemma_stats64_roundtrip(s, Seq::empty(), 23); },
            LinkAttributeModel::DeviceMap(s) => { lemma_device_map_roundtrip(s, Seq::empty(), 14); },
            _ => {},
        }
    }

    fn kind(&self) -> u16 {
        match self {
            LinkAttribute::Address(_) => 1,
            LinkAttribute::Broadcast(_) => 2,
            LinkAttribute::IfName(_) => 3,
            LinkAttribute::Qdisc(_) => 6,
            LinkAttribute::Mtu(_) => 4,
            LinkAttribute::TxQueueLen(_) => 13,
            LinkAttribute::Group(_) => 27,
            LinkAttribute::Promiscuity(_) => 30,
            LinkAttribute::NumTxQueues(_) => 31,
            LinkAttribute::NumRxQueues(_) => 32,
            LinkAttribute::CarrierChanges(_) => 35,
            LinkAttribute::GsoMaxSegs(_) => 40,
            LinkAttribute::GsoMaxSize(_) => 41,
            LinkAttribute::CarrierUpCount(_) => 47,
            LinkAttribute::CarrierDownCount(_) => 48,
            LinkAttribute::MinMtu(_) => 50,
            LinkAttribute::MaxMtu(_) => 51,
            LinkAttribute::Mode(_) => 17,
            LinkAttribute::Carrier(_) => 33,
            LinkAttribute::ProtoDown(_) => 39,
            LinkAttribute::Stats(_) => 7,
            LinkAttribute::Stats64(_) => 23,
            LinkAttribute::DeviceMap(_) => 14,
            LinkAttribute::OperState(_) => 16,
            LinkAttribute::LinkInfo(_) => 18,
            LinkAttribute::AfSpecUnspec(_) => 26,
            LinkAttribute::Xdp(_) => 43,
            LinkAttribute::Other(n) => n.kind(),
        }
    }

    fn value_len(&self) -> usize {
        proof {
            lemma_auto_spec_u32_to_from_le_bytes();
            match self.model() {
                LinkAttributeModel::Stats(s) => { lemma_stats_roundtrip(s, Seq::empty(), 7); },
                LinkAttributeModel::Stats64(s) => { lemma_stats64_roundtrip(s, Seq::empty(), 23); },
                LinkAttributeModel::DeviceMap(s) => { lemma_device_map_roundtrip(s, Seq::empty(), 14); },
                _ => {},
            }
        }
        match self {
            LinkAttribute::Address(v) => v.len(),
            LinkAttribute::Broadcast(v) => v.len(),
            LinkAttribute::IfName(s) => strz_len(s.as_str()),
            LinkAttribute::Qdisc(s) => strz_len(s.as_str()),
            LinkAttribute::Mtu(_) => 4,
            LinkAttribute::TxQueueLen(_) => 4,
            LinkAttribute::Group(_) => 4,
            LinkAttribute::Promiscuity(_) => 4,
            LinkAttribute::NumTxQueues(_) => 4,
            LinkAttribute::NumRxQueues(_) => 4,
            LinkAttribute::CarrierChanges(_) => 4,
            LinkAttribute::GsoMaxSegs(_) => 4,
            LinkAttribute::GsoMaxSize(_) => 4,
            LinkAttribute::CarrierUpCount(_) => 4,
            LinkAttribute::CarrierDownCount(_) => 4,
            LinkAttribute::MinMtu(_) => 4,
            LinkAttribute::MaxMtu(_) => 4,
            LinkAttribute::Mode(_) => 1,
            LinkAttribute::Carrier(_) => 1,
            LinkAttribute::ProtoDown(_) => 1,
            LinkAttribute::Stats(_) => 96,
            LinkAttribute::Stats64(_) => 200,
            LinkAttribute::DeviceMap(_) => 32,
            LinkAttribute::OperState(_) => 1,
            LinkAttribute::LinkInfo(l) => {
                proof {
                    lemma_link_info_wf_each(
                        spec_link_info_scope_initial(),
                        models_of(l@),
                    );
                    assert forall|i: int| 0 <= i < l@.len() implies LinkInfo::m_wf(
                        (#[trigger] l@[i]).model(),
                    ) by {
                        assert(models_of(l@)[i] == l@[i].model());
                    }
                }
                attrs_buffer_len(l)
            },
            LinkAttribute::AfSpecUnspec(l) => {
                proof {
                    assert forall|i: int| 0 <= i < l@.len() implies AfSpecUnspec::m_wf(
                        (#[trigger] l@[i]).model(),
                    ) by {
                        assert(models_of(l@)[i] == l@[i].model());
                    }
                }
                attrs_buffer_len(l)
            },
            LinkAttribute::Xdp(l) => {
                proof {
                    assert forall|i: int| 0 <= i < l@.len() implies LinkXdp::m_wf(
                        (#[trigger] l@[i]).model(),
                    ) by {
                        assert(models_of(l@)[i] == l@[i].model());
                    }
                }
                attrs_buffer_len(l)
            },
            LinkAttribute::Other(n) => n.value_len(),
        }
    }

    fn emit_value(&self, out: &mut Vec<u8>) {
        match self {
            LinkAttribute::Address(v) => out.extend_from_slice(v.as_slice()),
            LinkAttribute::Broadcast(v) => out.extend_from_slice(v.as_slice()),
            LinkAttribute::IfName(s) => push_strz(s.as_str(), out),
            LinkAttribute::Qdisc(s) => push_strz(s.as_str(), out),
            LinkAttribute::Mtu(x) => push_u32_le(out, *x),
            LinkAttribute::TxQueueLen(x) => push_u32_le(out, *x),
            LinkAttribute::Group(x) => push_u32_le(out, *x),
            LinkAttribute::Promiscuity(x) => push_u32_le(out, *x),
            LinkAttribute::NumTxQueues(x) => push_u32_le(out, *x),
            LinkAttribute::NumRxQueues(x) => push_u32_le(out, *x),
            LinkAttribute::CarrierChanges(x) => push_u32_le(out, *x),
            LinkAttribute::GsoMaxSegs(x) => push_u32_le(out, *x),
            LinkAttribute::GsoMaxSize(x) => push_u32_le(out, *x),
            LinkAttribute::CarrierUpCount(x) => push_u32_le(out, *x),
            LinkAttribute::CarrierDownCount(x) => push_u32_le(out, *x),
            LinkAttribute::MinMtu(x) => push_u32_le(out, *x),
            LinkAttribute::MaxMtu(x) => push_u32_le(out, *x),
            LinkAttribute::Mode(x) => {
                out.push(*x);
                assert(out@ =~= old(out)@ + LinkAttribute::m_value(self.model()));
            },
            LinkAttribute::Carrier(x) => {
                out.push(*x);
                assert(out@ =~= old(out)@ + LinkAttribute::m_value(self.model()));
            },
            LinkAttribute::ProtoDown(x) => {
                out.push(*x);
                assert(out@ =~= old(out)@ + LinkAttribute::m_value(self.model()));
            },
            LinkAttribute::Stats(s) => emit_stats(s, out),
            LinkAttribute::Stats64(s) => emit_stats64(s, out),
            LinkAttribute::DeviceMap(s) => emit_device_map(s, out),
            LinkAttribute::OperState(s) => {
                out.push(state_byte(s));
                assert(out@ =~= old(out)@ + LinkAttribute::m_value(self.model()));
            },
            LinkAttribute::LinkInfo(l) => {
                proof {
                    lemma_link_info_wf_each(
                        spec_link_info_scope_initial(),
                        models_of(l@),
                    );
                    assert forall|i: int| 0 <= i < l@.len() implies LinkInfo::m_wf(
                        (#[trigger] l@[i]).model(),
                    ) by {
                        assert(models_of(l@)[i] == l@[i].model());
                    }
                }
                emit_attrs(l, out);
            },
            LinkAttribute::AfSpecUnspec(l) => {
                proof {
                    assert forall|i: int| 0 <= i < l@.len() implies AfSpecUnspec::m_wf(
                        (#[trigger] l@[i]).model(),
                    ) by {
                        assert(models_of(l@)[i] == l@[i].model());
                    }
                }
                emit_attrs(l, out);
            },
            LinkAttribute::Xdp(l) => {
                proof {
                    assert forall|i: int| 0 <= i < l@.len() implies LinkXdp::m_wf(
                        (#[trigger] l@[i]).model(),
                    ) by {
                        assert(models_of(l@)[i] == l@[i].model());
                    }
                }
                emit_attrs(l, out);
            },
            LinkAttribute::Other(n) => n.emit_value(out),
        }
    }
}

impl NlaDecode<()> for LinkAttribute {
    open spec fn m_in_scope(m: LinkAttributeModel, ctx: ()) -> bool {
        true
    }

    open spec fn m_resolve(ctx: (), code: u16, value: Seq<u8>) -> Result<LinkAttributeModel, DecodeError> {
        if code == 1 {
            Ok(LinkAttributeModel::Address(value))
        } else if code == 2 {
            Ok(LinkAttributeModel::Broadcast(value))
        } else if code == 3 {
            if spec_strz_ok(value) {
                Ok(LinkAttributeModel::IfName(spec_strz_chars(value)))
            } else {
                Err(DecodeError::InvalidField { code })
            }
        } else if code == 6 {
            if spec_strz_ok(value) {
                Ok(LinkAttributeModel::Qdisc(spec_strz_chars(value)))
            } else {
                Err(DecodeError::InvalidField { code })
            }
        } else if code == 4 {
            if value.len() == 4 {
                Ok(LinkAttributeModel::Mtu(spec_u32_from_le_bytes(value)))
            } else {
                Err(DecodeError::InvalidField { code })
            }
        } else if code == 13 {
            if value.len() == 4 {
                Ok(LinkAttributeModel::TxQueueLen(spec_u32_from_le_bytes(value)))
            } else {
                Err(DecodeError::InvalidField { code })
            }
        } else if code == 27 {
            if value.len() == 4 {
                Ok(LinkAttributeModel::Group(spec_u32_from_le_bytes(value)))
            } else {
                Err(DecodeError::InvalidField { code })
            }
        } else if code == 30 {
            if value.len() == 4 {
                Ok(LinkAttributeModel::Promiscuity(spec_u32_from_le_bytes(value)))
            } else {
                Err(DecodeError::InvalidField { code })
            }
        } else if code == 31 {
            if value.len() == 4 {
                Ok(LinkAttributeModel::NumTxQueues(spec_u32_from_le_bytes(value)))
            } else {
                Err(DecodeError::InvalidField { code })
            }
        } else if code == 32 {
            if value.len() == 4 {
                Ok(LinkAttributeModel::NumRxQueues(spec_u32_from_le_bytes(value)))
            } else {
                Err(DecodeError::InvalidField { code })
            }
        } else if code == 35 {
            if value.len() == 4 {
                Ok(LinkAttributeModel::CarrierChanges(spec_u32_from_le_bytes(value)))
            } else {
                Err(DecodeError::InvalidField { code })
            }
        } else if code == 40 {
            if value.len() == 4 {
                Ok(LinkAttributeModel::GsoMaxSegs(spec_u32_from_le_bytes(value)))
            } else {
                Err(DecodeError::InvalidField { code })
            }
        } else if code == 41 {
            if value.len() == 4 {
                Ok(LinkAttributeModel::GsoMaxSize(spec_u32_from_le_bytes(value)))
            } else {
                Err(DecodeError::InvalidField { code })
            }
        } else if code == 47 {
            if value.len() == 4 {
                Ok(LinkAttributeModel::CarrierUpCount(spec_u32_from_le_bytes(value)))
            } else {
                Err(DecodeError::InvalidField { code })
            }
        } else if code == 48 {
            if value.len() == 4 {
                Ok(LinkAttributeModel::CarrierDownCount(spec_u32_from_le_bytes(value)))
            } else {
                Err(DecodeError::InvalidField { code })
            }
        } else if code == 50 {
            if value.len() == 4 {
                Ok(LinkAttributeModel::MinMtu(spec_u32_from_le_bytes(value)))
            } else {
                Err(DecodeError::InvalidField { code })
            }
        } else if code == 51 {
            if value.len() == 4 {
                Ok(LinkAttributeModel::MaxMtu(spec_u32_from_le_bytes(value)))
            } else {
                Err(DecodeError::InvalidField { code })
            }
        } else if code == 17 {
            if value.len() == 1 {
                Ok(LinkAttributeModel::Mode(value[0]))
            } else {
                Err(DecodeError::InvalidField { code })
            }
        } else if code == 33 {
            if value.len() == 1 {
                Ok(LinkAttributeModel::Carrier(value[0]))
            } else {
                Err(DecodeError::InvalidField { code })
            }
        } else if code == 39 {
            if value.len() == 1 {
                Ok(LinkAttributeModel::ProtoDown(value[0]))
            } else {
                Err(DecodeError::InvalidField { code })
            }
        } else if code == 7 {
            match spec_stats_parse(value, code) {
                Ok(s) => Ok(LinkAttributeModel::Stats(s)),
                Err(e) => Err(e),
            }
        } else if code == 23 {
            match spec_stats64_parse(value, code) {
                Ok(s) => Ok(LinkAttributeModel::Stats64(s)),
                Err(e) => Err(e),
            }
        } else if code == 14 {
            match spec_device_map_parse(value, code) {
                Ok(s) => Ok(LinkAttributeModel::DeviceMap(s)),
                Err(e) => Err(e),
            }
        } else if code == 16 {
            if value.len() == 1 {
                Ok(LinkAttributeModel::OperState(spec_state_of_byte(value[0])))
            } else {
                Err(DecodeError::InvalidField { code })
            }
        } else if code == 18 {
            if value.len() % 4 != 0 {
                Err(DecodeError::InvalidField { code })
            } else {
                match spec_parse_link_info(spec_link_info_scope_initial(), value) {
                    Ok(l) => Ok(LinkAttributeModel::LinkInfo(l)),
                    Err(e) => Err(e),
                }
            }
        } else if code == 26 {
            if value.len() % 4 != 0 {
                Err(DecodeError::InvalidField { code })
            } else {
                match spec_parse_attrs::<(), AfSpecUnspec>((), value) {
                    Ok(l) => Ok(LinkAttributeModel::AfSpecUnspec(l)),
                    Err(e) => Err(e),
                }
            }
        } else if code == 43 {
            if value.len() % 4 != 0 {
                Err(DecodeError::InvalidField { code })
            } else {
                match spec_parse_attrs::<(), LinkXdp>((), value) {
                    Ok(l) => Ok(LinkAttributeModel::Xdp(l)),
                    Err(e) => Err(e),
                }
            }
        } else {
            Ok(LinkAttributeModel::Other(DefaultNlaModel { code, value }))
        }
    }

    open spec fn v_canon(ctx: (), code: u16, value: Seq<u8>) -> bool {
        if code == 18 {
            spec_canonical_link_info(spec_link_info_scope_initial(), value)
        } else if code == 26 {
            spec_canonical_attrs::<(), AfSpecUnspec>((), value)
        } else if code == 43 {
            spec_canonical_attrs::<(), LinkXdp>((), value)
        } else {
            true
        }
    }

    proof fn lemma_resolve_project(ctx: (), code: u16, value: Seq<u8>) {
        lemma_auto_spec_u32_to_from_le_bytes();
        lemma_state_inverse();
        if code == 3 || code == 6 {
            if spec_strz_ok(value) {
                lemma_strz_project(value);
            }
        } else if code == 7 {
            lemma_stats_roundtrip(spec_stats_parse(value, code)->Ok_0, value, code);
        } else if code == 23 {
            lemma_stats64_roundtrip(spec_stats64_parse(value, code)->Ok_0, value, code);
        } else if code == 14 {
            lemma_device_map_roundtrip(spec_device_map_parse(value, code)->Ok_0, value, code);
        } else if code == 18 {
            if value.len() % 4 == 0 && spec_parse_link_info(spec_link_info_scope_initial(), value) is Ok {
                lemma_parse_link_info_wf(spec_link_info_scope_initial(), value);
                lemma_parse_link_info_len(spec_link_info_scope_initial(), value);
                if spec_canonical_link_info(spec_link_info_scope_initial(), value) {
                    lemma_link_info_canonical(spec_link_info_scope_initial(), value);
                }
            }
        } else if code == 26 {
            if value.len() % 4 == 0 && spec_parse_attrs::<(), AfSpecUnspec>((), value) is Ok {
                lemma_parse_attrs_wf::<(), AfSpecUnspec>((), value);
                lemma_parse_attrs_len::<(), AfSpecUnspec>((), value);
                if spec_canonical_attrs::<(), AfSpecUnspec>((), value) {
                    lemma_attrs_canonical::<(), AfSpecUnspec>((), value);
                }
            }
        } else if code == 43 {
            if value.len() % 4 == 0 && spec_parse_attrs::<(), LinkXdp>((), value) is Ok {
                lemma_parse_attrs_wf::<(), LinkXdp>((), value);
                lemma_parse_attrs_len::<(), LinkXdp>((), value);
                if spec_canonical_attrs::<(), LinkXdp>((), value) {
                    lemma_attrs_canonical::<(), LinkXdp>((), value);
                }
            }
        } else {
            match Self::m_resolve(ctx, code, value) {
                Ok(x) => {
                    assert(Self::m_value(x) =~= value);
                },
                Err(_) => {},
            }
        }
    }

    proof fn lemma_project_resolve(m: LinkAttributeModel, ctx: ()) {
        lemma_auto_spec_u32_to_from_le_bytes();
        lemma_state_inverse();
        match m {
            LinkAttributeModel::IfName(s) => {
                lemma_strz_roundtrip(s);
            },
            LinkAttributeModel::Qdisc(s) => {
                lemma_strz_roundtrip(s);
            },
            LinkAttributeModel::Stats(s) => { lemma_stats_roundtrip(s, Seq::empty(), 7); },
            LinkAttributeModel::Stats64(s) => { lemma_stats64_roundtrip(s, Seq::empty(), 23); },
            LinkAttributeModel::DeviceMap(s) => { lemma_device_map_roundtrip(s, Seq::empty(), 14); },
            LinkAttributeModel::LinkInfo(l) => {
                lemma_link_info_wf_each(spec_link_info_scope_initial(), l);
                lemma_attrs_bytes_aligned::<LinkInfo>(l);
                lemma_link_info_roundtrip(spec_link_info_scope_initial(), l);
            },
            LinkAttributeModel::AfSpecUnspec(l) => {
                lemma_attrs_bytes_aligned::<AfSpecUnspec>(l);
                lemma_attrs_roundtrip::<(), AfSpecUnspec>((), l);
            },
            LinkAttributeModel::Xdp(l) => {
                lemma_attrs_bytes_aligned::<LinkXdp>(l);
                lemma_attrs_roundtrip::<(), LinkXdp>((), l);
            },
            _ => {},
        }
    }

    fn parse(ctx: &(), code: u16, value: &[u8]) -> Result<LinkAttribute, DecodeError> {
        if code == 1 {
            Ok(LinkAttribute::Address(slice_to_vec(value)))
        } else if code == 2 {
            Ok(LinkAttribute::Broadcast(slice_to_vec(value)))
        } else if code == 3 {
            match read_strz(value) {
                Some(s) => Ok(LinkAttribute::IfName(s)),
                None => Err(DecodeError::InvalidField { code }),
            }
        } else if code == 6 {
            match read_strz(value) {
                Some(s) => Ok(LinkAttribute::Qdisc(s)),
                None => Err(DecodeError::InvalidField { code }),
            }
        } else if code == 4 {
            match read_u32_le(value) {
                Some(x) => Ok(LinkAttribute::Mtu(x)),
                None => Err(DecodeError::InvalidField { code }),
            }
        } else if code == 13 {
            match read_u32_le(value) {
                Some(x) => Ok(LinkAttribute::TxQueueLen(x)),
                None => Err(DecodeError::InvalidField { code }),
            }
        } else if code == 27 {
            match read_u32_le(value) {
                Some(x) => Ok(LinkAttribute::Group(x)),
                None => Err(DecodeError::InvalidField { code }),
            }
        } else if code == 30 {
            match read_u32_le(value) {
                Some(x) => Ok(LinkAttribute::Promiscuity(x)),
                None => Err(DecodeError::InvalidField { code }),
            }
        } else if code == 31 {
            match read_u32_le(value) {
                Some(x) => Ok(LinkAttribute::NumTxQueues(x)),
                None => Err(DecodeError::InvalidField { code }),
            }
        } else if code == 32 {
            match read_u32_le(value) {
                Some(x) => Ok(LinkAttribute::NumRxQueues(x)),
                None => Err(DecodeError::InvalidField { code }),
            }
        } else if code == 35 {
            match read_u32_le(value) {
                Some(x) => Ok(LinkAttribute::CarrierChanges(x)),
                None => Err(DecodeError::InvalidField { code }),
            }
        } else if code == 40 {
            match read_u32_le(value) {
                Some(x) => Ok(LinkAttribute::GsoMaxSegs(x)),
                None => Err(DecodeError::InvalidField { code }),
            }
        } else if code == 41 {
            match read_u32_le(value) {
                Some(x) => Ok(LinkAttribute::GsoMaxSize(x)),
                None => Err(DecodeError::InvalidField { code }),
            }
        } else if code == 47 {
            match read_u32_le(value) {
                Some(x) => Ok(LinkAttribute::CarrierUpCount(x)),
                None => Err(DecodeError::InvalidField { code }),
            }
        } else if code == 48 {
            match read_u32_le(value) {
                Some(x) => Ok(LinkAttribute::CarrierDownCount(x)),
                None => Err(DecodeError::InvalidField { code }),
            }
        } else if code == 50 {
            match read_u32_le(value) {
                Some(x) => Ok(LinkAttribute::MinMtu(x)),
                None => Err(DecodeError::InvalidField { code }),
            }
        } else if code == 51 {
            match read_u32_le(value) {
                Some(x) => Ok(LinkAttribute::MaxMtu(x)),
                None => Err(DecodeError::InvalidField { code }),
            }
        } else if code == 17 {
            match read_u8(value) {
                Some(x) => Ok(LinkAttribute::Mode(x)),
                None => Err(DecodeError::InvalidField { code }),
            }
        } else if code == 33 {
            match read_u8(value) {
                Some(x) => Ok(LinkAttribute::Carrier(x)),
                None => Err(DecodeError::InvalidField { code }),
            }
        } else if code == 39 {
            match read_u8(value) {
                Some(x) => Ok(LinkAttribute::ProtoDown(x)),
                None => Err(DecodeError::InvalidField { code }),
            }
        } else if code == 7 {
            match parse_stats(value, code) {
                Ok(s) => Ok(LinkAttribute::Stats(s)),
                Err(e) => Err(e),
            }
        } else if code == 23 {
            match parse_stats64(value, code) {
                Ok(s) => Ok(LinkAttribute::Stats64(s)),
                Err(e) => Err(e),
            }
        } else if code == 14 {
            match parse_device_map(value, code) {
                Ok(s) => Ok(LinkAttribute::DeviceMap(s)),
                Err(e) => Err(e),
            }
        } else if code == 16 {
            match read_u8(value) {
                Some(b) => Ok(LinkAttribute::OperState(state_of_byte(b))),
                None => Err(DecodeError::InvalidField { code }),
            }
        } else if code == 18 {
            if value.len() % 4 != 0 {
                Err(DecodeError::InvalidField { code })
            } else {
                match parse_link_info(value) {
                    Ok(l) => Ok(LinkAttribute::LinkInfo(l)),
                    Err(e) => Err(e),
                }
            }
        } else if code == 26 {
            if value.len() % 4 != 0 {
                Err(DecodeError::InvalidField { code })
            } else {
                match parse_attrs::<(), AfSpecUnspec>(&(), value) {
                    Ok(l) => Ok(LinkAttribute::AfSpecUnspec(l)),
                    Err(e) => Err(e),
                }
            }
        } else if code == 43 {
            if value.len() % 4 != 0 {
                Err(DecodeError::InvalidField { code })
            } else {
                match parse_attrs::<(), LinkXdp>(&(), value) {
                    Ok(l) => Ok(LinkAttribute::Xdp(l)),
                    Err(e) => Err(e),
                }
            }
        } else {
            match <DefaultNla as NlaDecode<()>>::parse(ctx, code, value) {
                Ok(n) => Ok(LinkAttribute::Other(n)),
                Err(e) => Err(e),
            }
        }
    }
}

/// Fallback totality for the link attribute catalog: a code without a rule
/// resolves to the verbatim fallback and projects back to the same code and
/// value bytes unchanged.
pub proof fn lemma_link_attr_fallback_totality(code: u16, value: Seq<u8>)
    requires
        !spec_link_attr_known(code),
    ensures
        LinkAttribute::m_resolve((), code, value) == Ok::<LinkAttributeModel, DecodeError>(
            LinkAttributeModel::Other(DefaultNlaModel { code, value }),
        ),
        LinkAttribute::m_code(LinkAttribute::m_resolve((), code, value)->Ok_0) == code,
        LinkAttribute::m_value(LinkAttribute::m_resolve((), code, value)->Ok_0) == value,
{
}

} // verus!
