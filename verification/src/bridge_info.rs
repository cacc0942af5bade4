//! Bridge device attributes: the bridge identifier and the per-bridge
//! configuration and timer attributes nested inside a link-info data block.

use vstd::prelude::*;
use vstd::bytes::{
    spec_u16_from_le_bytes, spec_u16_to_le_bytes, spec_u32_from_le_bytes, spec_u32_to_le_bytes,
    spec_u64_from_le_bytes, spec_u64_to_le_bytes, lemma_auto_spec_u16_to_from_le_bytes,
    lemma_auto_spec_u32_to_from_le_bytes, lemma_auto_spec_u64_to_from_le_bytes, u16_from_le_bytes,
};
use vstd::slice::slice_subrange;
use crate::error::DecodeError;
use crate::fallback::{DefaultNla, DefaultNlaModel};
use crate::nla::{Nla, NlaDecode};
use crate::values::{
    spec_u16_from_be_bytes, spec_u16_to_be_bytes, lemma_u16_be_inverse, read_u8, read_bool,
    read_u16_le, read_u16_be, read_u32_le, read_u64_le, push_u16_le, push_u16_be, push_u32_le,
    push_u64_le,
};

verus! {

/// A spanning-tree bridge identifier: a big-endian priority and the bridge
/// address, 8 bytes on the wire.
#[derive(Debug, PartialEq, Eq, Clone, Copy)]
pub struct BridgeId {
    pub priority: u16,
    pub address: [u8; 6],
}

/// The model of a [`BridgeId`].
pub struct BridgeIdModel {
    pub priority: u16,
    pub address: Seq<u8>,
}

impl BridgeId {
    /// The model of this identifier.
    pub open spec fn model(&self) -> BridgeIdModel {
        BridgeIdModel { priority: self.priority, address: self.address@ }
    }
}

/// The wire bytes of a bridge identifier.
pub open spec fn spec_bridge_id_bytes(m: BridgeIdModel) -> Seq<u8> {
    spec_u16_to_be_bytes(m.priority) + m.address
}

/// The bridge identifier of 8 wire bytes.
pub open spec fn spec_bridge_id_of(v: Seq<u8>) -> BridgeIdModel
    recommends
        v.len() == 8,
{
    BridgeIdModel { priority: spec_u16_from_be_bytes(v.subrange(0, 2)), address: v.subrange(2, 8) }
}

/// The two bridge identifier conversions invert each other.
pub proof fn lemma_bridge_id_inverse(m: BridgeIdModel)
    requires
        m.address.len() == 6,
    ensures
        spec_bridge_id_bytes(m).len() == 8,
        spec_bridge_id_of(spec_bridge_id_bytes(m)) == m,
{
    lemma_u16_be_inverse();
    let b = spec_bridge_id_bytes(m);
    assert(b.subrange(0, 2) =~= spec_u16_to_be_bytes(m.priority));
    assert(b.subrange(2, 8) =~= m.address);
}

/// Decodes a bridge identifier.
pub fn parse_bridge_id(value: &[u8]) -> (r: Option<BridgeId>)
    ensures
        match r {
            Some(b) => value@.len() == 8 && b.model() == spec_bridge_id_of(value@),
            None => value@.len() != 8,
        },
{
    if value.len() != 8 {
        return None;
    }
    let priority = (value[0] as u16) * 256 + (value[1] as u16);
    let address: [u8; 6] = [value[2], value[3], value[4], value[5], value[6], value[7]];
    let b = BridgeId { priority, address };
    proof {
        assert(value@.subrange(0, 2) =~= seq![value@[0], value@[1]]);
        assert(b.model().address =~= value@.subrange(2, 8));
    }
    Some(b)
}

/// Appends a bridge identifier's wire bytes.
pub fn emit_bridge_id(b: &BridgeId, out: &mut Vec<u8>)
    ensures
        final(out)@ == old(out)@ + spec_bridge_id_bytes(b.model()),
{
    push_u16_be(out, b.priority);
    out.push(b.address[0]);
    out.push(b.address[1]);
    out.push(b.address[2]);
    out.push(b.address[3]);
    out.push(b.address[4]);
    out.push(b.address[5]);
    assert(out@ =~= old(out)@ + spec_bridge_id_bytes(b.model()));
}

/// Decodes a six-byte hardware address value.
pub fn read_addr6(value: &[u8]) -> (r: Option<[u8; 6]>)
    ensures
        match r {
            Some(a) => value@.len() == 6 && a@ == value@,
            None => value@.len() != 6,
        },
{
    if value.len() != 6 {
        return None;
    }
    let a: [u8; 6] = [value[0], value[1], value[2], value[3], value[4], value[5]];
    proof {
        assert(a@ =~= value@);
    }
    Some(a)
}

/// Appends a six-byte hardware address.
pub fn push_addr6(a: &[u8; 6], out: &mut Vec<u8>)
    ensures
        final(out)@ == old(out)@ + a@,
{
    out.push(a[0]);
    out.push(a[1]);
    out.push(a[2]);
    out.push(a[3]);
    out.push(a[4]);
    out.push(a[5]);
    assert(out@ =~= old(out)@ + a@);
}

/// One attribute of a bridge device's link-info data block.
#[derive(Debug, PartialEq, Eq, Clone)]
pub enum InfoBridge {
    ForwardDelay(u32),
    HelloTime(u32),
    MaxAge(u32),
    AgeingTime(u32),
    StpState(u32),
    Priority(u16),
    VlanFiltering(bool),
    VlanProtocol(u16),
    GroupFwdMask(u16),
    RootId(BridgeId),
    BridgeId(BridgeId),
    RootPort(u16),
    RootPathCost(u32),
    TopologyChange(u8),
    TopologyChangeDetected(u8),
    HelloTimer(u64),
    TcnTimer(u64),
    TopologyChangeTimer(u64),
    GcTimer(u64),
    GroupAddr([u8; 6]),
    MulticastRouter(u8),
    MulticastSnooping(u8),
    MulticastQueryUseIfaddr(u8),
    MulticastQuerier(u8),
    MulticastHashElasticity(u32),
    MulticastHashMax(u32),
    MulticastLastMemberCount(u32),
    MulticastStartupQueryCount(u32),
    MulticastLastMemberInterval(u64),
    MulticastMembershipInterval(u64),
    MulticastQuerierInterval(u64),
    MulticastQueryInterval(u64),
    MulticastQueryResponseInterval(u64),
    MulticastStartupQueryInterval(u64),
    NfCallIpTables(u8),
    NfCallIp6Tables(u8),
    NfCallArpTables(u8),
    VlanDefaultPvid(u16),
    VlanStatsEnabled(u8),
    MulticastStatsEnabled(u8),
    MulticastIgmpVersion(u8),
    MulticastMldVersion(u8),
    VlanStatsPerHost(u8),
    MultiBoolOpt(u64),
    /// Any attribute this catalog has no rule for, kept verbatim.
    Other(DefaultNla),
}

/// The model of an [`InfoBridge`] attribute.
pub enum InfoBridgeModel {
    ForwardDelay(u32),
    HelloTime(u32),
    MaxAge(u32),
    AgeingTime(u32),
    StpState(u32),
    Priority(u16),
    VlanFiltering(bool),
    VlanProtocol(u16),
    GroupFwdMask(u16),
    RootId(BridgeIdModel),
    BridgeId(BridgeIdModel),
    RootPort(u16),
    RootPathCost(u32),
    TopologyChange(u8),
    TopologyChangeDetected(u8),
    HelloTimer(u64),
    TcnTimer(u64),
    TopologyChangeTimer(u64),
    GcTimer(u64),
    GroupAddr(Seq<u8>),
    MulticastRouter(u8),
    MulticastSnooping(u8),
    MulticastQueryUseIfaddr(u8),
    MulticastQuerier(u8),
    MulticastHashElasticity(u32),
    MulticastHashMax(u32),
    MulticastLastMemberCount(u32),
    MulticastStartupQueryCount(u32),
    MulticastLastMemberInterval(u64),
    MulticastMembershipInterval(u64),
    MulticastQuerierInterval(u64),
    MulticastQueryInterval(u64),
    MulticastQueryResponseInterval(u64),
    MulticastStartupQueryInterval(u64),
    NfCallIpTables(u8),
    NfCallIp6Tables(u8),
    NfCallArpTables(u8),
    VlanDefaultPvid(u16),
    VlanStatsEnabled(u8),
    MulticastStatsEnabled(u8),
    MulticastIgmpVersion(u8),
    MulticastMldVersion(u8),
    VlanStatsPerHost(u8),
    MultiBoolOpt(u64),
    Other(DefaultNlaModel),
}

/// Whether this catalog has a rule for the type code.
pub open spec fn spec_info_bridge_known(code: u16) -> bool {
    code == 1 || code == 2 || code == 3 || code == 4 || code == 5 || code == 6 || code == 7 || code == 8 || code == 9 || code == 10 || code == 11 || code == 12 || code == 13 || code == 14 || code == 15 || code == 16 || code == 17 || code == 18 || code == 19 || code == 20 || code == 22 || code == 23 || code == 24 || code == 25 || code == 26 || code == 27 || code == 28 || code == 29 || code == 30 || code == 31 || code == 32 || code == 33 || code == 34 || code == 35 || code == 36 || code == 37 || code == 38 || code == 39 || code == 41 || code == 42 || code == 43 || code == 44 || code == 45 || code == 46
}

impl Nla for InfoBridge {
    type Model = InfoBridgeModel;

    open spec fn model(&self) -> InfoBridgeModel {
        match self {
            InfoBridge::ForwardDelay(x) => InfoBridgeModel::ForwardDelay(*x),
            InfoBridge::HelloTime(x) => InfoBridgeModel::HelloTime(*x),
            InfoBridge::MaxAge(x) => InfoBridgeModel::MaxAge(*x),
            InfoBridge::AgeingTime(x) => InfoBridgeModel::AgeingTime(*x),
            InfoBridge::StpState(x) => InfoBridgeModel::StpState(*x),
            InfoBridge::Priority(x) => InfoBridgeModel::Priority(*x),
            InfoBridge::VlanFiltering(x) => InfoBridgeModel::VlanFiltering(*x),
            InfoBridge::VlanProtocol(x) => InfoBridgeModel::VlanProtocol(*x),
            InfoBridge::GroupFwdMask(x) => InfoBridgeModel::GroupFwdMask(*x),
            InfoBridge::RootId(x) => InfoBridgeModel::RootId(x.model()),
            InfoBridge::BridgeId(x) => InfoBridgeModel::BridgeId(x.model()),
            InfoBridge::RootPort(x) => InfoBridgeModel::RootPort(*x),
            InfoBridge::RootPathCost(x) => InfoBridgeModel::RootPathCost(*x),
            InfoBridge::TopologyChange(x) => InfoBridgeModel::TopologyChange(*x),
            InfoBridge::TopologyChangeDetected(x) => InfoBridgeModel::TopologyChangeDetected(*x),
            InfoBridge::HelloTimer(x) => InfoBridgeModel::HelloTimer(*x),
            InfoBridge::TcnTimer(x) => InfoBridgeModel::TcnTimer(*x),
            InfoBridge::TopologyChangeTimer(x) => InfoBridgeModel::TopologyChangeTimer(*x),
            InfoBridge::GcTimer(x) => InfoBridgeModel::GcTimer(*x),
            InfoBridge::GroupAddr(x) => InfoBridgeModel::GroupAddr(x@),
            InfoBridge::MulticastRouter(x) => InfoBridgeModel::MulticastRouter(*x),
            InfoBridge::MulticastSnooping(x) => InfoBridgeModel::MulticastSnooping(*x),
            InfoBridge::MulticastQueryUseIfaddr(x) => InfoBridgeModel::MulticastQueryUseIfaddr(*x),
            InfoBridge::MulticastQuerier(x) => InfoBridgeModel::MulticastQuerier(*x),
            InfoBridge::MulticastHashElasticity(x) => InfoBridgeModel::MulticastHashElasticity(*x),
            InfoBridge::MulticastHashMax(x) => InfoBridgeModel::MulticastHashMax(*x),
            InfoBridge::MulticastLastMemberCount(x) => InfoBridgeModel::MulticastLastMemberCount(*x),
            InfoBridge::MulticastStartupQueryCount(x) => InfoBridgeModel::MulticastStartupQueryCount(*x),
            InfoBridge::MulticastLastMemberInterval(x) => InfoBridgeModel::MulticastLastMemberInterval(*x),
            InfoBridge::MulticastMembershipInterval(x) => InfoBridgeModel::MulticastMembershipInterval(*x),
            InfoBridge::MulticastQuerierInterval(x) => InfoBridgeModel::MulticastQuerierInterval(*x),
            InfoBridge::MulticastQueryInterval(x) => InfoBridgeModel::MulticastQueryInterval(*x),
            InfoBridge::MulticastQueryResponseInterval(x) => InfoBridgeModel::MulticastQueryResponseInterval(*x),
            InfoBridge::MulticastStartupQueryInterval(x) => InfoBridgeModel::MulticastStartupQueryInterval(*x),
            InfoBridge::NfCallIpTables(x) => InfoBridgeModel::NfCallIpTables(*x),
            InfoBridge::NfCallIp6Tables(x) => InfoBridgeModel::NfCallIp6Tables(*x),
            InfoBridge::NfCallArpTables(x) => InfoBridgeModel::NfCallArpTables(*x),
            InfoBridge::VlanDefaultPvid(x) => InfoBridgeModel::VlanDefaultPvid(*x),
            InfoBridge::VlanStatsEnabled(x) => InfoBridgeModel::VlanStatsEnabled(*x),
            InfoBridge::MulticastStatsEnabled(x) => InfoBridgeModel::MulticastStatsEnabled(*x),
            InfoBridge::MulticastIgmpVersion(x) => InfoBridgeModel::MulticastIgmpVersion(*x),
            InfoBridge::MulticastMldVersion(x) => InfoBridgeModel::MulticastMldVersion(*x),
            InfoBridge::VlanStatsPerHost(x) => InfoBridgeModel::VlanStatsPerHost(*x),
            InfoBridge::MultiBoolOpt(x) => InfoBridgeModel::MultiBoolOpt(*x),
            InfoBridge::Other(n) => InfoBridgeModel::Other(n.model()),
        }
    }

    open spec fn m_wf(x: InfoBridgeModel) -> bool {
        match x {
            InfoBridgeModel::ForwardDelay(_) => true,
            InfoBridgeModel::HelloTime(_) => true,
            InfoBridgeModel::MaxAge(_) => true,
            InfoBridgeModel::AgeingTime(_) => true,
            InfoBridgeModel::StpState(_) => true,
            InfoBridgeModel::Priority(_) => true,
            InfoBridgeModel::VlanFiltering(_) => true,
            InfoBridgeModel::VlanProtocol(_) => true,
            InfoBridgeModel::GroupFwdMask(_) => true,
            InfoBridgeModel::RootId(b) => b.address.len() == 6,
            InfoBridgeModel::BridgeId(b) => b.address.len() == 6,
            InfoBridgeModel::RootPort(_) => true,
            InfoBridgeModel::RootPathCost(_) => true,
            InfoBridgeModel::TopologyChange(_) => true,
            InfoBridgeModel::TopologyChangeDetected(_) => true,
            InfoBridgeModel::HelloTimer(_) => true,
            InfoBridgeModel::TcnTimer(_) => true,
            InfoBridgeModel::TopologyChangeTimer(_) => true,
            InfoBridgeModel::GcTimer(_) => true,
            InfoBridgeModel::GroupAddr(a) => a.len() == 6,
            InfoBridgeModel::MulticastRouter(_) => true,
            InfoBridgeModel::MulticastSnooping(_) => true,
            InfoBridgeModel::MulticastQueryUseIfaddr(_) => true,
            InfoBridgeModel::MulticastQuerier(_) => true,
            InfoBridgeModel::MulticastHashElasticity(_) => true,
            InfoBridgeModel::MulticastHashMax(_) => true,
            InfoBridgeModel::MulticastLastMemberCount(_) => true,
            InfoBridgeModel::MulticastStartupQueryCount(_) => true,
            InfoBridgeModel::MulticastLastMemberInterval(_) => true,
            InfoBridgeModel::MulticastMembershipInterval(_) => true,
            InfoBridgeModel::MulticastQuerierInterval(_) => true,
            InfoBridgeModel::MulticastQueryInterval(_) => true,
            InfoBridgeModel::MulticastQueryResponseInterval(_) => true,
            InfoBridgeModel::MulticastStartupQueryInterval(_) => true,
            InfoBridgeModel::NfCallIpTables(_) => true,
            InfoBridgeModel::NfCallIp6Tables(_) => true,
            InfoBridgeModel::NfCallArpTables(_) => true,
            InfoBridgeModel::VlanDefaultPvid(_) => true,
            InfoBridgeModel::VlanStatsEnabled(_) => true,
            InfoBridgeModel::MulticastStatsEnabled(_) => true,
            InfoBridgeModel::MulticastIgmpVersion(_) => true,
            InfoBridgeModel::MulticastMldVersion(_) => true,
            InfoBridgeModel::VlanStatsPerHost(_) => true,
            InfoBridgeModel::MultiBoolOpt(_) => true,
            InfoBridgeModel::Other(n) => DefaultNla::m_wf(n) && !spec_info_bridge_known(n.code),
        }
    }

    open spec fn m_code(x: InfoBridgeModel) -> u16 {
        match x {
            InfoBridgeModel::ForwardDelay(_) => 1,
            InfoBridgeModel::HelloTime(_) => 2,
            InfoBridgeModel::MaxAge(_) => 3,
            InfoBridgeModel::AgeingTime(_) => 4,
            InfoBridgeModel::StpState(_) => 5,
            InfoBridgeModel::Priority(_) => 6,
            InfoBridgeModel::VlanFiltering(_) => 7,
            InfoBridgeModel::VlanProtocol(_) => 8,
            InfoBridgeModel::GroupFwdMask(_) => 9,
            InfoBridgeModel::RootId(_) => 10,
            InfoBridgeModel::BridgeId(_) => 11,
            InfoBridgeModel::RootPort(_) => 12,
            InfoBridgeModel::RootPathCost(_) => 13,
            InfoBridgeModel::TopologyChange(_) => 14,
            InfoBridgeModel::TopologyChangeDetected(_) => 15,
            InfoBridgeModel::HelloTimer(_) => 16,
            InfoBridgeModel::TcnTimer(_) => 17,
            InfoBridgeModel::TopologyChangeTimer(_) => 18,
            InfoBridgeModel::GcTimer(_) => 19,
            InfoBridgeModel::GroupAddr(_) => 20,
            InfoBridgeModel::MulticastRouter(_) => 22,
            InfoBridgeModel::MulticastSnooping(_) => 23,
            InfoBridgeModel::MulticastQueryUseIfaddr(_) => 24,
            InfoBridgeModel::MulticastQuerier(_) => 25,
            InfoBridgeModel::MulticastHashElasticity(_) => 26,
            InfoBridgeModel::MulticastHashMax(_) => 27,
            InfoBridgeModel::MulticastLastMemberCount(_) => 28,
            InfoBridgeModel::MulticastStartupQueryCount(_) => 29,
            InfoBridgeModel::MulticastLastMemberInterval(_) => 30,
            InfoBridgeModel::MulticastMembershipInterval(_) => 31,
            InfoBridgeModel::MulticastQuerierInterval(_) => 32,
            InfoBridgeModel::MulticastQueryInterval(_) => 33,
            InfoBridgeModel::MulticastQueryResponseInterval(_) => 34,
            InfoBridgeModel::MulticastStartupQueryInterval(_) => 35,
            InfoBridgeModel::NfCallIpTables(_) => 36,
            InfoBridgeModel::NfCallIp6Tables(_) => 37,
            InfoBridgeModel::NfCallArpTables(_) => 38,
            InfoBridgeModel::VlanDefaultPvid(_) => 39,
            InfoBridgeModel::VlanStatsEnabled(_) => 41,
            InfoBridgeModel::MulticastStatsEnabled(_) => 42,
            InfoBridgeModel::MulticastIgmpVersion(_) => 43,
            InfoBridgeModel::MulticastMldVersion(_) => 44,
            InfoBridgeModel::VlanStatsPerHost(_) => 45,
            InfoBridgeModel::MultiBoolOpt(_) => 46,
            InfoBridgeModel::Other(n) => n.code,
        }
    }

    open spec fn m_value(m_: InfoBridgeModel) -> Seq<u8> {
        match m_ {
            InfoBridgeModel::ForwardDelay(x) => spec_u32_to_le_bytes(x),
            InfoBridgeModel::HelloTime(x) => spec_u32_to_le_bytes(x),
            InfoBridgeModel::MaxAge(x) => spec_u32_to_le_bytes(x),
            InfoBridgeModel::AgeingTime(x) => spec_u32_to_le_bytes(x),
            InfoBridgeModel::StpState(x) => spec_u32_to_le_bytes(x),
            InfoBridgeModel::Priority(x) => spec_u16_to_le_bytes(x),
            InfoBridgeModel::VlanFiltering(x) => seq![if x { 1u8 } else { 0u8 }],
            InfoBridgeModel::VlanProtocol(x) => spec_u16_to_be_bytes(x),
            InfoBridgeModel::GroupFwdMask(x) => spec_u16_to_le_bytes(x),
            InfoBridgeModel::RootId(x) => spec_bridge_id_bytes(x),
            InfoBridgeModel::BridgeId(x) => spec_bridge_id_bytes(x),
            InfoBridgeModel::RootPort(x) => spec_u16_to_le_bytes(x),
            InfoBridgeModel::RootPathCost(x) => spec_u32_to_le_bytes(x),
            InfoBridgeModel::TopologyChange(x) => seq![x],
            InfoBridgeModel::TopologyChangeDetected(x) => seq![x],
            InfoBridgeModel::HelloTimer(x) => spec_u64_to_le_bytes(x),
            InfoBridgeModel::TcnTimer(x) => spec_u64_to_le_bytes(x),
            InfoBridgeModel::TopologyChangeTimer(x) => spec_u64_to_le_bytes(x),
            InfoBridgeModel::GcTimer(x) => spec_u64_to_le_bytes(x),
            InfoBridgeModel::GroupAddr(x) => x,
            InfoBridgeModel::MulticastRouter(x) => seq![x],
            InfoBridgeModel::MulticastSnooping(x) => seq![x],
            InfoBridgeModel::MulticastQueryUseIfaddr(x) => seq![x],
            InfoBridgeModel::MulticastQuerier(x) => seq![x],
            InfoBridgeModel::MulticastHashElasticity(x) => spec_u32_to_le_bytes(x),
            InfoBridgeModel::MulticastHashMax(x) => spec_u32_to_le_bytes(x),
            InfoBridgeModel::MulticastLastMemberCount(x) => spec_u32_to_le_bytes(x),
            InfoBridgeModel::MulticastStartupQueryCount(x) => spec_u32_to_le_bytes(x),
            InfoBridgeModel::MulticastLastMemberInterval(x) => spec_u64_to_le_bytes(x),
            InfoBridgeModel::MulticastMembershipInterval(x) => spec_u64_to_le_bytes(x),
            InfoBridgeModel::MulticastQuerierInterval(x) => spec_u64_to_le_bytes(x),
            InfoBridgeModel::MulticastQueryInterval(x) => spec_u64_to_le_bytes(x),
            InfoBridgeModel::MulticastQueryResponseInterval(x) => spec_u64_to_le_bytes(x),
            InfoBridgeModel::MulticastStartupQueryInterval(x) => spec_u64_to_le_bytes(x),
            InfoBridgeModel::NfCallIpTables(x) => seq![x],
            InfoBridgeModel::NfCallIp6Tables(x) => seq![x],
            InfoBridgeModel::NfCallArpTables(x) => seq![x],
            InfoBridgeModel::VlanDefaultPvid(x) => spec_u16_to_le_bytes(x),
            InfoBridgeModel::VlanStatsEnabled(x) => seq![x],
            InfoBridgeModel::MulticastStatsEnabled(x) => seq![x],
            InfoBridgeModel::MulticastIgmpVersion(x) => seq![x],
            InfoBridgeModel::MulticastMldVersion(x) => seq![x],
            InfoBridgeModel::VlanStatsPerHost(x) => seq![x],
            InfoBridgeModel::MultiBoolOpt(x) => spec_u64_to_le_bytes(x),
            InfoBridgeModel::Other(n) => n.value,
        }
    }

    proof fn lemma_wf_len(x: InfoBridgeModel) {
        lemma_auto_spec_u16_to_from_le_bytes();
        lemma_auto_spec_u32_to_from_le_bytes();
        lemma_auto_spec_u64_to_from_le_bytes();
    }

    fn kind(&self) -> u16 {
        match self {
            InfoBridge::ForwardDelay(_) => 1,
            InfoBridge::HelloTime(_) => 2,
            InfoBridge::MaxAge(_) => 3,
            InfoBridge::AgeingTime(_) => 4,
            InfoBridge::StpState(_) => 5,
            InfoBridge::Priority(_) => 6,
            InfoBridge::VlanFiltering(_) => 7,
            InfoBridge::VlanProtocol(_) => 8,
            InfoBridge::GroupFwdMask(_) => 9,
            InfoBridge::RootId(_) => 10,
            InfoBridge::BridgeId(_) => 11,
            InfoBridge::RootPort(_) => 12,
            InfoBridge::RootPathCost(_) => 13,
            InfoBridge::TopologyChange(_) => 14,
            InfoBridge::TopologyChangeDetected(_) => 15,
            InfoBridge::HelloTimer(_) => 16,
            InfoBridge::TcnTimer(_) => 17,
            InfoBridge::TopologyChangeTimer(_) => 18,
            InfoBridge::GcTimer(_) => 19,
            InfoBridge::GroupAddr(_) => 20,
            InfoBridge::MulticastRouter(_) => 22,
            InfoBridge::MulticastSnooping(_) => 23,
            InfoBridge::MulticastQueryUseIfaddr(_) => 24,
            InfoBridge::MulticastQuerier(_) => 25,
            InfoBridge::MulticastHashElasticity(_) => 26,
            InfoBridge::MulticastHashMax(_) => 27,
            InfoBridge::MulticastLastMemberCount(_) => 28,
            InfoBridge::MulticastStartupQueryCount(_) => 29,
            InfoBridge::MulticastLastMemberInterval(_) => 30,
            InfoBridge::MulticastMembershipInterval(_) => 31,
            InfoBridge::MulticastQuerierInterval(_) => 32,
            InfoBridge::MulticastQueryInterval(_) => 33,
            InfoBridge::MulticastQueryResponseInterval(_) => 34,
            InfoBridge::MulticastStartupQueryInterval(_) => 35,
            InfoBridge::NfCallIpTables(_) => 36,
            InfoBridge::NfCallIp6Tables(_) => 37,
            InfoBridge::NfCallArpTables(_) => 38,
            InfoBridge::VlanDefaultPvid(_) => 39,
            InfoBridge::VlanStatsEnabled(_) => 41,
            InfoBridge::MulticastStatsEnabled(_) => 42,
            InfoBridge::MulticastIgmpVersion(_) => 43,
            InfoBridge::MulticastMldVersion(_) => 44,
            InfoBridge::VlanStatsPerHost(_) => 45,
            InfoBridge::MultiBoolOpt(_) => 46,
            InfoBridge::Other(n) => n.kind(),
        }
    }

    fn value_len(&self) -> usize {
        proof {
            lemma_auto_spec_u16_to_from_le_bytes();
            lemma_auto_spec_u32_to_from_le_bytes();
            lemma_auto_spec_u64_to_from_le_bytes();
        }
        match self {
            InfoBridge::ForwardDelay(_) => 4,
            InfoBridge::HelloTime(_) => 4,
            InfoBridge::MaxAge(_) => 4,
            InfoBridge::AgeingTime(_) => 4,
            InfoBridge::StpState(_) => 4,
            InfoBridge::Priority(_) => 2,
            InfoBridge::VlanFiltering(_) => 1,
            InfoBridge::VlanProtocol(_) => 2,
            InfoBridge::GroupFwdMask(_) => 2,
            InfoBridge::RootId(_) => 8,
            InfoBridge::BridgeId(_) => 8,
            InfoBridge::RootPort(_) => 2,
            InfoBridge::RootPathCost(_) => 4,
            InfoBridge::TopologyChange(_) => 1,
            InfoBridge::TopologyChangeDetected(_) => 1,
            InfoBridge::HelloTimer(_) => 8,
            InfoBridge::TcnTimer(_) => 8,
            InfoBridge::TopologyChangeTimer(_) => 8,
            InfoBridge::GcTimer(_) => 8,
            InfoBridge::GroupAddr(_) => 6,
            InfoBridge::MulticastRouter(_) => 1,
            InfoBridge::MulticastSnooping(_) => 1,
            InfoBridge::MulticastQueryUseIfaddr(_) => 1,
            InfoBridge::MulticastQuerier(_) => 1,
            InfoBridge::MulticastHashElasticity(_) => 4,
            InfoBridge::MulticastHashMax(_) => 4,
            InfoBridge::MulticastLastMemberCount(_) => 4,
            InfoBridge::MulticastStartupQueryCount(_) => 4,
            InfoBridge::MulticastLastMemberInterval(_) => 8,
            InfoBridge::MulticastMembershipInterval(_) => 8,
            InfoBridge::MulticastQuerierInterval(_) => 8,
            InfoBridge::MulticastQueryInterval(_) => 8,
            InfoBridge::MulticastQueryResponseInterval(_) => 8,
            InfoBridge::MulticastStartupQueryInterval(_) => 8,
            InfoBridge::NfCallIpTables(_) => 1,
            InfoBridge::NfCallIp6Tables(_) => 1,
            InfoBridge::NfCallArpTables(_) => 1,
            InfoBridge::VlanDefaultPvid(_) => 2,
            InfoBridge::VlanStatsEnabled(_) => 1,
            InfoBridge::MulticastStatsEnabled(_) => 1,
            InfoBridge::MulticastIgmpVersion(_) => 1,
            InfoBridge::MulticastMldVersion(_) => 1,
            InfoBridge::VlanStatsPerHost(_) => 1,
            InfoBridge::MultiBoolOpt(_) => 8,
            InfoBridge::Other(n) => n.value_len(),
        }
    }

    fn emit_value(&self, out: &mut Vec<u8>) {
        match self {
            InfoBridge::ForwardDelay(x) => push_u32_le(out, *x),
            InfoBridge::HelloTime(x) => push_u32_le(out, *x),
            InfoBridge::MaxAge(x) => push_u32_le(out, *x),
            InfoBridge::AgeingTime(x) => push_u32_le(out, *x),
            InfoBridge::StpState(x) => push_u32_le(out, *x),
            InfoBridge::Priority(x) => push_u16_le(out, *x),
            InfoBridge::VlanFiltering(x) => {
                out.push(if *x { 1 } else { 0 });
                assert(out@ =~= old(out)@ + InfoBridge::m_value(self.model()));
            },
            InfoBridge::VlanProtocol(x) => push_u16_be(out, *x),
            InfoBridge::GroupFwdMask(x) => push_u16_le(out, *x),
            InfoBridge::RootId(x) => emit_bridge_id(x, out),
            InfoBridge::BridgeId(x) => emit_bridge_id(x, out),
            InfoBridge::RootPort(x) => push_u16_le(out, *x),
            InfoBridge::RootPathCost(x) => push_u32_le(out, *x),
            InfoBridge::TopologyChange(x) => {
                out.push(*x);
                assert(out@ =~= old(out)@ + InfoBridge::m_value(self.model()));
            },
            InfoBridge::TopologyChangeDetected(x) => {
                out.push(*x);
                assert(out@ =~= old(out)@ + InfoBridge::m_value(self.model()));
            },
            InfoBridge::HelloTimer(x) => push_u64_le(out, *x),
            InfoBridge::TcnTimer(x) => push_u64_le(out, *x),
            InfoBridge::TopologyChangeTimer(x) => push_u64_le(out, *x),
            InfoBridge::GcTimer(x) => push_u64_le(out, *x),
            InfoBridge::GroupAddr(x) => push_addr6(x, out),
            InfoBridge::MulticastRouter(x) => {
                out.push(*x);
                assert(out@ =~= old(out)@ + InfoBridge::m_value(self.model()));
            },
            InfoBridge::MulticastSnooping(x) => {
                out.push(*x);
                assert(out@ =~= old(out)@ + InfoBridge::m_value(self.model()));
            },
            InfoBridge::MulticastQueryUseIfaddr(x) => {
                out.push(*x);
                assert(out@ =~= old(out)@ + InfoBridge::m_value(self.model()));
            },
            InfoBridge::MulticastQuerier(x) => {
                out.push(*x);
                assert(out@ =~= old(out)@ + InfoBridge::m_value(self.model()));
            },
            InfoBridge::MulticastHashElasticity(x) => push_u32_le(out, *x),
            InfoBridge::MulticastHashMax(x) => push_u32_le(out, *x),
            InfoBridge::MulticastLastMemberCount(x) => push_u32_le(out, *x),
            InfoBridge::MulticastStartupQueryCount(x) => push_u32_le(out, *x),
            InfoBridge::MulticastLastMemberInterval(x) => push_u64_le(out, *x),
            InfoBridge::MulticastMembershipInterval(x) => push_u64_le(out, *x),
            InfoBridge::MulticastQuerierInterval(x) => push_u64_le(out, *x),
            InfoBridge::MulticastQueryInterval(x) => push_u64_le(out, *x),
            InfoBridge::MulticastQueryResponseInterval(x) => push_u64_le(out, *x),
            InfoBridge::MulticastStartupQueryInterval(x) => push_u64_le(out, *x),
            InfoBridge::NfCallIpTables(x) => {
                out.push(*x);
                assert(out@ =~= old(out)@ + InfoBridge::m_value(self.model()));
            },
            InfoBridge::NfCallIp6Tables(x) => {
                out.push(*x);
                assert(out@ =~= old(out)@ + InfoBridge::m_value(self.model()));
            },
            InfoBridge::NfCallArpTables(x) => {
                out.push(*x);
                assert(out@ =~= old(out)@ + InfoBridge::m_value(self.model()));
            },
            InfoBridge::VlanDefaultPvid(x) => push_u16_le(out, *x),
            InfoBridge::VlanStatsEnabled(x) => {
                out.push(*x);
                assert(out@ =~= old(out)@ + InfoBridge::m_value(self.model()));
            },
            InfoBridge::MulticastStatsEnabled(x) => {
                out.push(*x);
                assert(out@ =~= old(out)@ + InfoBridge::m_value(self.model()));
            },
            InfoBridge::MulticastIgmpVersion(x) => {
                out.push(*x);
                assert(out@ =~= old(out)@ + InfoBridge::m_value(self.model()));
            },
            InfoBridge::MulticastMldVersion(x) => {
                out.push(*x);
                assert(out@ =~= old(out)@ + InfoBridge::m_value(self.model()));
            },
            InfoBridge::VlanStatsPerHost(x) => {
                out.push(*x);
                assert(out@ =~= old(out)@ + InfoBridge::m_value(self.model()));
            },
            InfoBridge::MultiBoolOpt(x) => push_u64_le(out, *x),
            InfoBridge::Other(n) => n.emit_value(out),
        }
    }
}

impl NlaDecode<()> for InfoBridge {
    open spec fn m_in_scope(x: InfoBridgeModel, ctx: ()) -> bool {
        true
    }

    open spec fn m_resolve(ctx: (), code: u16, value: Seq<u8>) -> Result<InfoBridgeModel, DecodeError> {
        if code == 1 {
            if value.len() == 4 {
                Ok(InfoBridgeModel::ForwardDelay(spec_u32_from_le_bytes(value)))
            } else {
                Err(DecodeError::InvalidField { code })
            }
        } else if code == 2 {
            if value.len() == 4 {
                Ok(InfoBridgeModel::HelloTime(spec_u32_from_le_bytes(value)))
            } else {
                Err(DecodeError::InvalidField { code })
            }
        } else if code == 3 {
            if value.len() == 4 {
                Ok(InfoBridgeModel::MaxAge(spec_u32_from_le_bytes(value)))
            } else {
                Err(DecodeError::InvalidField { code })
            }
        } else if code == 4 {
            if value.len() == 4 {
                Ok(InfoBridgeModel::AgeingTime(spec_u32_from_le_bytes(value)))
            } else {
                Err(DecodeError::InvalidField { code })
            }
        } else if code == 5 {
            if value.len() == 4 {
                Ok(InfoBridgeModel::StpState(spec_u32_from_le_bytes(value)))
            } else {
                Err(DecodeError::InvalidField { code })
            }
        } else if code == 6 {
            if value.len() == 2 {
                Ok(InfoBridgeModel::Priority(spec_u16_from_le_bytes(value)))
            } else {
                Err(DecodeError::InvalidField { code })
            }
        } else if code == 7 {
            if value.len() == 1 && (value[0] == 0 || value[0] == 1) {
                Ok(InfoBridgeModel::VlanFiltering(value[0] == 1))
            } else {
                Err(DecodeError::InvalidField { code })
            }
        } else if code == 8 {
            if value.len() == 2 {
                Ok(InfoBridgeModel::VlanProtocol(spec_u16_from_be_bytes(value)))
            } else {
                Err(DecodeError::InvalidField { code })
            }
        } else if code == 9 {
            if value.len() == 2 {
                Ok(InfoBridgeModel::GroupFwdMask(spec_u16_from_le_bytes(value)))
            } else {
                Err(DecodeError::InvalidField { code })
            }
        } else if code == 10 {
            if value.len() == 8 {
                Ok(InfoBridgeModel::RootId(spec_bridge_id_of(value)))
            } else {
                Err(DecodeError::InvalidField { code })
            }
        } else if code == 11 {
            if value.len() == 8 {
                Ok(InfoBridgeModel::BridgeId(spec_bridge_id_of(value)))
            } else {
                Err(DecodeError::InvalidField { code })
            }
        } else if code == 12 {
            if value.len() == 2 {
                Ok(InfoBridgeModel::RootPort(spec_u16_from_le_bytes(value)))
            } else {
                Err(DecodeError::InvalidField { code })
            }
        } else if code == 13 {
            if value.len() == 4 {
                Ok(InfoBridgeModel::RootPathCost(spec_u32_from_le_bytes(value)))
            } else {
                Err(DecodeError::InvalidField { code })
            }
        } else if code == 14 {
            if value.len() == 1 {
                Ok(InfoBridgeModel::TopologyChange(value[0]))
            } else {
                Err(DecodeError::InvalidField { code })
            }
        } else if code == 15 {
            if value.len() == 1 {
                Ok(InfoBridgeModel::TopologyChangeDetected(value[0]))
            } else {
                Err(DecodeError::InvalidField { code })
            }
        } else if code == 16 {
            if value.len() == 8 {
                Ok(InfoBridgeModel::HelloTimer(spec_u64_from_le_bytes(value)))
            } else {
                Err(DecodeError::InvalidField { code })
            }
        } else if code == 17 {
            if value.len() == 8 {
                Ok(InfoBridgeModel::TcnTimer(spec_u64_from_le_bytes(value)))
            } else {
                Err(DecodeError::InvalidField { code })
            }
        } else if code == 18 {
            if value.len() == 8 {
                Ok(InfoBridgeModel::TopologyChangeTimer(spec_u64_from_le_bytes(value)))
            } else {
                Err(DecodeError::InvalidField { code })
            }
        } else if code == 19 {
            if value.len() == 8 {
                Ok(InfoBridgeModel::GcTimer(spec_u64_from_le_bytes(value)))
            } else {
                Err(DecodeError::InvalidField { code })
            }
        } else if code == 20 {
            if value.len() == 6 {
                Ok(InfoBridgeModel::GroupAddr(value))
            } else {
                Err(DecodeError::InvalidField { code })
            }
        } else if code == 22 {
            if value.len() == 1 {
                Ok(InfoBridgeModel::MulticastRouter(value[0]))
            } else {
                Err(DecodeError::InvalidField { code })
            }
        } else if code == 23 {
            if value.len() == 1 {
                Ok(InfoBridgeModel::MulticastSnooping(value[0]))
            } else {
                Err(DecodeError::InvalidField { code })
            }
        } else if code == 24 {
            if value.len() == 1 {
                Ok(InfoBridgeModel::MulticastQueryUseIfaddr(value[0]))
            } else {
                Err(DecodeError::InvalidField { code })
            }
        } else if code == 25 {
            if value.len() == 1 {
                Ok(InfoBridgeModel::MulticastQuerier(value[0]))
            } else {
                Err(DecodeError::InvalidField { code })
            }
        } else if code == 26 {
            if value.len() == 4 {
                Ok(InfoBridgeModel::MulticastHashElasticity(spec_u32_from_le_bytes(value)))
            } else {
                Err(DecodeError::InvalidField { code })
            }
        } else if code == 27 {
            if value.len() == 4 {
                Ok(InfoBridgeModel::MulticastHashMax(spec_u32_from_le_bytes(value)))
            } else {
                Err(DecodeError::InvalidField { code })
            }
        } else if code == 28 {
            if value.len() == 4 {
                Ok(InfoBridgeModel::MulticastLastMemberCount(spec_u32_from_le_bytes(value)))
            } else {
                Err(DecodeError::InvalidField { code })
            }
        } else if code == 29 {
            if value.len() == 4 {
                Ok(InfoBridgeModel::MulticastStartupQueryCount(spec_u32_from_le_bytes(value)))
            } else {
                Err(DecodeError::InvalidField { code })
            }
        } else if code == 30 {
            if value.len() == 8 {
                Ok(InfoBridgeModel::MulticastLastMemberInterval(spec_u64_from_le_bytes(value)))
            } else {
                Err(DecodeError::InvalidField { code })
            }
        } else if code == 31 {
            if value.len() == 8 {
                Ok(InfoBridgeModel::MulticastMembershipInterval(spec_u64_from_le_bytes(value)))
            } else {
                Err(DecodeError::InvalidField { code })
            }
        } else if code == 32 {
            if value.len() == 8 {
                Ok(InfoBridgeModel::MulticastQuerierInterval(spec_u64_from_le_bytes(value)))
            } else {
                Err(DecodeError::InvalidField { code })
            }
        } else if code == 33 {
            if value.len() == 8 {
                Ok(InfoBridgeModel::MulticastQueryInterval(spec_u64_from_le_bytes(value)))
            } else {
                Err(DecodeError::InvalidField { code })
            }
        } else if code == 34 {
            if value.len() == 8 {
                Ok(InfoBridgeModel::MulticastQueryResponseInterval(spec_u64_from_le_bytes(value)))
            } else {
                Err(DecodeError::InvalidField { code })
            }
        } else if code == 35 {
            if value.len() == 8 {
                Ok(InfoBridgeModel::MulticastStartupQueryInterval(spec_u64_from_le_bytes(value)))
            } else {
                Err(DecodeError::InvalidField { code })
            }
        } else if code == 36 {
            if value.len() == 1 {
                Ok(InfoBridgeModel::NfCallIpTables(value[0]))
            } else {
                Err(DecodeError::InvalidField { code })
            }
        } else if code == 37 {
            if value.len() == 1 {
                Ok(InfoBridgeModel::NfCallIp6Tables(value[0]))
            } else {
                Err(DecodeError::InvalidField { code })
            }
        } else if code == 38 {
            if value.len() == 1 {
                Ok(InfoBridgeModel::NfCallArpTables(value[0]))
            } else {
                Err(DecodeError::InvalidField { code })
            }
        } else if code == 39 {
            if value.len() == 2 {
                Ok(InfoBridgeModel::VlanDefaultPvid(spec_u16_from_le_bytes(value)))
            } else {
                Err(DecodeError::InvalidField { code })
            }
        } else if code == 41 {
            if value.len() == 1 {
                Ok(InfoBridgeModel::VlanStatsEnabled(value[0]))
            } else {
                Err(DecodeError::InvalidField { code })
            }
        } else if code == 42 {
            if value.len() == 1 {
                Ok(InfoBridgeModel::MulticastStatsEnabled(value[0]))
            } else {
                Err(DecodeError::InvalidField { code })
            }
        } else if code == 43 {
            if value.len() == 1 {
                Ok(InfoBridgeModel::MulticastIgmpVersion(value[0]))
            } else {
                Err(DecodeError::InvalidField { code })
            }
        } else if code == 44 {
            if value.len() == 1 {
                Ok(InfoBridgeModel::MulticastMldVersion(value[0]))
            } else {
                Err(DecodeError::InvalidField { code })
            }
        } else if code == 45 {
            if value.len() == 1 {
                Ok(InfoBridgeModel::VlanStatsPerHost(value[0]))
            } else {
                Err(DecodeError::InvalidField { code })
            }
        } else if code == 46 {
            if value.len() == 8 {
                Ok(InfoBridgeModel::MultiBoolOpt(spec_u64_from_le_bytes(value)))
            } else {
                Err(DecodeError::InvalidField { code })
            }
        } else {
            Ok(InfoBridgeModel::Other(DefaultNlaModel { code, value }))
        }
    }

    open spec fn v_canon(ctx: (), code: u16, value: Seq<u8>) -> bool {
        true
    }

    proof fn lemma_resolve_project(ctx: (), code: u16, value: Seq<u8>) {
        lemma_auto_spec_u16_to_from_le_bytes();
        lemma_auto_spec_u32_to_from_le_bytes();
        lemma_auto_spec_u64_to_from_le_bytes();
        lemma_u16_be_inverse();
        match Self::m_resolve(ctx, code, value) {
            Ok(x) => {
                assert(Self::m_value(x) =~= value);
            },
            Err(_) => {},
        }
    }

    proof fn lemma_project_resolve(x: InfoBridgeModel, ctx: ()) {
        lemma_auto_spec_u16_to_from_le_bytes();
        lemma_auto_spec_u32_to_from_le_bytes();
        lemma_auto_spec_u64_to_from_le_bytes();
        lemma_u16_be_inverse();
        match x {
            InfoBridgeModel::ForwardDelay(y) => {
                assert(Self::m_resolve(ctx, 1, Self::m_value(x)) == Ok::<InfoBridgeModel, DecodeError>(x));
            },
            InfoBridgeModel::HelloTime(y) => {
                assert(Self::m_resolve(ctx, 2, Self::m_value(x)) == Ok::<InfoBridgeModel, DecodeError>(x));
            },
            InfoBridgeModel::MaxAge(y) => {
                assert(Self::m_resolve(ctx, 3, Self::m_value(x)) == Ok::<InfoBridgeModel, DecodeError>(x));
            },
            InfoBridgeModel::AgeingTime(y) => {
                assert(Self::m_resolve(ctx, 4, Self::m_value(x)) == Ok::<InfoBridgeModel, DecodeError>(x));
            },
            InfoBridgeModel::StpState(y) => {
                assert(Self::m_resolve(ctx, 5, Self::m_value(x)) == Ok::<InfoBridgeModel, DecodeError>(x));
            },
            InfoBridgeModel::Priority(y) => {
                assert(Self::m_resolve(ctx, 6, Self::m_value(x)) == Ok::<InfoBridgeModel, DecodeError>(x));
            },
            InfoBridgeModel::VlanFiltering(y) => {
                assert(Self::m_resolve(ctx, 7, Self::m_value(x)) == Ok::<InfoBridgeModel, DecodeError>(x));
            },
            InfoBridgeModel::VlanProtocol(y) => {
                assert(Self::m_resolve(ctx, 8, Self::m_value(x)) == Ok::<InfoBridgeModel, DecodeError>(x));
            },
            InfoBridgeModel::GroupFwdMask(y) => {
                assert(Self::m_resolve(ctx, 9, Self::m_value(x)) == Ok::<InfoBridgeModel, DecodeError>(x));
            },
            InfoBridgeModel::RootId(b) => {
                lemma_bridge_id_inverse(b);
            },
            InfoBridgeModel::BridgeId(b) => {
                lemma_bridge_id_inverse(b);
            },
            InfoBridgeModel::RootPort(y) => {
                assert(Self::m_resolve(ctx, 12, Self::m_value(x)) == Ok::<InfoBridgeModel, DecodeError>(x));
            },
            InfoBridgeModel::RootPathCost(y) => {
                assert(Self::m_resolve(ctx, 13, Self::m_value(x)) == Ok::<InfoBridgeModel, DecodeError>(x));
            },
            InfoBridgeModel::TopologyChange(y) => {
                assert(Self::m_resolve(ctx, 14, Self::m_value(x)) == Ok::<InfoBridgeModel, DecodeError>(x));
            },
            InfoBridgeModel::TopologyChangeDetected(y) => {
                assert(Self::m_resolve(ctx, 15, Self::m_value(x)) == Ok::<InfoBridgeModel, DecodeError>(x));
            },
            InfoBridgeModel::HelloTimer(y) => {
                assert(Self::m_resolve(ctx, 16, Self::m_value(x)) == Ok::<InfoBridgeModel, DecodeError>(x));
            },
            InfoBridgeModel::TcnTimer(y) => {
                assert(Self::m_resolve(ctx, 17, Self::m_value(x)) == Ok::<InfoBridgeModel, DecodeError>(x));
            },
            InfoBridgeModel::TopologyChangeTimer(y) => {
                assert(Self::m_resolve(ctx, 18, Self::m_value(x)) == Ok::<InfoBridgeModel, DecodeError>(x));
            },
            InfoBridgeModel::GcTimer(y) => {
                assert(Self::m_resolve(ctx, 19, Self::m_value(x)) == Ok::<InfoBridgeModel, DecodeError>(x));
            },
            InfoBridgeModel::GroupAddr(y) => {
                assert(Self::m_resolve(ctx, 20, Self::m_value(x)) == Ok::<InfoBridgeModel, DecodeError>(x));
            },
            InfoBridgeModel::MulticastRouter(y) => {
                assert(Self::m_resolve(ctx, 22, Self::m_value(x)) == Ok::<InfoBridgeModel, DecodeError>(x));
            },
            InfoBridgeModel::MulticastSnooping(y) => {
                assert(Self::m_resolve(ctx, 23, Self::m_value(x)) == Ok::<InfoBridgeModel, DecodeError>(x));
            },
            InfoBridgeModel::MulticastQueryUseIfaddr(y) => {
                assert(Self::m_resolve(ctx, 24, Self::m_value(x)) == Ok::<InfoBridgeModel, DecodeError>(x));
            },
            InfoBridgeModel::MulticastQuerier(y) => {
                assert(Self::m_resolve(ctx, 25, Self::m_value(x)) == Ok::<InfoBridgeModel, DecodeError>(x));
            },
            InfoBridgeModel::MulticastHashElasticity(y) => {
                assert(Self::m_resolve(ctx, 26, Self::m_value(x)) == Ok::<InfoBridgeModel, DecodeError>(x));
            },
            InfoBridgeModel::MulticastHashMax(y) => {
                assert(Self::m_resolve(ctx, 27, Self::m_value(x)) == Ok::<InfoBridgeModel, DecodeError>(x));
            },
            InfoBridgeModel::MulticastLastMemberCount(y) => {
                assert(Self::m_resolve(ctx, 28, Self::m_value(x)) == Ok::<InfoBridgeModel, DecodeError>(x));
            },
            InfoBridgeModel::MulticastStartupQueryCount(y) => {
                assert(Self::m_resolve(ctx, 29, Self::m_value(x)) == Ok::<InfoBridgeModel, DecodeError>(x));
            },
            InfoBridgeModel::MulticastLastMemberInterval(y) => {
                assert(Self::m_resolve(ctx, 30, Self::m_value(x)) == Ok::<InfoBridgeModel, DecodeError>(x));
            },
            InfoBridgeModel::MulticastMembershipInterval(y) => {
                assert(Self::m_resolve(ctx, 31, Self::m_value(x)) == Ok::<InfoBridgeModel, DecodeError>(x));
            },
            InfoBridgeModel::MulticastQuerierInterval(y) => {
                assert(Self::m_resolve(ctx, 32, Self::m_value(x)) == Ok::<InfoBridgeModel, DecodeError>(x));
            },
            InfoBridgeModel::MulticastQueryInterval(y) => {
                assert(Self::m_resolve(ctx, 33, Self::m_value(x)) == Ok::<InfoBridgeModel, DecodeError>(x));
            },
            InfoBridgeModel::MulticastQueryResponseInterval(y) => {
                assert(Self::m_resolve(ctx, 34, Self::m_value(x)) == Ok::<InfoBridgeModel, DecodeError>(x));
            },
            InfoBridgeModel::MulticastStartupQueryInterval(y) => {
                assert(Self::m_resolve(ctx, 35, Self::m_value(x)) == Ok::<InfoBridgeModel, DecodeError>(x));
            },
            InfoBridgeModel::NfCallIpTables(y) => {
                assert(Self::m_resolve(ctx, 36, Self::m_value(x)) == Ok::<InfoBridgeModel, DecodeError>(x));
            },
            InfoBridgeModel::NfCallIp6Tables(y) => {
                assert(Self::m_resolve(ctx, 37, Self::m_value(x)) == Ok::<InfoBridgeModel, DecodeError>(x));
            },
            InfoBridgeModel::NfCallArpTables(y) => {
                assert(Self::m_resolve(ctx, 38, Self::m_value(x)) == Ok::<InfoBridgeModel, DecodeError>(x));
            },
            InfoBridgeModel::VlanDefaultPvid(y) => {
                assert(Self::m_resolve(ctx, 39, Self::m_value(x)) == Ok::<InfoBridgeModel, DecodeError>(x));
            },
            InfoBridgeModel::VlanStatsEnabled(y) => {
                assert(Self::m_resolve(ctx, 41, Self::m_value(x)) == Ok::<InfoBridgeModel, DecodeError>(x));
            },
            InfoBridgeModel::MulticastStatsEnabled(y) => {
                assert(Self::m_resolve(ctx, 42, Self::m_value(x)) == Ok::<InfoBridgeModel, DecodeError>(x));
            },
            InfoBridgeModel::MulticastIgmpVersion(y) => {
                assert(Self::m_resolve(ctx, 43, Self::m_value(x)) == Ok::<InfoBridgeModel, DecodeError>(x));
            },
            InfoBridgeModel::MulticastMldVersion(y) => {
                assert(Self::m_resolve(ctx, 44, Self::m_value(x)) == Ok::<InfoBridgeModel, DecodeError>(x));
            },
            InfoBridgeModel::VlanStatsPerHost(y) => {
                assert(Self::m_resolve(ctx, 45, Self::m_value(x)) == Ok::<InfoBridgeModel, DecodeError>(x));
            },
            InfoBridgeModel::MultiBoolOpt(y) => {
                assert(Self::m_resolve(ctx, 46, Self::m_value(x)) == Ok::<InfoBridgeModel, DecodeError>(x));
            },
            InfoBridgeModel::Other(_) => {},
        }
    }

    fn parse(ctx: &(), code: u16, value: &[u8]) -> Result<InfoBridge, DecodeError> {
        if code == 1 {
            match read_u32_le(value) { Some(y) => Ok(InfoBridge::ForwardDelay(y)), None => Err(DecodeError::InvalidField { code }) }
        } else if code == 2 {
            match read_u32_le(value) { Some(y) => Ok(InfoBridge::HelloTime(y)), None => Err(DecodeError::InvalidField { code }) }
        } else if code == 3 {
            match read_u32_le(value) { Some(y) => Ok(InfoBridge::MaxAge(y)), None => Err(DecodeError::InvalidField { code }) }
        } else if code == 4 {
            match read_u32_le(value) { Some(y) => Ok(InfoBridge::AgeingTime(y)), None => Err(DecodeError::InvalidField { code }) }
        } else if code == 5 {
            match read_u32_le(value) { Some(y) => Ok(InfoBridge::StpState(y)), None => Err(DecodeError::InvalidField { code }) }
        } else if code == 6 {
            match read_u16_le(value) { Some(y) => Ok(InfoBridge::Priority(y)), None => Err(DecodeError::InvalidField { code }) }
        } else if code == 7 {
            match read_bool(value) { Some(y) => Ok(InfoBridge::VlanFiltering(y)), None => Err(DecodeError::InvalidField { code }) }
        } else if code == 8 {
            match read_u16_be(value) { Some(y) => Ok(InfoBridge::VlanProtocol(y)), None => Err(DecodeError::InvalidField { code }) }
        } else if code == 9 {
            match read_u16_le(value) { Some(y) => Ok(InfoBridge::GroupFwdMask(y)), None => Err(DecodeError::InvalidField { code }) }
        } else if code == 10 {
            match parse_bridge_id(value) { Some(y) => Ok(InfoBridge::RootId(y)), None => Err(DecodeError::InvalidField { code }) }
        } else if code == 11 {
            match parse_bridge_id(value) { Some(y) => Ok(InfoBridge::BridgeId(y)), None => Err(DecodeError::InvalidField { code }) }
        } else if code == 12 {
            match read_u16_le(value) { Some(y) => Ok(InfoBridge::RootPort(y)), None => Err(DecodeError::InvalidField { code }) }
        } else if code == 13 {
            match read_u32_le(value) { Some(y) => Ok(InfoBridge::RootPathCost(y)), None => Err(DecodeError::InvalidField { code }) }
        } else if code == 14 {
            match read_u8(value) { Some(y) => Ok(InfoBridge::TopologyChange(y)), None => Err(DecodeError::InvalidField { code }) }
        } else if code == 15 {
            match read_u8(value) { Some(y) => Ok(InfoBridge::TopologyChangeDetected(y)), None => Err(DecodeError::InvalidField { code }) }
        } else if code == 16 {
            match read_u64_le(value) { Some(y) => Ok(InfoBridge::HelloTimer(y)), None => Err(DecodeError::InvalidField { code }) }
        } else if code == 17 {
            match read_u64_le(value) { Some(y) => Ok(InfoBridge::TcnTimer(y)), None => Err(DecodeError::InvalidField { code }) }
        } else if code == 18 {
            match read_u64_le(value) { Some(y) => Ok(InfoBridge::TopologyChangeTimer(y)), None => Err(DecodeError::InvalidField { code }) }
        } else if code == 19 {
            match read_u64_le(value) { Some(y) => Ok(InfoBridge::GcTimer(y)), None => Err(DecodeError::InvalidField { code }) }
        } else if code == 20 {
            match read_addr6(value) { Some(y) => Ok(InfoBridge::GroupAddr(y)), None => Err(DecodeError::InvalidField { code }) }
        } else if code == 22 {
            match read_u8(value) { Some(y) => Ok(InfoBridge::MulticastRouter(y)), None => Err(DecodeError::InvalidField { code }) }
        } else if code == 23 {
            match read_u8(value) { Some(y) => Ok(InfoBridge::MulticastSnooping(y)), None => Err(DecodeError::InvalidField { code }) }
        } else if code == 24 {
            match read_u8(value) { Some(y) => Ok(InfoBridge::MulticastQueryUseIfaddr(y)), None => Err(DecodeError::InvalidField { code }) }
        } else if code == 25 {
            match read_u8(value) { Some(y) => Ok(InfoBridge::MulticastQuerier(y)), None => Err(DecodeError::InvalidField { code }) }
        } else if code == 26 {
            match read_u32_le(value) { Some(y) => Ok(InfoBridge::MulticastHashElasticity(y)), None => Err(DecodeError::InvalidField { code }) }
        } else if code == 27 {
            match read_u32_le(value) { Some(y) => Ok(InfoBridge::MulticastHashMax(y)), None => Err(DecodeError::InvalidField { code }) }
        } else if code == 28 {
            match read_u32_le(value) { Some(y) => Ok(InfoBridge::MulticastLastMemberCount(y)), None => Err(DecodeError::InvalidField { code }) }
        } else if code == 29 {
            match read_u32_le(value) { Some(y) => Ok(InfoBridge::MulticastStartupQueryCount(y)), None => Err(DecodeError::InvalidField { code }) }
        } else if code == 30 {
            match read_u64_le(value) { Some(y) => Ok(InfoBridge::MulticastLastMemberInterval(y)), None => Err(DecodeError::InvalidField { code }) }
        } else if code == 31 {
            match read_u64_le(value) { Some(y) => Ok(InfoBridge::MulticastMembershipInterval(y)), None => Err(DecodeError::InvalidField { code }) }
        } else if code == 32 {
            match read_u64_le(value) { Some(y) => Ok(InfoBridge::MulticastQuerierInterval(y)), None => Err(DecodeError::InvalidField { code }) }
        } else if code == 33 {
            match read_u64_le(value) { Some(y) => Ok(InfoBridge::MulticastQueryInterval(y)), None => Err(DecodeError::InvalidField { code }) }
        } else if code == 34 {
            match read_u64_le(value) { Some(y) => Ok(InfoBridge::MulticastQueryResponseInterval(y)), None => Err(DecodeError::InvalidField { code }) }
        } else if code == 35 {
            match read_u64_le(value) { Some(y) => Ok(InfoBridge::MulticastStartupQueryInterval(y)), None => Err(DecodeError::InvalidField { code }) }
        } else if code == 36 {
            match read_u8(value) { Some(y) => Ok(InfoBridge::NfCallIpTables(y)), None => Err(DecodeError::InvalidField { code }) }
        } else if code == 37 {
            match read_u8(value) { Some(y) => Ok(InfoBridge::NfCallIp6Tables(y)), None => Err(DecodeError::InvalidField { code }) }
        } else if code == 38 {
            match read_u8(value) { Some(y) => Ok(InfoBridge::NfCallArpTables(y)), None => Err(DecodeError::InvalidField { code }) }
        } else if code == 39 {
            match read_u16_le(value) { Some(y) => Ok(InfoBridge::VlanDefaultPvid(y)), None => Err(DecodeError::InvalidField { code }) }
        } else if code == 41 {
            match read_u8(value) { Some(y) => Ok(InfoBridge::VlanStatsEnabled(y)), None => Err(DecodeError::InvalidField { code }) }
        } else if code == 42 {
            match read_u8(value) { Some(y) => Ok(InfoBridge::MulticastStatsEnabled(y)), None => Err(DecodeError::InvalidField { code }) }
        } else if code == 43 {
            match read_u8(value) { Some(y) => Ok(InfoBridge::MulticastIgmpVersion(y)), None => Err(DecodeError::InvalidField { code }) }
        } else if code == 44 {
            match read_u8(value) { Some(y) => Ok(InfoBridge::MulticastMldVersion(y)), None => Err(DecodeError::InvalidField { code }) }
        } else if code == 45 {
            match read_u8(value) { Some(y) => Ok(InfoBridge::VlanStatsPerHost(y)), None => Err(DecodeError::InvalidField { code }) }
        } else if code == 46 {
            match read_u64_le(value) { Some(y) => Ok(InfoBridge::MultiBoolOpt(y)), None => Err(DecodeError::InvalidField { code }) }
        } else {
            match <DefaultNla as NlaDecode<()>>::parse(ctx, code, value) {
                Ok(n) => Ok(InfoBridge::Other(n)),
                Err(e) => Err(e),
            }
        }
    }
}
} // verus!
