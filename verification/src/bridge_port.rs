//! Bridge port attributes: the spanning-tree state and the per-port
//! configuration nested inside a link-info port-data block.

use vstd::prelude::*;
use vstd::bytes::{
    spec_u16_from_le_bytes, spec_u16_to_le_bytes, spec_u32_from_le_bytes, spec_u32_to_le_bytes,
    spec_u64_from_le_bytes, spec_u64_to_le_bytes, lemma_auto_spec_u16_to_from_le_bytes,
    lemma_auto_spec_u32_to_from_le_bytes, lemma_auto_spec_u64_to_from_le_bytes,
};
use crate::bridge_info::{
    BridgeId, BridgeIdModel, spec_bridge_id_bytes, spec_bridge_id_of, lemma_bridge_id_inverse,
    parse_bridge_id, emit_bridge_id,
};
use crate::error::DecodeError;
use crate::fallback::{DefaultNla, DefaultNlaModel};
use crate::nla::{Nla, NlaDecode};
use crate::values::{
    lemma_u16_be_inverse, read_u8, read_bool, read_u16_le, read_u16_be, read_u32_le, read_u64_le,
    push_u16_le, push_u16_be, push_u32_le, push_u64_le,
};

verus! {

/// The spanning-tree state of a bridge port, one byte on the wire.
#[derive(Debug, PartialEq, Eq, Clone, Copy)]
pub enum BridgePortState {
    Disabled,
    Listening,
    Learning,
    Forwarding,
    Blocking,
    /// Any other state byte, kept verbatim.
    Other(u8),
}

/// The byte a port state is written as.
pub open spec fn spec_bridge_port_state_byte(s: BridgePortState) -> u8 {
    match s {
        BridgePortState::Disabled => 0,
        BridgePortState::Listening => 1,
        BridgePortState::Learning => 2,
        BridgePortState::Forwarding => 3,
        BridgePortState::Blocking => 4,
        BridgePortState::Other(b) => b,
    }
}

/// The port state a byte decodes to.
pub open spec fn spec_bridge_port_state_of_byte(b: u8) -> BridgePortState {
    if b == 0 {
        BridgePortState::Disabled
    } else if b == 1 {
        BridgePortState::Listening
    } else if b == 2 {
        BridgePortState::Learning
    } else if b == 3 {
        BridgePortState::Forwarding
    } else if b == 4 {
        BridgePortState::Blocking
    } else {
        BridgePortState::Other(b)
    }
}

/// The fallback arm carries only bytes without a name of their own.
pub open spec fn spec_bridge_port_state_wf(s: BridgePortState) -> bool {
    match s {
        BridgePortState::Other(b) => b > 4,
        _ => true,
    }
}

/// The two port state conversions invert each other.
pub proof fn lemma_bridge_port_state_inverse()
    ensures
        forall|s: BridgePortState|
            spec_bridge_port_state_wf(s) ==> spec_bridge_port_state_of_byte(
                #[trigger] spec_bridge_port_state_byte(s),
            ) == s,
        forall|b: u8| spec_bridge_port_state_byte(#[trigger] spec_bridge_port_state_of_byte(b))
            == b,
        forall|b: u8| spec_bridge_port_state_wf(#[trigger] spec_bridge_port_state_of_byte(b)),
{
}

/// The byte this port state is written as.
pub fn bridge_port_state_byte(s: &BridgePortState) -> (r: u8)
    ensures
        r == spec_bridge_port_state_byte(*s),
{
    match s {
        BridgePortState::Disabled => 0,
        BridgePortState::Listening => 1,
        BridgePortState::Learning => 2,
        BridgePortState::Forwarding => 3,
        BridgePortState::Blocking => 4,
        BridgePortState::Other(b) => *b,
    }
}

/// The port state this byte decodes to.
pub fn bridge_port_state_of_byte(b: u8) -> (r: BridgePortState)
    ensures
        r == spec_bridge_port_state_of_byte(b),
{
    if b == 0 {
        BridgePortState::Disabled
    } else if b == 1 {
        BridgePortState::Listening
    } else if b == 2 {
        BridgePortState::Learning
    } else if b == 3 {
        BridgePortState::Forwarding
    } else if b == 4 {
        BridgePortState::Blocking
    } else {
        BridgePortState::Other(b)
    }
}

/// The multicast router mode of a bridge port, one byte on the wire.
#[derive(Debug, PartialEq, Eq, Clone, Copy)]
pub enum BridgePortMulticastRouter {
    Disabled,
    TempQuery,
    Perm,
    Temp,
    /// Any other mode byte, kept verbatim.
    Other(u8),
}

/// The byte a router mode is written as.
pub open spec fn spec_bridge_port_mrouter_byte(s: BridgePortMulticastRouter) -> u8 {
    match s {
        BridgePortMulticastRouter::Disabled => 0,
        BridgePortMulticastRouter::TempQuery => 1,
        BridgePortMulticastRouter::Perm => 2,
        BridgePortMulticastRouter::Temp => 3,
        BridgePortMulticastRouter::Other(b) => b,
    }
}

/// The router mode a byte decodes to.
pub open spec fn spec_bridge_port_mrouter_of_byte(b: u8) -> BridgePortMulticastRouter {
    if b == 0 {
        BridgePortMulticastRouter::Disabled
    } else if b == 1 {
        BridgePortMulticastRouter::TempQuery
    } else if b == 2 {
        BridgePortMulticastRouter::Perm
    } else if b == 3 {
        BridgePortMulticastRouter::Temp
    } else {
        BridgePortMulticastRouter::Other(b)
    }
}

/// The fallback arm carries only bytes without a name of their own.
pub open spec fn spec_bridge_port_mrouter_wf(s: BridgePortMulticastRouter) -> bool {
    match s {
        BridgePortMulticastRouter::Other(b) => b > 3,
        _ => true,
    }
}

/// The two router mode conversions invert each other.
pub proof fn lemma_bridge_port_mrouter_inverse()
    ensures
        forall|s: BridgePortMulticastRouter|
            spec_bridge_port_mrouter_wf(s) ==> spec_bridge_port_mrouter_of_byte(
                #[trigger] spec_bridge_port_mrouter_byte(s),
            ) == s,
        forall|b: u8| spec_bridge_port_mrouter_byte(
            #[trigger] spec_bridge_port_mrouter_of_byte(b),
        ) == b,
        forall|b: u8| spec_bridge_port_mrouter_wf(#[trigger] spec_bridge_port_mrouter_of_byte(b)),
{
}

/// The byte this router mode is written as.
pub fn bridge_port_mrouter_byte(s: &BridgePortMulticastRouter) -> (r: u8)
    ensures
        r == spec_bridge_port_mrouter_byte(*s),
{
    match s {
        BridgePortMulticastRouter::Disabled => 0,
        BridgePortMulticastRouter::TempQuery => 1,
        BridgePortMulticastRouter::Perm => 2,
        BridgePortMulticastRouter::Temp => 3,
        BridgePortMulticastRouter::Other(b) => *b,
    }
}

/// The router mode this byte decodes to.
pub fn bridge_port_mrouter_of_byte(b: u8) -> (r: BridgePortMulticastRouter)
    ensures
        r == spec_bridge_port_mrouter_of_byte(b),
{
    if b == 0 {
        BridgePortMulticastRouter::Disabled
    } else if b == 1 {
        BridgePortMulticastRouter::TempQuery
    } else if b == 2 {
        BridgePortMulticastRouter::Perm
    } else if b == 3 {
        BridgePortMulticastRouter::Temp
    } else {
        BridgePortMulticastRouter::Other(b)
    }
}

/// One attribute of a bridge port's link-info port-data block.
#[derive(Debug, PartialEq, Eq, Clone)]
pub enum InfoBridgePort {
    State(BridgePortState),
    Priority(u16),
    Cost(u32),
    HairpinMode(bool),
    Guard(bool),
    Protect(bool),
    FastLeave(bool),
    Learning(bool),
    UnicastFlood(bool),
    ProxyARP(bool),
    ProxyARPWifi(bool),
    RootId(BridgeId),
    BridgeId(BridgeId),
    DesignatedPort(u16),
    DesignatedCost(u16),
    PortId(u16),
    PortNumber(u16),
    TopologyChangeAck(bool),
    ConfigPending(bool),
    MessageAgeTimer(u64),
    ForwardDelayTimer(u64),
    HoldTimer(u64),
    MulticastRouter(BridgePortMulticastRouter),
    MulticastFlood(bool),
    MulticastToUnicast(bool),
    VlanTunnel(bool),
    BroadcastFlood(bool),
    GroupFwdMask(u16),
    NeighSupress(bool),
    Isolated(bool),
    MrpRingOpen(bool),
    MrpInOpen(bool),
    MulticastEhtHostsLimit(u32),
    MulticastEhtHostsCnt(u32),
    Locked(bool),
    Mab(bool),
    MulticastNGroups(u32),
    MulticastMaxGroups(u32),
    /// Any attribute this catalog has no rule for, kept verbatim.
    Other(DefaultNla),
}

/// The model of an [`InfoBridgePort`] attribute.
pub enum InfoBridgePortModel {
    State(BridgePortState),
    Priority(u16),
    Cost(u32),
    HairpinMode(bool),
    Guard(bool),
    Protect(bool),
    FastLeave(bool),
    Learning(bool),
    UnicastFlood(bool),
    ProxyARP(bool),
    ProxyARPWifi(bool),
    RootId(BridgeIdModel),
    BridgeId(BridgeIdModel),
    DesignatedPort(u16),
    DesignatedCost(u16),
    PortId(u16),
    PortNumber(u16),
    TopologyChangeAck(bool),
    ConfigPending(bool),
    MessageAgeTimer(u64),
    ForwardDelayTimer(u64),
    HoldTimer(u64),
    MulticastRouter(BridgePortMulticastRouter),
    MulticastFlood(bool),
    MulticastToUnicast(bool),
    VlanTunnel(bool),
    BroadcastFlood(bool),
    GroupFwdMask(u16),
    NeighSupress(bool),
    Isolated(bool),
    MrpRingOpen(bool),
    MrpInOpen(bool),
    MulticastEhtHostsLimit(u32),
    MulticastEhtHostsCnt(u32),
    Locked(bool),
    Mab(bool),
    MulticastNGroups(u32),
    MulticastMaxGroups(u32),
    Other(DefaultNlaModel),
}

/// Whether this catalog has a rule for the type code.
pub open spec fn spec_info_bridge_port_known(code: u16) -> bool {
    code == 1 || code == 2 || code == 3 || code == 4 || code == 5 || code == 6 || code == 7 || code == 8 || code == 9 || code == 10 || code == 12 || code == 13 || code == 14 || code == 15 || code == 16 || code == 17 || code == 18 || code == 19 || code == 20 || code == 21 || code == 22 || code == 23 || code == 25 || code == 27 || code == 28 || code == 29 || code == 30 || code == 31 || code == 32 || code == 33 || code == 35 || code == 36 || code == 37 || code == 38 || code == 39 || code == 40 || code == 41 || code == 42
}

impl Nla for InfoBridgePort {
    type Model = InfoBridgePortModel;

    open spec fn model(&self) -> InfoBridgePortModel {
        match self {
            InfoBridgePort::State(x) => InfoBridgePortModel::State(*x),
            InfoBridgePort::Priority(x) => InfoBridgePortModel::Priority(*x),
            InfoBridgePort::Cost(x) => InfoBridgePortModel::Cost(*x),
            InfoBridgePort::HairpinMode(x) => InfoBridgePortModel::HairpinMode(*x),
            InfoBridgePort::Guard(x) => InfoBridgePortModel::Guard(*x),
            InfoBridgePort::Protect(x) => InfoBridgePortModel::Protect(*x),
            InfoBridgePort::FastLeave(x) => InfoBridgePortModel::FastLeave(*x),
            InfoBridgePort::Learning(x) => InfoBridgePortModel::Learning(*x),
            InfoBridgePort::UnicastFlood(x) => InfoBridgePortModel::UnicastFlood(*x),
            InfoBridgePort::ProxyARP(x) => InfoBridgePortModel::ProxyARP(*x),
            InfoBridgePort::ProxyARPWifi(x) => InfoBridgePortModel::ProxyARPWifi(*x),
            InfoBridgePort::RootId(x) => InfoBridgePortModel::RootId(x.model()),
            InfoBridgePort::BridgeId(x) => InfoBridgePortModel::BridgeId(x.model()),
            InfoBridgePort::DesignatedPort(x) => InfoBridgePortModel::DesignatedPort(*x),
            InfoBridgePort::DesignatedCost(x) => InfoBridgePortModel::DesignatedCost(*x),
            InfoBridgePort::PortId(x) => InfoBridgePortModel::PortId(*x),
            InfoBridgePort::PortNumber(x) => InfoBridgePortModel::PortNumber(*x),
            InfoBridgePort::TopologyChangeAck(x) => InfoBridgePortModel::TopologyChangeAck(*x),
            InfoBridgePort::ConfigPending(x) => InfoBridgePortModel::ConfigPending(*x),
            InfoBridgePort::MessageAgeTimer(x) => InfoBridgePortModel::MessageAgeTimer(*x),
            InfoBridgePort::ForwardDelayTimer(x) => InfoBridgePortModel::ForwardDelayTimer(*x),
            InfoBridgePort::HoldTimer(x) => InfoBridgePortModel::HoldTimer(*x),
            InfoBridgePort::MulticastRouter(x) => InfoBridgePortModel::MulticastRouter(*x),
            InfoBridgePort::MulticastFlood(x) => InfoBridgePortModel::MulticastFlood(*x),
            InfoBridgePort::MulticastToUnicast(x) => InfoBridgePortModel::MulticastToUnicast(*x),
            InfoBridgePort::VlanTunnel(x) => InfoBridgePortModel::VlanTunnel(*x),
            InfoBridgePort::BroadcastFlood(x) => InfoBridgePortModel::BroadcastFlood(*x),
            InfoBridgePort::GroupFwdMask(x) => InfoBridgePortModel::GroupFwdMask(*x),
            InfoBridgePort::NeighSupress(x) => InfoBridgePortModel::NeighSupress(*x),
            InfoBridgePort::Isolated(x) => InfoBridgePortModel::Isolated(*x),
            InfoBridgePort::MrpRingOpen(x) => InfoBridgePortModel::MrpRingOpen(*x),
            InfoBridgePort::MrpInOpen(x) => InfoBridgePortModel::MrpInOpen(*x),
            InfoBridgePort::MulticastEhtHostsLimit(x) => InfoBridgePortModel::MulticastEhtHostsLimit(*x),
            InfoBridgePort::MulticastEhtHostsCnt(x) => InfoBridgePortModel::MulticastEhtHostsCnt(*x),
            InfoBridgePort::Locked(x) => InfoBridgePortModel::Locked(*x),
            InfoBridgePort::Mab(x) => InfoBridgePortModel::Mab(*x),
            InfoBridgePort::MulticastNGroups(x) => InfoBridgePortModel::MulticastNGroups(*x),
            InfoBridgePort::MulticastMaxGroups(x) => InfoBridgePortModel::MulticastMaxGroups(*x),
            InfoBridgePort::Other(n) => InfoBridgePortModel::Other(n.model()),
        }
    }

    open spec fn m_wf(x: InfoBridgePortModel) -> bool {
        match x {
            InfoBridgePortModel::State(s) => spec_bridge_port_state_wf(s),
            InfoBridgePortModel::Priority(_) => true,
            InfoBridgePortModel::Cost(_) => true,
            InfoBridgePortModel::HairpinMode(_) => true,
            InfoBridgePortModel::Guard(_) => true,
            InfoBridgePortModel::Protect(_) => true,
            InfoBridgePortModel::FastLeave(_) => true,
            InfoBridgePortModel::Learning(_) => true,
            InfoBridgePortModel::UnicastFlood(_) => true,
            InfoBridgePortModel::ProxyARP(_) => true,
            InfoBridgePortModel::ProxyARPWifi(_) => true,
            InfoBridgePortModel::RootId(b) => b.address.len() == 6,
            InfoBridgePortModel::BridgeId(b) => b.address.len() == 6,
            InfoBridgePortModel::DesignatedPort(_) => true,
            InfoBridgePortModel::DesignatedCost(_) => true,
            InfoBridgePortModel::PortId(_) => true,
            InfoBridgePortModel::PortNumber(_) => true,
            InfoBridgePortModel::TopologyChangeAck(_) => true,
            InfoBridgePortModel::ConfigPending(_) => true,
            InfoBridgePortModel::MessageAgeTimer(_) => true,
            InfoBridgePortModel::ForwardDelayTimer(_) => true,
            InfoBridgePortModel::HoldTimer(_) => true,
            InfoBridgePortModel::MulticastRouter(s) => spec_bridge_port_mrouter_wf(s),
            InfoBridgePortModel::MulticastFlood(_) => true,
            InfoBridgePortModel::MulticastToUnicast(_) => true,
            InfoBridgePortModel::VlanTunnel(_) => true,
            InfoBridgePortModel::BroadcastFlood(_) => true,
            InfoBridgePortModel::GroupFwdMask(_) => true,
            InfoBridgePortModel::NeighSupress(_) => true,
            InfoBridgePortModel::Isolated(_) => true,
            InfoBridgePortModel::MrpRingOpen(_) => true,
            InfoBridgePortModel::MrpInOpen(_) => true,
            InfoBridgePortModel::MulticastEhtHostsLimit(_) => true,
            InfoBridgePortModel::MulticastEhtHostsCnt(_) => true,
            InfoBridgePortModel::Locked(_) => true,
            InfoBridgePortModel::Mab(_) => true,
            InfoBridgePortModel::MulticastNGroups(_) => true,
            InfoBridgePortModel::MulticastMaxGroups(_) => true,
            InfoBridgePortModel::Other(n) => DefaultNla::m_wf(n) && !spec_info_bridge_port_known(n.code),
        }
    }

    open spec fn m_code(x: InfoBridgePortModel) -> u16 {
        match x {
            InfoBridgePortModel::State(_) => 1,
            InfoBridgePortModel::Priority(_) => 2,
            InfoBridgePortModel::Cost(_) => 3,
            InfoBridgePortModel::HairpinMode(_) => 4,
            InfoBridgePortModel::Guard(_) => 5,
            InfoBridgePortModel::Protect(_) => 6,
            InfoBridgePortModel::FastLeave(_) => 7,
            InfoBridgePortModel::Learning(_) => 8,
            InfoBridgePortModel::UnicastFlood(_) => 9,
            InfoBridgePortModel::ProxyARP(_) => 10,
            InfoBridgePortModel::ProxyARPWifi(_) => 12,
            InfoBridgePortModel::RootId(_) => 13,
            InfoBridgePortModel::BridgeId(_) => 14,
            InfoBridgePortModel::DesignatedPort(_) => 15,
            InfoBridgePortModel::DesignatedCost(_) => 16,
            InfoBridgePortModel::PortId(_) => 17,
            InfoBridgePortModel::PortNumber(_) => 18,
            InfoBridgePortModel::TopologyChangeAck(_) => 19,
            InfoBridgePortModel::ConfigPending(_) => 20,
            InfoBridgePortModel::MessageAgeTimer(_) => 21,
            InfoBridgePortModel::ForwardDelayTimer(_) => 22,
            InfoBridgePortModel::HoldTimer(_) => 23,
            InfoBridgePortModel::MulticastRouter(_) => 25,
            InfoBridgePortModel::MulticastFlood(_) => 27,
            InfoBridgePortModel::MulticastToUnicast(_) => 28,
            InfoBridgePortModel::VlanTunnel(_) => 29,
            InfoBridgePortModel::BroadcastFlood(_) => 30,
            InfoBridgePortModel::GroupFwdMask(_) => 31,
            InfoBridgePortModel::NeighSupress(_) => 32,
            InfoBridgePortModel::Isolated(_) => 33,
            InfoBridgePortModel::MrpRingOpen(_) => 35,
            InfoBridgePortModel::MrpInOpen(_) => 36,
            InfoBridgePortModel::MulticastEhtHostsLimit(_) => 37,
            InfoBridgePortModel::MulticastEhtHostsCnt(_) => 38,
            InfoBridgePortModel::Locked(_) => 39,
            InfoBridgePortModel::Mab(_) => 40,
            InfoBridgePortModel::MulticastNGroups(_) => 41,
            InfoBridgePortModel::MulticastMaxGroups(_) => 42,
            InfoBridgePortModel::Other(n) => n.code,
        }
    }

    open spec fn m_value(m_: InfoBridgePortModel) -> Seq<u8> {
        match m_ {
            InfoBridgePortModel::State(x) => seq![spec_bridge_port_state_byte(x)],
            InfoBridgePortModel::Priority(x) => spec_u16_to_le_bytes(x),
            InfoBridgePortModel::Cost(x) => spec_u32_to_le_bytes(x),
            InfoBridgePortModel::HairpinMode(x) => seq![if x { 1u8 } else { 0u8 }],
            InfoBridgePortModel::Guard(x) => seq![if x { 1u8 } else { 0u8 }],
            InfoBridgePortModel::Protect(x) => seq![if x { 1u8 } else { 0u8 }],
            InfoBridgePortModel::FastLeave(x) => seq![if x { 1u8 } else { 0u8 }],
            InfoBridgePortModel::Learning(x) => seq![if x { 1u8 } else { 0u8 }],
            InfoBridgePortModel::UnicastFlood(x) => seq![if x { 1u8 } else { 0u8 }],
            InfoBridgePortModel::ProxyARP(x) => seq![if x { 1u8 } else { 0u8 }],
            InfoBridgePortModel::ProxyARPWifi(x) => seq![if x { 1u8 } else { 0u8 }],
            InfoBridgePortModel::RootId(x) => spec_bridge_id_bytes(x),
            InfoBridgePortModel::BridgeId(x) => spec_bridge_id_bytes(x),
            InfoBridgePortModel::DesignatedPort(x) => spec_u16_to_le_bytes(x),
            InfoBridgePortModel::DesignatedCost(x) => spec_u16_to_le_bytes(x),
            InfoBridgePortModel::PortId(x) => spec_u16_to_le_bytes(x),
            InfoBridgePortModel::PortNumber(x) => spec_u16_to_le_bytes(x),
            InfoBridgePortModel::TopologyChangeAck(x) => seq![if x { 1u8 } else { 0u8 }],
            InfoBridgePortModel::ConfigPending(x) => seq![if x { 1u8 } else { 0u8 }],
            InfoBridgePortModel::MessageAgeTimer(x) => spec_u64_to_le_bytes(x),
            InfoBridgePortModel::ForwardDelayTimer(x) => spec_u64_to_le_bytes(x),
            InfoBridgePortModel::HoldTimer(x) => spec_u64_to_le_bytes(x),
            InfoBridgePortModel::MulticastRouter(x) => seq![spec_bridge_port_mrouter_byte(x)],
            InfoBridgePortModel::MulticastFlood(x) => seq![if x { 1u8 } else { 0u8 }],
            InfoBridgePortModel::MulticastToUnicast(x) => seq![if x { 1u8 } else { 0u8 }],
            InfoBridgePortModel::VlanTunnel(x) => seq![if x { 1u8 } else { 0u8 }],
            InfoBridgePortModel::BroadcastFlood(x) => seq![if x { 1u8 } else { 0u8 }],
            InfoBridgePortModel::GroupFwdMask(x) => spec_u16_to_le_bytes(x),
            InfoBridgePortModel::NeighSupress(x) => seq![if x { 1u8 } else { 0u8 }],
            InfoBridgePortModel::Isolated(x) => seq![if x { 1u8 } else { 0u8 }],
            InfoBridgePortModel::MrpRingOpen(x) => seq![if x { 1u8 } else { 0u8 }],
            InfoBridgePortModel::MrpInOpen(x) => seq![if x { 1u8 } else { 0u8 }],
            InfoBridgePortModel::MulticastEhtHostsLimit(x) => spec_u32_to_le_bytes(x),
            InfoBridgePortModel::MulticastEhtHostsCnt(x) => spec_u32_to_le_bytes(x),
            InfoBridgePortModel::Locked(x) => seq![if x { 1u8 } else { 0u8 }],
            InfoBridgePortModel::Mab(x) => seq![if x { 1u8 } else { 0u8 }],
            InfoBridgePortModel::MulticastNGroups(x) => spec_u32_to_le_bytes(x),
            InfoBridgePortModel::MulticastMaxGroups(x) => spec_u32_to_le_bytes(x),
            InfoBridgePortModel::Other(n) => n.value,
        }
    }

    proof fn lemma_wf_len(x: InfoBridgePortModel) {
        lemma_auto_spec_u16_to_from_le_bytes();
        lemma_auto_spec_u32_to_from_le_bytes();
        lemma_auto_spec_u64_to_from_le_bytes();
    }

    fn kind(&self) -> u16 {
        match self {
            InfoBridgePort::State(_) => 1,
            InfoBridgePort::Priority(_) => 2,
            InfoBridgePort::Cost(_) => 3,
            InfoBridgePort::HairpinMode(_) => 4,
            InfoBridgePort::Guard(_) => 5,
            InfoBridgePort::Protect(_) => 6,
            InfoBridgePort::FastLeave(_) => 7,
            InfoBridgePort::Learning(_) => 8,
            InfoBridgePort::UnicastFlood(_) => 9,
            InfoBridgePort::ProxyARP(_) => 10,
            InfoBridgePort::ProxyARPWifi(_) => 12,
            InfoBridgePort::RootId(_) => 13,
            InfoBridgePort::BridgeId(_) => 14,
            InfoBridgePort::DesignatedPort(_) => 15,
            InfoBridgePort::DesignatedCost(_) => 16,
            InfoBridgePort::PortId(_) => 17,
            InfoBridgePort::PortNumber(_) => 18,
            InfoBridgePort::TopologyChangeAck(_) => 19,
            InfoBridgePort::ConfigPending(_) => 20,
            InfoBridgePort::MessageAgeTimer(_) => 21,
            InfoBridgePort::ForwardDelayTimer(_) => 22,
            InfoBridgePort::HoldTimer(_) => 23,
            InfoBridgePort::MulticastRouter(_) => 25,
            InfoBridgePort::MulticastFlood(_) => 27,
            InfoBridgePort::MulticastToUnicast(_) => 28,
            InfoBridgePort::VlanTunnel(_) => 29,
            InfoBridgePort::BroadcastFlood(_) => 30,
            InfoBridgePort::GroupFwdMask(_) => 31,
            InfoBridgePort::NeighSupress(_) => 32,
            InfoBridgePort::Isolated(_) => 33,
            InfoBridgePort::MrpRingOpen(_) => 35,
            InfoBridgePort::MrpInOpen(_) => 36,
            InfoBridgePort::MulticastEhtHostsLimit(_) => 37,
            InfoBridgePort::MulticastEhtHostsCnt(_) => 38,
            InfoBridgePort::Locked(_) => 39,
            InfoBridgePort::Mab(_) => 40,
            InfoBridgePort::MulticastNGroups(_) => 41,
            InfoBridgePort::MulticastMaxGroups(_) => 42,
            InfoBridgePort::Other(n) => n.kind(),
        }
    }

    fn value_len(&self) -> usize {
        proof {
            lemma_auto_spec_u16_to_from_le_bytes();
            lemma_auto_spec_u32_to_from_le_bytes();
            lemma_auto_spec_u64_to_from_le_bytes();
        }
        match self {
            InfoBridgePort::State(_) => 1,
            InfoBridgePort::Priority(_) => 2,
            InfoBridgePort::Cost(_) => 4,
            InfoBridgePort::HairpinMode(_) => 1,
            InfoBridgePort::Guard(_) => 1,
            InfoBridgePort::Protect(_) => 1,
            InfoBridgePort::FastLeave(_) => 1,
            InfoBridgePort::Learning(_) => 1,
            InfoBridgePort::UnicastFlood(_) => 1,
            InfoBridgePort::ProxyARP(_) => 1,
            InfoBridgePort::ProxyARPWifi(_) => 1,
            InfoBridgePort::RootId(_) => 8,
            InfoBridgePort::BridgeId(_) => 8,
            InfoBridgePort::DesignatedPort(_) => 2,
            InfoBridgePort::DesignatedCost(_) => 2,
            InfoBridgePort::PortId(_) => 2,
            InfoBridgePort::PortNumber(_) => 2,
            InfoBridgePort::TopologyChangeAck(_) => 1,
            InfoBridgePort::ConfigPending(_) => 1,
            InfoBridgePort::MessageAgeTimer(_) => 8,
            InfoBridgePort::ForwardDelayTimer(_) => 8,
            InfoBridgePort::HoldTimer(_) => 8,
            InfoBridgePort::MulticastRouter(_) => 1,
            InfoBridgePort::MulticastFlood(_) => 1,
            InfoBridgePort::MulticastToUnicast(_) => 1,
            InfoBridgePort::VlanTunnel(_) => 1,
            InfoBridgePort::BroadcastFlood(_) => 1,
            InfoBridgePort::GroupFwdMask(_) => 2,
            InfoBridgePort::NeighSupress(_) => 1,
            InfoBridgePort::Isolated(_) => 1,
            InfoBridgePort::MrpRingOpen(_) => 1,
            InfoBridgePort::MrpInOpen(_) => 1,
            InfoBridgePort::MulticastEhtHostsLimit(_) => 4,
            InfoBridgePort::MulticastEhtHostsCnt(_) => 4,
            InfoBridgePort::Locked(_) => 1,
            InfoBridgePort::Mab(_) => 1,
            InfoBridgePort::MulticastNGroups(_) => 4,
            InfoBridgePort::MulticastMaxGroups(_) => 4,
            InfoBridgePort::Other(n) => n.value_len(),
        }
    }

    fn emit_value(&self, out: &mut Vec<u8>) {
        match self {
            InfoBridgePort::State(x) => {
                out.push(bridge_port_state_byte(x));
                assert(out@ =~= old(out)@ + InfoBridgePort::m_value(self.model()));
            },
            InfoBridgePort::Priority(x) => push_u16_le(out, *x),
            InfoBridgePort::Cost(x) => push_u32_le(out, *x),
            InfoBridgePort::HairpinMode(x) => {
                out.push(if *x { 1 } else { 0 });
                assert(out@ =~= old(out)@ + InfoBridgePort::m_value(self.model()));
            },
            InfoBridgePort::Guard(x) => {
                out.push(if *x { 1 } else { 0 });
                assert(out@ =~= old(out)@ + InfoBridgePort::m_value(self.model()));
            },
            InfoBridgePort::Protect(x) => {
                out.push(if *x { 1 } else { 0 });
                assert(out@ =~= old(out)@ + InfoBridgePort::m_value(self.model()));
            },
            InfoBridgePort::FastLeave(x) => {
                out.push(if *x { 1 } else { 0 });
                assert(out@ =~= old(out)@ + InfoBridgePort::m_value(self.model()));
            },
            InfoBridgePort::Learning(x) => {
                out.push(if *x { 1 } else { 0 });
                assert(out@ =~= old(out)@ + InfoBridgePort::m_value(self.model()));
            },
            InfoBridgePort::UnicastFlood(x) => {
                out.push(if *x { 1 } else { 0 });
                assert(out@ =~= old(out)@ + InfoBridgePort::m_value(self.model()));
            },
            InfoBridgePort::ProxyARP(x) => {
                out.push(if *x { 1 } else { 0 });
                assert(out@ =~= old(out)@ + InfoBridgePort::m_value(self.model()));
            },
            InfoBridgePort::ProxyARPWifi(x) => {
                out.push(if *x { 1 } else { 0 });
                assert(out@ =~= old(out)@ + InfoBridgePort::m_value(self.model()));
            },
            InfoBridgePort::RootId(x) => emit_bridge_id(x, out),
            InfoBridgePort::BridgeId(x) => emit_bridge_id(x, out),
            InfoBridgePort::DesignatedPort(x) => push_u16_le(out, *x),
            InfoBridgePort::DesignatedCost(x) => push_u16_le(out, *x),
            InfoBridgePort::PortId(x) => push_u16_le(out, *x),
            InfoBridgePort::PortNumber(x) => push_u16_le(out, *x),
            InfoBridgePort::TopologyChangeAck(x) => {
                out.push(if *x { 1 } else { 0 });
                assert(out@ =~= old(out)@ + InfoBridgePort::m_value(self.model()));
            },
            InfoBridgePort::ConfigPending(x) => {
                out.push(if *x { 1 } else { 0 });
                assert(out@ =~= old(out)@ + InfoBridgePort::m_value(self.model()));
            },
            InfoBridgePort::MessageAgeTimer(x) => push_u64_le(out, *x),
            InfoBridgePort::ForwardDelayTimer(x) => push_u64_le(out, *x),
            InfoBridgePort::HoldTimer(x) => push_u64_le(out, *x),
            InfoBridgePort::MulticastRouter(x) => {
                out.push(bridge_port_mrouter_byte(x));
                assert(out@ =~= old(out)@ + InfoBridgePort::m_value(self.model()));
            },
            InfoBridgePort::MulticastFlood(x) => {
                out.push(if *x { 1 } else { 0 });
                assert(out@ =~= old(out)@ + InfoBridgePort::m_value(self.model()));
            },
            InfoBridgePort::MulticastToUnicast(x) => {
                out.push(if *x { 1 } else { 0 });
                assert(out@ =~= old(out)@ + InfoBridgePort::m_value(self.model()));
            },
            InfoBridgePort::VlanTunnel(x) => {
                out.push(if *x { 1 } else { 0 });
                assert(out@ =~= old(out)@ + InfoBridgePort::m_value(self.model()));
            },
            InfoBridgePort::BroadcastFlood(x) => {
                out.push(if *x { 1 } else { 0 });
                assert(out@ =~= old(out)@ + InfoBridgePort::m_value(self.model()));
            },
            InfoBridgePort::GroupFwdMask(x) => push_u16_le(out, *x),
            InfoBridgePort::NeighSupress(x) => {
                out.push(if *x { 1 } else { 0 });
                assert(out@ =~= old(out)@ + InfoBridgePort::m_value(self.model()));
            },
            InfoBridgePort::Isolated(x) => {
                out.push(if *x { 1 } else { 0 });
                assert(out@ =~= old(out)@ + InfoBridgePort::m_value(self.model()));
            },
            InfoBridgePort::MrpRingOpen(x) => {
                out.push(if *x { 1 } else { 0 });
                assert(out@ =~= old(out)@ + InfoBridgePort::m_value(self.model()));
            },
            InfoBridgePort::MrpInOpen(x) => {
                out.push(if *x { 1 } else { 0 });
                assert(out@ =~= old(out)@ + InfoBridgePort::m_value(self.model()));
            },
            InfoBridgePort::MulticastEhtHostsLimit(x) => push_u32_le(out, *x),
            InfoBridgePort::MulticastEhtHostsCnt(x) => push_u32_le(out, *x),
            InfoBridgePort::Locked(x) => {
                out.push(if *x { 1 } else { 0 });
                assert(out@ =~= old(out)@ + InfoBridgePort::m_value(self.model()));
            },
            InfoBridgePort::Mab(x) => {
                out.push(if *x { 1 } else { 0 });
                assert(out@ =~= old(out)@ + InfoBridgePort::m_value(self.model()));
            },
            InfoBridgePort::MulticastNGroups(x) => push_u32_le(out, *x),
            InfoBridgePort::MulticastMaxGroups(x) => push_u32_le(out, *x),
            InfoBridgePort::Other(n) => n.emit_value(out),
        }
    }
}

impl NlaDecode<()> for InfoBridgePort {
    open spec fn m_in_scope(x: InfoBridgePortModel, ctx: ()) -> bool {
        true
    }

    open spec fn m_resolve(ctx: (), code: u16, value: Seq<u8>) -> Result<InfoBridgePortModel, DecodeError> {
        if code == 1 {
            if value.len() == 1 {
                Ok(InfoBridgePortModel::State(spec_bridge_port_state_of_byte(value[0])))
            } else {
                Err(DecodeError::InvalidField { code })
            }
        } else if code == 2 {
            if value.len() == 2 {
                Ok(InfoBridgePortModel::Priority(spec_u16_from_le_bytes(value)))
            } else {
                Err(DecodeError::InvalidField { code })
            }
        } else if code == 3 {
            if value.len() == 4 {
                Ok(InfoBridgePortModel::Cost(spec_u32_from_le_bytes(value)))
            } else {
                Err(DecodeError::InvalidField { code })
            }
        } else if code == 4 {
            if value.len() == 1 && (value[0] == 0 || value[0] == 1) {
                Ok(InfoBridgePortModel::HairpinMode(value[0] == 1))
            } else {
                Err(DecodeError::InvalidField { code })
            }
        } else if code == 5 {
            if value.len() == 1 && (value[0] == 0 || value[0] == 1) {
                Ok(InfoBridgePortModel::Guard(value[0] == 1))
            } else {
                Err(DecodeError::InvalidField { code })
            }
        } else if code == 6 {
            if value.len() == 1 && (value[0] == 0 || value[0] == 1) {
                Ok(InfoBridgePortModel::Protect(value[0] == 1))
            } else {
                Err(DecodeError::InvalidField { code })
            }
        } else if code == 7 {
            if value.len() == 1 && (value[0] == 0 || value[0] == 1) {
                Ok(InfoBridgePortModel::FastLeave(value[0] == 1))
            } else {
                Err(DecodeError::InvalidField { code })
            }
        } else if code == 8 {
            if value.len() == 1 && (value[0] == 0 || value[0] == 1) {
                Ok(InfoBridgePortModel::Learning(value[0] == 1))
            } else {
                Err(DecodeError::InvalidField { code })
            }
        } else if code == 9 {
            if value.len() == 1 && (value[0] == 0 || value[0] == 1) {
                Ok(InfoBridgePortModel::UnicastFlood(value[0] == 1))
            } else {
                Err(DecodeError::InvalidField { code })
            }
        } else if code == 10 {
            if value.len() == 1 && (value[0] == 0 || value[0] == 1) {
                Ok(InfoBridgePortModel::ProxyARP(value[0] == 1))
            } else {
                Err(DecodeError::InvalidField { code })
            }
        } else if code == 12 {
            if value.len() == 1 && (value[0] == 0 || value[0] == 1) {
                Ok(InfoBridgePortModel::ProxyARPWifi(value[0] == 1))
            } else {
                Err(DecodeError::InvalidField { code })
            }
        } else if code == 13 {
            if value.len() == 8 {
                Ok(InfoBridgePortModel::RootId(spec_bridge_id_of(value)))
            } else {
                Err(DecodeError::InvalidField { code })
            }
        } else if code == 14 {
            if value.len() == 8 {
                Ok(InfoBridgePortModel::BridgeId(spec_bridge_id_of(value)))
            } else {
                Err(DecodeError::InvalidField { code })
            }
        } else if code == 15 {
            if value.len() == 2 {
                Ok(InfoBridgePortModel::DesignatedPort(spec_u16_from_le_bytes(value)))
            } else {
                Err(DecodeError::InvalidField { code })
            }
        } else if code == 16 {
            if value.len() == 2 {
                Ok(InfoBridgePortModel::DesignatedCost(spec_u16_from_le_bytes(value)))
            } else {
                Err(DecodeError::InvalidField { code })
            }
        } else if code == 17 {
            if value.len() == 2 {
                Ok(InfoBridgePortModel::PortId(spec_u16_from_le_bytes(value)))
            } else {
                Err(DecodeError::InvalidField { code })
            }
        } else if code == 18 {
            if value.len() == 2 {
                Ok(InfoBridgePortModel::PortNumber(spec_u16_from_le_bytes(value)))
            } else {
                Err(DecodeError::InvalidField { code })
            }
        } else if code == 19 {
            if value.len() == 1 && (value[0] == 0 || value[0] == 1) {
                Ok(InfoBridgePortModel::TopologyChangeAck(value[0] == 1))
            } else {
                Err(DecodeError::InvalidField { code })
            }
        } else if code == 20 {
            if value.len() == 1 && (value[0] == 0 || value[0] == 1) {
                Ok(InfoBridgePortModel::ConfigPending(value[0] == 1))
            } else {
                Err(DecodeError::InvalidField { code })
            }
        } else if code == 21 {
            if value.len() == 8 {
                Ok(InfoBridgePortModel::MessageAgeTimer(spec_u64_from_le_bytes(value)))
            } else {
                Err(DecodeError::InvalidField { code })
            }
        } else if code == 22 {
            if value.len() == 8 {
                Ok(InfoBridgePortModel::ForwardDelayTimer(spec_u64_from_le_bytes(value)))
            } else {
                Err(DecodeError::InvalidField { code })
            }
        } else if code == 23 {
            if value.len() == 8 {
                Ok(InfoBridgePortModel::HoldTimer(spec_u64_from_le_bytes(value)))
            } else {
                Err(DecodeError::InvalidField { code })
            }
        } else if code == 25 {
            if value.len() == 1 {
                Ok(InfoBridgePortModel::MulticastRouter(spec_bridge_port_mrouter_of_byte(value[0])))
            } else {
                Err(DecodeError::InvalidField { code })
            }
        } else if code == 27 {
            if value.len() == 1 && (value[0] == 0 || value[0] == 1) {
                Ok(InfoBridgePortModel::MulticastFlood(value[0] == 1))
            } else {
                Err(DecodeError::InvalidField { code })
            }
        } else if code == 28 {
            if value.len() == 1 && (value[0] == 0 || value[0] == 1) {
                Ok(InfoBridgePortModel::MulticastToUnicast(value[0] == 1))
            } else {
                Err(DecodeError::InvalidField { code })
            }
        } else if code == 29 {
            if value.len() == 1 && (value[0] == 0 || value[0] == 1) {
                Ok(InfoBridgePortModel::VlanTunnel(value[0] == 1))
            } else {
                Err(DecodeError::InvalidField { code })
            }
        } else if code == 30 {
            if value.len() == 1 && (value[0] == 0 || value[0] == 1) {
                Ok(InfoBridgePortModel::BroadcastFlood(value[0] == 1))
            } else {
                Err(DecodeError::InvalidField { code })
            }
        } else if code == 31 {
            if value.len() == 2 {
                Ok(InfoBridgePortModel::GroupFwdMask(spec_u16_from_le_bytes(value)))
            } else {
                Err(DecodeError::InvalidField { code })
            }
        } else if code == 32 {
            if value.len() == 1 && (value[0] == 0 || value[0] == 1) {
                Ok(InfoBridgePortModel::NeighSupress(value[0] == 1))
            } else {
                Err(DecodeError::InvalidField { code })
            }
        } else if code == 33 {
            if value.len() == 1 && (value[0] == 0 || value[0] == 1) {
                Ok(InfoBridgePortModel::Isolated(value[0] == 1))
            } else {
                Err(DecodeError::InvalidField { code })
            }
        } else if code == 35 {
            if value.len() == 1 && (value[0] == 0 || value[0] == 1) {
                Ok(InfoBridgePortModel::MrpRingOpen(value[0] == 1))
            } else {
                Err(DecodeError::InvalidField { code })
            }
        } else if code == 36 {
            if value.len() == 1 && (value[0] == 0 || value[0] == 1) {
                Ok(InfoBridgePortModel::MrpInOpen(value[0] == 1))
            } else {
                Err(DecodeError::InvalidField { code })
            }
        } else if code == 37 {
            if value.len() == 4 {
                Ok(InfoBridgePortModel::MulticastEhtHostsLimit(spec_u32_from_le_bytes(value)))
            } else {
                Err(DecodeError::InvalidField { code })
            }
        } else if code == 38 {
            if value.len() == 4 {
                Ok(InfoBridgePortModel::MulticastEhtHostsCnt(spec_u32_from_le_bytes(value)))
            } else {
                Err(DecodeError::InvalidField { code })
            }
        } else if code == 39 {
            if value.len() == 1 && (value[0] == 0 || value[0] == 1) {
                Ok(InfoBridgePortModel::Locked(value[0] == 1))
            } else {
                Err(DecodeError::InvalidField { code })
            }
        } else if code == 40 {
            if value.len() == 1 && (value[0] == 0 || value[0] == 1) {
                Ok(InfoBridgePortModel::Mab(value[0] == 1))
            } else {
                Err(DecodeError::InvalidField { code })
            }
        } else if code == 41 {
            if value.len() == 4 {
                Ok(InfoBridgePortModel::MulticastNGroups(spec_u32_from_le_bytes(value)))
            } else {
                Err(DecodeError::InvalidField { code })
            }
        } else if code == 42 {
            if value.len() == 4 {
                Ok(InfoBridgePortModel::MulticastMaxGroups(spec_u32_from_le_bytes(value)))
            } else {
                Err(DecodeError::InvalidField { code })
            }
        } else {
            Ok(InfoBridgePortModel::Other(DefaultNlaModel { code, value }))
        }
    }

    open spec fn v_canon(ctx: (), code: u16, value: Seq<u8>) -> bool {
        true
    }

    proof fn lemma_resolve_project(ctx: (), code: u16, value: Seq<u8>) {
        lemma_auto_spec_u16_to_from_le_bytes();
        lemma_auto_spec_u32_to_from_le_bytes();
        lemma_auto_spec_u64_to_from_le_bytes();
        lemma_u16_be_inverse();
        lemma_bridge_port_state_inverse();
        lemma_bridge_port_mrouter_inverse();
        match Self::m_resolve(ctx, code, value) {
            Ok(x) => {
                assert(Self::m_value(x) =~= value);
            },
            Err(_) => {},
        }
    }

    proof fn lemma_project_resolve(x: InfoBridgePortModel, ctx: ()) {
        lemma_auto_spec_u16_to_from_le_bytes();
        lemma_auto_spec_u32_to_from_le_bytes();
        lemma_auto_spec_u64_to_from_le_bytes();
        lemma_u16_be_inverse();
        lemma_bridge_port_state_inverse();
        lemma_bridge_port_mrouter_inverse();
        match x {
            InfoBridgePortModel::State(y) => {
                assert(Self::m_resolve(ctx, 1, Self::m_value(x)) == Ok::<InfoBridgePortModel, DecodeError>(x));
            },
            InfoBridgePortModel::Priority(y) => {
                assert(Self::m_resolve(ctx, 2, Self::m_value(x)) == Ok::<InfoBridgePortModel, DecodeError>(x));
            },
            InfoBridgePortModel::Cost(y) => {
                assert(Self::m_resolve(ctx, 3, Self::m_value(x)) == Ok::<InfoBridgePortModel, DecodeError>(x));
            },
            InfoBridgePortModel::HairpinMode(y) => {
                assert(Self::m_resolve(ctx, 4, Self::m_value(x)) == Ok::<InfoBridgePortModel, DecodeError>(x));
            },
            InfoBridgePortModel::Guard(y) => {
                assert(Self::m_resolve(ctx, 5, Self::m_value(x)) == Ok::<InfoBridgePortModel, DecodeError>(x));
            },
            InfoBridgePortModel::Protect(y) => {
                assert(Self::m_resolve(ctx, 6, Self::m_value(x)) == Ok::<InfoBridgePortModel, DecodeError>(x));
            },
            InfoBridgePortModel::FastLeave(y) => {
                assert(Self::m_resolve(ctx, 7, Self::m_value(x)) == Ok::<InfoBridgePortModel, DecodeError>(x));
            },
            InfoBridgePortModel::Learning(y) => {
                assert(Self::m_resolve(ctx, 8, Self::m_value(x)) == Ok::<InfoBridgePortModel, DecodeError>(x));
            },
            InfoBridgePortModel::UnicastFlood(y) => {
                assert(Self::m_resolve(ctx, 9, Self::m_value(x)) == Ok::<InfoBridgePortModel, DecodeError>(x));
            },
            InfoBridgePortModel::ProxyARP(y) => {
                assert(Self::m_resolve(ctx, 10, Self::m_value(x)) == Ok::<InfoBridgePortModel, DecodeError>(x));
            },
            InfoBridgePortModel::ProxyARPWifi(y) => {
                assert(Self::m_resolve(ctx, 12, Self::m_value(x)) == Ok::<InfoBridgePortModel, DecodeError>(x));
            },
            InfoBridgePortModel::RootId(b) => {
                lemma_bridge_id_inverse(b);
            },
            InfoBridgePortModel::BridgeId(b) => {
                lemma_bridge_id_inverse(b);
            },
            InfoBridgePortModel::DesignatedPort(y) => {
                assert(Self::m_resolve(ctx, 15, Self::m_value(x)) == Ok::<InfoBridgePortModel, DecodeError>(x));
            },
            InfoBridgePortModel::DesignatedCost(y) => {
                assert(Self::m_resolve(ctx, 16, Self::m_value(x)) == Ok::<InfoBridgePortModel, DecodeError>(x));
            },
            InfoBridgePortModel::PortId(y) => {
                assert(Self::m_resolve(ctx, 17, Self::m_value(x)) == Ok::<InfoBridgePortModel, DecodeError>(x));
            },
            InfoBridgePortModel::PortNumber(y) => {
                assert(Self::m_resolve(ctx, 18, Self::m_value(x)) == Ok::<InfoBridgePortModel, DecodeError>(x));
            },
            InfoBridgePortModel::TopologyChangeAck(y) => {
                assert(Self::m_resolve(ctx, 19, Self::m_value(x)) == Ok::<InfoBridgePortModel, DecodeError>(x));
            },
            InfoBridgePortModel::ConfigPending(y) => {
                assert(Self::m_resolve(ctx, 20, Self::m_value(x)) == Ok::<InfoBridgePortModel, DecodeError>(x));
            },
            InfoBridgePortModel::MessageAgeTimer(y) => {
                assert(Self::m_resolve(ctx, 21, Self::m_value(x)) == Ok::<InfoBridgePortModel, DecodeError>(x));
            },
            InfoBridgePortModel::ForwardDelayTimer(y) => {
                assert(Self::m_resolve(ctx, 22, Self::m_value(x)) == Ok::<InfoBridgePortModel, DecodeError>(x));
            },
            InfoBridgePortModel::HoldTimer(y) => {
                assert(Self::m_resolve(ctx, 23, Self::m_value(x)) == Ok::<InfoBridgePortModel, DecodeError>(x));
            },
            InfoBridgePortModel::MulticastRouter(y) => {
                assert(Self::m_resolve(ctx, 25, Self::m_value(x)) == Ok::<InfoBridgePortModel, DecodeError>(x));
            },
            InfoBridgePortModel::MulticastFlood(y) => {
                assert(Self::m_resolve(ctx, 27, Self::m_value(x)) == Ok::<InfoBridgePortModel, DecodeError>(x));
            },
            InfoBridgePortModel::MulticastToUnicast(y) => {
                assert(Self::m_resolve(ctx, 28, Self::m_value(x)) == Ok::<InfoBridgePortModel, DecodeError>(x));
            },
            InfoBridgePortModel::VlanTunnel(y) => {
                assert(Self::m_resolve(ctx, 29, Self::m_value(x)) == Ok::<InfoBridgePortModel, DecodeError>(x));
            },
            InfoBridgePortModel::BroadcastFlood(y) => {
                assert(Self::m_resolve(ctx, 30, Self::m_value(x)) == Ok::<InfoBridgePortModel, DecodeError>(x));
            },
            InfoBridgePortModel::GroupFwdMask(y) => {
                assert(Self::m_resolve(ctx, 31, Self::m_value(x)) == Ok::<InfoBridgePortModel, DecodeError>(x));
            },
            InfoBridgePortModel::NeighSupress(y) => {
                assert(Self::m_resolve(ctx, 32, Self::m_value(x)) == Ok::<InfoBridgePortModel, DecodeError>(x));
            },
            InfoBridgePortModel::Isolated(y) => {
                assert(Self::m_resolve(ctx, 33, Self::m_value(x)) == Ok::<InfoBridgePortModel, DecodeError>(x));
            },
            InfoBridgePortModel::MrpRingOpen(y) => {
                assert(Self::m_resolve(ctx, 35, Self::m_value(x)) == Ok::<InfoBridgePortModel, DecodeError>(x));
            },
            InfoBridgePortModel::MrpInOpen(y) => {
                assert(Self::m_resolve(ctx, 36, Self::m_value(x)) == Ok::<InfoBridgePortModel, DecodeError>(x));
            },
            InfoBridgePortModel::MulticastEhtHostsLimit(y) => {
                assert(Self::m_resolve(ctx, 37, Self::m_value(x)) == Ok::<InfoBridgePortModel, DecodeError>(x));
            },
            InfoBridgePortModel::MulticastEhtHostsCnt(y) => {
                assert(Self::m_resolve(ctx, 38, Self::m_value(x)) == Ok::<InfoBridgePortModel, DecodeError>(x));
            },
            InfoBridgePortModel::Locked(y) => {
                assert(Self::m_resolve(ctx, 39, Self::m_value(x)) == Ok::<InfoBridgePortModel, DecodeError>(x));
            },
            InfoBridgePortModel::Mab(y) => {
                assert(Self::m_resolve(ctx, 40, Self::m_value(x)) == Ok::<InfoBridgePortModel, DecodeError>(x));
            },
            InfoBridgePortModel::MulticastNGroups(y) => {
                assert(Self::m_resolve(ctx, 41, Self::m_value(x)) == Ok::<InfoBridgePortModel, DecodeError>(x));
            },
            InfoBridgePortModel::MulticastMaxGroups(y) => {
                assert(Self::m_resolve(ctx, 42, Self::m_value(x)) == Ok::<InfoBridgePortModel, DecodeError>(x));
            },
            InfoBridgePortModel::Other(_) => {},
        }
    }

    fn parse(ctx: &(), code: u16, value: &[u8]) -> Result<InfoBridgePort, DecodeError> {
        if code == 1 {
            match read_u8(value) { Some(y) => Ok(InfoBridgePort::State(bridge_port_state_of_byte(y))), None => Err(DecodeError::InvalidField { code }) }
        } else if code == 2 {
            match read_u16_le(value) { Some(y) => Ok(InfoBridgePort::Priority(y)), None => Err(DecodeError::InvalidField { code }) }
        } else if code == 3 {
            match read_u32_le(value) { Some(y) => Ok(InfoBridgePort::Cost(y)), None => Err(DecodeError::InvalidField { code }) }
        } else if code == 4 {
            match read_bool(value) { Some(y) => Ok(InfoBridgePort::HairpinMode(y)), None => Err(DecodeError::InvalidField { code }) }
        } else if code == 5 {
            match read_bool(value) { Some(y) => Ok(InfoBridgePort::Guard(y)), None => Err(DecodeError::InvalidField { code }) }
        } else if code == 6 {
            match read_bool(value) { Some(y) => Ok(InfoBridgePort::Protect(y)), None => Err(DecodeError::InvalidField { code }) }
        } else if code == 7 {
            match read_bool(value) { Some(y) => Ok(InfoBridgePort::FastLeave(y)), None => Err(DecodeError::InvalidField { code }) }
        } else if code == 8 {
            match read_bool(value) { Some(y) => Ok(InfoBridgePort::Learning(y)), None => Err(DecodeError::InvalidField { code }) }
        } else if code == 9 {
            match read_bool(value) { Some(y) => Ok(InfoBridgePort::UnicastFlood(y)), None => Err(DecodeError::InvalidField { code }) }
        } else if code == 10 {
            match read_bool(value) { Some(y) => Ok(InfoBridgePort::ProxyARP(y)), None => Err(DecodeError::InvalidField { code }) }
        } else if code == 12 {
            match read_bool(value) { Some(y) => Ok(InfoBridgePort::ProxyARPWifi(y)), None => Err(DecodeError::InvalidField { code }) }
        } else if code == 13 {
            match parse_bridge_id(value) { Some(y) => Ok(InfoBridgePort::RootId(y)), None => Err(DecodeError::InvalidField { code }) }
        } else if code == 14 {
            match parse_bridge_id(value) { Some(y) => Ok(InfoBridgePort::BridgeId(y)), None => Err(DecodeError::InvalidField { code }) }
        } else if code == 15 {
            match read_u16_le(value) { Some(y) => Ok(InfoBridgePort::DesignatedPort(y)), None => Err(DecodeError::InvalidField { code }) }
        } else if code == 16 {
            match read_u16_le(value) { Some(y) => Ok(InfoBridgePort::DesignatedCost(y)), None => Err(DecodeError::InvalidField { code }) }
        } else if code == 17 {
            match read_u16_le(value) { Some(y) => Ok(InfoBridgePort::PortId(y)), None => Err(DecodeError::InvalidField { code }) }
        } else if code == 18 {
            match read_u16_le(value) { Some(y) => Ok(InfoBridgePort::PortNumber(y)), None => Err(DecodeError::InvalidField { code }) }
        } else if code == 19 {
            match read_bool(value) { Some(y) => Ok(InfoBridgePort::TopologyChangeAck(y)), None => Err(DecodeError::InvalidField { code }) }
        } else if code == 20 {
            match read_bool(value) { Some(y) => Ok(InfoBridgePort::ConfigPending(y)), None => Err(DecodeError::InvalidField { code }) }
        } else if code == 21 {
            match read_u64_le(value) { Some(y) => Ok(InfoBridgePort::MessageAgeTimer(y)), None => Err(DecodeError::InvalidField { code }) }
        } else if code == 22 {
            match read_u64_le(value) { Some(y) => Ok(InfoBridgePort::ForwardDelayTimer(y)), None => Err(DecodeError::InvalidField { code }) }
        } else if code == 23 {
            match read_u64_le(value) { Some(y) => Ok(InfoBridgePort::HoldTimer(y)), None => Err(DecodeError::InvalidField { code }) }
        } else if code == 25 {
            match read_u8(value) { Some(y) => Ok(InfoBridgePort::MulticastRouter(bridge_port_mrouter_of_byte(y))), None => Err(DecodeError::InvalidField { code }) }
        } else if code == 27 {
            match read_bool(value) { Some(y) => Ok(InfoBridgePort::MulticastFlood(y)), None => Err(DecodeError::InvalidField { code }) }
        } else if code == 28 {
            match read_bool(value) { Some(y) => Ok(InfoBridgePort::MulticastToUnicast(y)), None => Err(DecodeError::InvalidField { code }) }
        } else if code == 29 {
            match read_bool(value) { Some(y) => Ok(InfoBridgePort::VlanTunnel(y)), None => Err(DecodeError::InvalidField { code }) }
        } else if code == 30 {
            match read_bool(value) { Some(y) => Ok(InfoBridgePort::BroadcastFlood(y)), None => Err(DecodeError::InvalidField { code }) }
        } else if code == 31 {
            match read_u16_le(value) { Some(y) => Ok(InfoBridgePort::GroupFwdMask(y)), None => Err(DecodeError::InvalidField { code }) }
        } else if code == 32 {
            match read_bool(value) { Some(y) => Ok(InfoBridgePort::NeighSupress(y)), None => Err(DecodeError::InvalidField { code }) }
        } else if code == 33 {
            match read_bool(value) { Some(y) => Ok(InfoBridgePort::Isolated(y)), None => Err(DecodeError::InvalidField { code }) }
        } else if code == 35 {
            match read_bool(value) { Some(y) => Ok(InfoBridgePort::MrpRingOpen(y)), None => Err(DecodeError::InvalidField { code }) }
        } else if code == 36 {
            match read_bool(value) { Some(y) => Ok(InfoBridgePort::MrpInOpen(y)), None => Err(DecodeError::InvalidField { code }) }
        } else if code == 37 {
            match read_u32_le(value) { Some(y) => Ok(InfoBridgePort::MulticastEhtHostsLimit(y)), None => Err(DecodeError::InvalidField { code }) }
        } else if code == 38 {
            match read_u32_le(value) { Some(y) => Ok(InfoBridgePort::MulticastEhtHostsCnt(y)), None => Err(DecodeError::InvalidField { code }) }
        } else if code == 39 {
            match read_bool(value) { Some(y) => Ok(InfoBridgePort::Locked(y)), None => Err(DecodeError::InvalidField { code }) }
        } else if code == 40 {
            match read_bool(value) { Some(y) => Ok(InfoBridgePort::Mab(y)), None => Err(DecodeError::InvalidField { code }) }
        } else if code == 41 {
            match read_u32_le(value) { Some(y) => Ok(InfoBridgePort::MulticastNGroups(y)), None => Err(DecodeError::InvalidField { code }) }
        } else if code == 42 {
            match read_u32_le(value) { Some(y) => Ok(InfoBridgePort::MulticastMaxGroups(y)), None => Err(DecodeError::InvalidField { code }) }
        } else {
            match <DefaultNla as NlaDecode<()>>::parse(ctx, code, value) {
                Ok(n) => Ok(InfoBridgePort::Other(n)),
                Err(e) => Err(e),
            }
        }
    }
}
} // verus!
