//! Bridge address-family attributes: the VLAN info records a bridge dump
//! attaches to a link message.

use vstd::prelude::*;
use vstd::bytes::{
    spec_u16_from_le_bytes, spec_u16_to_le_bytes, lemma_auto_spec_u16_to_from_le_bytes,
    u16_from_le_bytes,
};
use vstd::slice::slice_subrange;
use crate::error::DecodeError;
use crate::fallback::{DefaultNla, DefaultNlaModel};
use crate::nla::{Nla, NlaDecode};
use crate::values::push_u16_le;

verus! {

/// The type code of a bridge VLAN info record.
pub const IFLA_BRIDGE_VLAN_INFO: u16 = 2;

/// One VLAN of a bridge port: its flags and its VLAN id, each 16 bits on the
/// wire.
#[derive(Debug, PartialEq, Eq, Clone, Copy)]
pub struct BridgeVlanInfo {
    pub flags: u16,
    pub vid: u16,
}

/// The wire bytes of a [`BridgeVlanInfo`].
pub open spec fn spec_bridge_vlan_info_bytes(s: BridgeVlanInfo) -> Seq<u8> {
    spec_u16_to_le_bytes(s.flags) + spec_u16_to_le_bytes(s.vid)
}

/// One bridge address-family attribute.
#[derive(Debug, PartialEq, Eq, Clone)]
pub enum AfSpecBridge {
    /// One VLAN of the port.
    VlanInfo(BridgeVlanInfo),
    /// Any bridge attribute this catalog has no rule for, kept verbatim.
    Other(DefaultNla),
}

/// The model of an [`AfSpecBridge`] attribute.
pub enum AfSpecBridgeModel {
    VlanInfo(BridgeVlanInfo),
    Other(DefaultNlaModel),
}

/// Whether the bridge address-family catalog has a rule for this type code.
pub open spec fn spec_af_bridge_known(code: u16) -> bool {
    code == IFLA_BRIDGE_VLAN_INFO
}

impl Nla for AfSpecBridge {
    type Model = AfSpecBridgeModel;

    open spec fn model(&self) -> AfSpecBridgeModel {
        match self {
            AfSpecBridge::VlanInfo(s) => AfSpecBridgeModel::VlanInfo(*s),
            AfSpecBridge::Other(n) => AfSpecBridgeModel::Other(n.model()),
        }
    }

    open spec fn m_wf(m: AfSpecBridgeModel) -> bool {
        match m {
            AfSpecBridgeModel::VlanInfo(_) => true,
            AfSpecBridgeModel::Other(n) => DefaultNla::m_wf(n) && !spec_af_bridge_known(n.code),
        }
    }

    open spec fn m_code(m: AfSpecBridgeModel) -> u16 {
        match m {
            AfSpecBridgeModel::VlanInfo(_) => IFLA_BRIDGE_VLAN_INFO,
            AfSpecBridgeModel::Other(n) => n.code,
        }
    }

    open spec fn m_value(m: AfSpecBridgeModel) -> Seq<u8> {
        match m {
            AfSpecBridgeModel::VlanInfo(s) => spec_bridge_vlan_info_bytes(s),
            AfSpecBridgeModel::Other(n) => n.value,
        }
    }

    proof fn lemma_wf_len(m: AfSpecBridgeModel) {
        lemma_auto_spec_u16_to_from_le_bytes();
    }

    fn kind(&self) -> u16 {
        match self {
            AfSpecBridge::VlanInfo(_) => IFLA_BRIDGE_VLAN_INFO,
            AfSpecBridge::Other(n) => n.kind(),
        }
    }

    fn value_len(&self) -> usize {
        proof {
            lemma_auto_spec_u16_to_from_le_bytes();
        }
        match self {
            AfSpecBridge::VlanInfo(_) => 4,
            AfSpecBridge::Other(n) => n.value_len(),
        }
    }

    fn emit_value(&self, out: &mut Vec<u8>) {
        match self {
            AfSpecBridge::VlanInfo(s) => {
                push_u16_le(out, s.flags);
                push_u16_le(out, s.vid);
                assert(out@ =~= old(out)@ + spec_bridge_vlan_info_bytes(*s));
            },
            AfSpecBridge::Other(n) => n.emit_value(out),
        }
    }
}

impl NlaDecode<()> for AfSpecBridge {
    open spec fn m_in_scope(m: AfSpecBridgeModel, ctx: ()) -> bool {
        true
    }

    open spec fn m_resolve(ctx: (), code: u16, value: Seq<u8>) -> Result<
        AfSpecBridgeModel,
        DecodeError,
    > {
        if code == IFLA_BRIDGE_VLAN_INFO {
            if value.len() == 4 {
                Ok(
                    AfSpecBridgeModel::VlanInfo(
                        BridgeVlanInfo {
                            flags: spec_u16_from_le_bytes(value.subrange(0, 2)),
                            vid: spec_u16_from_le_bytes(value.subrange(2, 4)),
                        },
                    ),
                )
            } else {
                Err(DecodeError::InvalidField { code })
            }
        } else {
            Ok(AfSpecBridgeModel::Other(DefaultNlaModel { code, value }))
        }
    }

    open spec fn v_canon(ctx: (), code: u16, value: Seq<u8>) -> bool {
        true
    }

    proof fn lemma_resolve_project(ctx: (), code: u16, value: Seq<u8>) {
        lemma_auto_spec_u16_to_from_le_bytes();
        if code == IFLA_BRIDGE_VLAN_INFO && value.len() == 4 {
            let m = Self::m_resolve(ctx, code, value)->Ok_0;
            assert(Self::m_value(m) =~= value);
        }
    }

    proof fn lemma_project_resolve(m: AfSpecBridgeModel, ctx: ()) {
        lemma_auto_spec_u16_to_from_le_bytes();
        match m {
            AfSpecBridgeModel::VlanInfo(s) => {
                let v = spec_bridge_vlan_info_bytes(s);
                assert(v.subrange(0, 2) =~= spec_u16_to_le_bytes(s.flags));
                assert(v.subrange(2, 4) =~= spec_u16_to_le_bytes(s.vid));
            },
            AfSpecBridgeModel::Other(_) => {},
        }
    }

    fn parse(ctx: &(), code: u16, value: &[u8]) -> Result<AfSpecBridge, DecodeError> {
        if code == IFLA_BRIDGE_VLAN_INFO {
            if value.len() == 4 {
                let flags = u16_from_le_bytes(slice_subrange(value, 0, 2));
                let vid = u16_from_le_bytes(slice_subrange(value, 2, 4));
                Ok(AfSpecBridge::VlanInfo(BridgeVlanInfo { flags, vid }))
            } else {
                Err(DecodeError::InvalidField { code })
            }
        } else {
            match <DefaultNla as NlaDecode<()>>::parse(ctx, code, value) {
                Ok(n) => Ok(AfSpecBridge::Other(n)),
                Err(e) => Err(e),
            }
        }
    }
}

/// Fallback totality for the bridge address-family catalog: a code without a
/// rule resolves to the verbatim fallback and projects back to the same code
/// and bytes unchanged.
pub proof fn lemma_af_bridge_fallback_totality(code: u16, value: Seq<u8>)
    requires
        !spec_af_bridge_known(code),
    ensures
        AfSpecBridge::m_resolve((), code, value) == Ok::<AfSpecBridgeModel, DecodeError>(
            AfSpecBridgeModel::Other(DefaultNlaModel { code, value }),
        ),
        AfSpecBridge::m_code(AfSpecBridge::m_resolve((), code, value)->Ok_0) == code,
        AfSpecBridge::m_value(AfSpecBridge::m_resolve((), code, value)->Ok_0) == value,
{
}

} // verus!
