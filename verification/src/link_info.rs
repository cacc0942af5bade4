//! The link-info attribute: a nested list whose kind string selects how the
//! sibling data block decodes, and whose port kind string selects how the
//! sibling port-data block decodes. Dispatch here is content-dependent: the
//! scope decoded from the discriminator attributes is the context under
//! which the dependent attributes resolve.

use vstd::prelude::*;
use vstd::bytes::{spec_u16_from_le_bytes, spec_u16_to_le_bytes};
use vstd::slice::slice_subrange;
use vstd::string::StringExecFns;
use crate::align::{spec_align4, lemma_align4_smallest, align4};
use crate::bridge_info::{InfoBridge, InfoBridgeModel};
use crate::bridge_port::{InfoBridgePort, InfoBridgePortModel};
use crate::error::DecodeError;
use crate::fallback::{DefaultNla, DefaultNlaModel};
use crate::nla::{
    Nla, NlaDecode, models_of, spec_attr_bytes, spec_attrs_bytes, spec_canonical_attrs,
    spec_parse_attrs, lemma_attrs_bytes_aligned, lemma_attrs_canonical, lemma_attrs_roundtrip,
    lemma_parse_attrs_len, lemma_parse_attrs_wf, lemma_record_bytes_facts, attrs_buffer_len,
    emit_attrs, parse_attrs,
};
use vstd::utf8::encode_utf8;
use crate::values::{
    spec_strz_bytes, spec_strz_ok, spec_strz_chars, lemma_strz_roundtrip, lemma_strz_project,
    read_strz, push_strz, strz_len,
};
use vstd::slice::slice_to_vec;

verus! {

/// The type code of the kind string inside a link-info block.
pub const IFLA_INFO_KIND: u16 = 1;

/// The type code of the kind-specific data inside a link-info block.
pub const IFLA_INFO_DATA: u16 = 2;

/// The type code of the port kind string inside a link-info block.
pub const IFLA_INFO_PORT_KIND: u16 = 4;

/// The type code of the port-kind-specific data inside a link-info block.
pub const IFLA_INFO_PORT_DATA: u16 = 5;

/// The device kind a link-info block names.
#[derive(Debug, PartialEq, Eq, Clone)]
pub enum InfoKind {
    /// A bridge device.
    Bridge,
    /// A virtual ethernet pair device.
    Veth,
    /// Any kind string without a catalog of its own.
    Other(String),
}

/// The model of an [`InfoKind`].
pub enum InfoKindModel {
    Bridge,
    Veth,
    Other(Seq<char>),
}

/// The kind string a kind writes.
pub open spec fn spec_info_kind_chars(m: InfoKindModel) -> Seq<char> {
    match m {
        InfoKindModel::Bridge => "bridge"@,
        InfoKindModel::Veth => "veth"@,
        InfoKindModel::Other(s) => s,
    }
}

/// The kind a kind string selects.
pub open spec fn spec_info_kind_of_chars(s: Seq<char>) -> InfoKindModel {
    if s == "bridge"@ {
        InfoKindModel::Bridge
    } else if s == "veth"@ {
        InfoKindModel::Veth
    } else {
        InfoKindModel::Other(s)
    }
}

/// The port kind a link-info block names.
#[derive(Debug, PartialEq, Eq, Clone)]
pub enum InfoPortKind {
    /// A bridge port.
    Bridge,
    /// Any port kind string without a catalog of its own.
    Other(String),
}

/// The model of an [`InfoPortKind`].
pub enum InfoPortKindModel {
    Bridge,
    Other(Seq<char>),
}

/// The port kind string a port kind writes.
pub open spec fn spec_info_port_kind_chars(m: InfoPortKindModel) -> Seq<char> {
    match m {
        InfoPortKindModel::Bridge => "bridge"@,
        InfoPortKindModel::Other(s) => s,
    }
}

/// The port kind a port kind string selects.
pub open spec fn spec_info_port_kind_of_chars(s: Seq<char>) -> InfoPortKindModel {
    if s == "bridge"@ {
        InfoPortKindModel::Bridge
    } else {
        InfoPortKindModel::Other(s)
    }
}

/// Which data catalog the already-decoded kind string selects.
#[derive(Debug, PartialEq, Eq, Clone, Copy)]
pub enum InfoDataScope {
    /// No kind seen yet, or one without a data catalog: data is kept
    /// verbatim.
    Unknown,
    /// Bridge device data.
    Bridge,
}

/// Which port-data catalog the already-decoded port kind string selects.
#[derive(Debug, PartialEq, Eq, Clone, Copy)]
pub enum PortDataScope {
    /// No port kind seen yet, or one without a catalog: port data is kept
    /// verbatim.
    Unknown,
    /// Bridge port data.
    Bridge,
}

/// The decode context of a link-info block: the scopes its discriminator
/// attributes have selected so far.
#[derive(Debug, PartialEq, Eq, Clone, Copy)]
pub struct LinkInfoScope {
    pub data: InfoDataScope,
    pub port: PortDataScope,
}

/// The scope before any discriminator attribute was seen.
pub open spec fn spec_link_info_scope_initial() -> LinkInfoScope {
    LinkInfoScope { data: InfoDataScope::Unknown, port: PortDataScope::Unknown }
}

/// The data scope a kind string selects.
pub open spec fn spec_data_scope_of_chars(s: Seq<char>) -> InfoDataScope {
    if s == "bridge"@ {
        InfoDataScope::Bridge
    } else {
        InfoDataScope::Unknown
    }
}

/// The port-data scope a port kind string selects.
pub open spec fn spec_port_scope_of_chars(s: Seq<char>) -> PortDataScope {
    if s == "bridge"@ {
        PortDataScope::Bridge
    } else {
        PortDataScope::Unknown
    }
}

/// The kind-specific data block of a link-info block.
#[derive(Debug, PartialEq, Eq, Clone)]
pub enum InfoData {
    /// Bridge device attributes.
    Bridge(Vec<InfoBridge>),
    /// The data of a kind without a catalog of its own, raw value bytes.
    Other(Vec<u8>),
}

/// The model of an [`InfoData`].
pub enum InfoDataModel {
    Bridge(Seq<InfoBridgeModel>),
    Other(Seq<u8>),
}

/// The port-kind-specific data block of a link-info block.
#[derive(Debug, PartialEq, Eq, Clone)]
pub enum InfoPortData {
    /// Bridge port attributes.
    BridgePort(Vec<InfoBridgePort>),
    /// The data of a port kind without a catalog of its own, raw value
    /// bytes.
    Other(Vec<u8>),
}

/// The model of an [`InfoPortData`].
pub enum InfoPortDataModel {
    BridgePort(Seq<InfoBridgePortModel>),
    Other(Seq<u8>),
}

/// One attribute of a link-info block.
#[derive(Debug, PartialEq, Eq, Clone)]
pub enum LinkInfo {
    /// The device kind, a null-terminated string on the wire.
    Kind(InfoKind),
    /// The kind-specific data, decoded under the kind's scope.
    Data(InfoData),
    /// The port kind, a null-terminated string on the wire.
    PortKind(InfoPortKind),
    /// The port-kind-specific data, decoded under the port kind's scope.
    PortData(InfoPortData),
    /// Any link-info attribute this catalog has no rule for, kept verbatim.
    Other(DefaultNla),
}

/// The model of a [`LinkInfo`] attribute.
pub enum LinkInfoModel {
    Kind(InfoKindModel),
    Data(InfoDataModel),
    PortKind(InfoPortKindModel),
    PortData(InfoPortDataModel),
    Other(DefaultNlaModel),
}

/// Whether the link-info catalog has a rule for this type code.
pub open spec fn spec_link_info_known(code: u16) -> bool {
    code == IFLA_INFO_KIND || code == IFLA_INFO_DATA || code == IFLA_INFO_PORT_KIND || code
        == IFLA_INFO_PORT_DATA
}

impl Nla for LinkInfo {
    type Model = LinkInfoModel;

    open spec fn model(&self) -> LinkInfoModel {
        match self {
            LinkInfo::Kind(k) => LinkInfoModel::Kind(
                match k {
                    InfoKind::Bridge => InfoKindModel::Bridge,
                    InfoKind::Veth => InfoKindModel::Veth,
                    InfoKind::Other(s) => InfoKindModel::Other(s@),
                },
            ),
            LinkInfo::Data(d) => LinkInfoModel::Data(
                match d {
                    InfoData::Bridge(l) => InfoDataModel::Bridge(models_of(l@)),
                    InfoData::Other(v) => InfoDataModel::Other(v@),
                },
            ),
            LinkInfo::PortKind(k) => LinkInfoModel::PortKind(
                match k {
                    InfoPortKind::Bridge => InfoPortKindModel::Bridge,
                    InfoPortKind::Other(s) => InfoPortKindModel::Other(s@),
                },
            ),
            LinkInfo::PortData(d) => LinkInfoModel::PortData(
                match d {
                    InfoPortData::BridgePort(l) => InfoPortDataModel::BridgePort(models_of(l@)),
                    InfoPortData::Other(v) => InfoPortDataModel::Other(v@),
                },
            ),
            LinkInfo::Other(n) => LinkInfoModel::Other(n.model()),
        }
    }

    open spec fn m_wf(m: LinkInfoModel) -> bool {
        match m {
            LinkInfoModel::Kind(k) => {
                let s = spec_info_kind_chars(k);
                &&& (forall|j: int|
                    0 <= j < encode_utf8(s).len() ==> #[trigger] encode_utf8(s)[j] != 0)
                &&& spec_strz_bytes(s).len() + 4 <= 0xffff
                &&& (k matches InfoKindModel::Other(o) ==> spec_info_kind_of_chars(o)
                    == InfoKindModel::Other(o))
            },
            LinkInfoModel::Data(d) => match d {
                InfoDataModel::Bridge(l) => (forall|i: int|
                    0 <= i < l.len() ==> InfoBridge::m_wf(#[trigger] l[i])) && spec_attrs_bytes::<
                    InfoBridge,
                >(l).len() + 4 <= 0xffff,
                InfoDataModel::Other(v) => v.len() + 4 <= 0xffff,
            },
            LinkInfoModel::PortKind(k) => {
                let s = spec_info_port_kind_chars(k);
                &&& (forall|j: int|
                    0 <= j < encode_utf8(s).len() ==> #[trigger] encode_utf8(s)[j] != 0)
                &&& spec_strz_bytes(s).len() + 4 <= 0xffff
                &&& (k matches InfoPortKindModel::Other(o) ==> spec_info_port_kind_of_chars(o)
                    == InfoPortKindModel::Other(o))
            },
            LinkInfoModel::PortData(d) => match d {
                InfoPortDataModel::BridgePort(l) => (forall|i: int|
                    0 <= i < l.len() ==> InfoBridgePort::m_wf(#[trigger] l[i]))
                    && spec_attrs_bytes::<InfoBridgePort>(l).len() + 4 <= 0xffff,
                InfoPortDataModel::Other(v) => v.len() + 4 <= 0xffff,
            },
            LinkInfoModel::Other(n) => DefaultNla::m_wf(n) && !spec_link_info_known(n.code),
        }
    }

    open spec fn m_code(m: LinkInfoModel) -> u16 {
        match m {
            LinkInfoModel::Kind(_) => IFLA_INFO_KIND,
            LinkInfoModel::Data(_) => IFLA_INFO_DATA,
            LinkInfoModel::PortKind(_) => IFLA_INFO_PORT_KIND,
            LinkInfoModel::PortData(_) => IFLA_INFO_PORT_DATA,
            LinkInfoModel::Other(n) => n.code,
        }
    }

    open spec fn m_value(m: LinkInfoModel) -> Seq<u8> {
        match m {
            LinkInfoModel::Kind(k) => spec_strz_bytes(spec_info_kind_chars(k)),
            LinkInfoModel::Data(d) => match d {
                InfoDataModel::Bridge(l) => spec_attrs_bytes::<InfoBridge>(l),
                InfoDataModel::Other(v) => v,
            },
            LinkInfoModel::PortKind(k) => spec_strz_bytes(spec_info_port_kind_chars(k)),
            LinkInfoModel::PortData(d) => match d {
                InfoPortDataModel::BridgePort(l) => spec_attrs_bytes::<InfoBridgePort>(l),
                InfoPortDataModel::Other(v) => v,
            },
            LinkInfoModel::Other(n) => n.value,
        }
    }

    proof fn lemma_wf_len(m: LinkInfoModel) {
    }

    fn kind(&self) -> u16 {
        match self {
            LinkInfo::Kind(_) => IFLA_INFO_KIND,
            LinkInfo::Data(_) => IFLA_INFO_DATA,
            LinkInfo::PortKind(_) => IFLA_INFO_PORT_KIND,
            LinkInfo::PortData(_) => IFLA_INFO_PORT_DATA,
            LinkInfo::Other(n) => n.kind(),
        }
    }

    fn value_len(&self) -> usize {
        match self {
            LinkInfo::Kind(k) => {
                let s = info_kind_str(k);
                strz_len(s)
            },
            LinkInfo::Data(d) => match d {
                InfoData::Bridge(l) => {
                    proof {
                        assert forall|i: int| 0 <= i < l@.len() implies InfoBridge::m_wf(
                            (#[trigger] l@[i]).model(),
                        ) by {
                            assert(models_of(l@)[i] == l@[i].model());
                        }
                    }
                    attrs_buffer_len(l)
                },
                InfoData::Other(v) => v.len(),
            },
            LinkInfo::PortKind(k) => {
                let s = info_port_kind_str(k);
                strz_len(s)
            },
            LinkInfo::PortData(d) => match d {
                InfoPortData::BridgePort(l) => {
                    proof {
                        assert forall|i: int| 0 <= i < l@.len() implies InfoBridgePort::m_wf(
                            (#[trigger] l@[i]).model(),
                        ) by {
                            assert(models_of(l@)[i] == l@[i].model());
                        }
                    }
                    attrs_buffer_len(l)
                },
                InfoPortData::Other(v) => v.len(),
            },
            LinkInfo::Other(n) => n.value_len(),
        }
    }

    fn emit_value(&self, out: &mut Vec<u8>) {
        match self {
            LinkInfo::Kind(k) => {
                let s = info_kind_str(k);
                push_strz(s, out);
            },
            LinkInfo::Data(d) => match d {
                InfoData::Bridge(l) => {
                    proof {
                        assert forall|i: int| 0 <= i < l@.len() implies InfoBridge::m_wf(
                            (#[trigger] l@[i]).model(),
                        ) by {
                            assert(models_of(l@)[i] == l@[i].model());
                        }
                    }
                    emit_attrs(l, out);
                },
                InfoData::Other(v) => out.extend_from_slice(v.as_slice()),
            },
            LinkInfo::PortKind(k) => {
                let s = info_port_kind_str(k);
                push_strz(s, out);
            },
            LinkInfo::PortData(d) => match d {
                InfoPortData::BridgePort(l) => {
                    proof {
                        assert forall|i: int| 0 <= i < l@.len() implies InfoBridgePort::m_wf(
                            (#[trigger] l@[i]).model(),
                        ) by {
                            assert(models_of(l@)[i] == l@[i].model());
                        }
                    }
                    emit_attrs(l, out);
                },
                InfoPortData::Other(v) => out.extend_from_slice(v.as_slice()),
            },
            LinkInfo::Other(n) => n.emit_value(out),
        }
    }
}

/// The kind string of this kind.
fn info_kind_str(k: &InfoKind) -> (r: &str)
    ensures
        r@ == spec_info_kind_chars(
            match k {
                InfoKind::Bridge => InfoKindModel::Bridge,
                InfoKind::Veth => InfoKindModel::Veth,
                InfoKind::Other(s) => InfoKindModel::Other(s@),
            },
        ),
{
    match k {
        InfoKind::Bridge => "bridge",
        InfoKind::Veth => "veth",
        InfoKind::Other(s) => s.as_str(),
    }
}

/// The port kind string of this port kind.
fn info_port_kind_str(k: &InfoPortKind) -> (r: &str)
    ensures
        r@ == spec_info_port_kind_chars(
            match k {
                InfoPortKind::Bridge => InfoPortKindModel::Bridge,
                InfoPortKind::Other(s) => InfoPortKindModel::Other(s@),
            },
        ),
{
    match k {
        InfoPortKind::Bridge => "bridge",
        InfoPortKind::Other(s) => s.as_str(),
    }
}

impl NlaDecode<LinkInfoScope> for LinkInfo {
    open spec fn m_in_scope(m: LinkInfoModel, ctx: LinkInfoScope) -> bool {
        match m {
            LinkInfoModel::Data(d) => match d {
                InfoDataModel::Bridge(l) => ctx.data is Bridge,
                InfoDataModel::Other(_) => ctx.data is Unknown,
            },
            LinkInfoModel::PortData(d) => match d {
                InfoPortDataModel::BridgePort(_) => ctx.port is Bridge,
                InfoPortDataModel::Other(_) => ctx.port is Unknown,
            },
            _ => true,
        }
    }

    open spec fn m_resolve(ctx: LinkInfoScope, code: u16, value: Seq<u8>) -> Result<
        LinkInfoModel,
        DecodeError,
    > {
        if code == IFLA_INFO_KIND {
            if spec_strz_ok(value) {
                Ok(LinkInfoModel::Kind(spec_info_kind_of_chars(spec_strz_chars(value))))
            } else {
                Err(DecodeError::InvalidField { code })
            }
        } else if code == IFLA_INFO_DATA {
            match ctx.data {
                InfoDataScope::Bridge => {
                    if value.len() % 4 != 0 {
                        Err(DecodeError::InvalidField { code })
                    } else {
                        match spec_parse_attrs::<(), InfoBridge>((), value) {
                            Ok(l) => Ok(LinkInfoModel::Data(InfoDataModel::Bridge(l))),
                            Err(e) => Err(e),
                        }
                    }
                },
                InfoDataScope::Unknown => Ok(LinkInfoModel::Data(InfoDataModel::Other(value))),
            }
        } else if code == IFLA_INFO_PORT_KIND {
            if spec_strz_ok(value) {
                Ok(LinkInfoModel::PortKind(spec_info_port_kind_of_chars(spec_strz_chars(value))))
            } else {
                Err(DecodeError::InvalidField { code })
            }
        } else if code == IFLA_INFO_PORT_DATA {
            match ctx.port {
                PortDataScope::Bridge => {
                    if value.len() % 4 != 0 {
                        Err(DecodeError::InvalidField { code })
                    } else {
                        match spec_parse_attrs::<(), InfoBridgePort>((), value) {
                            Ok(l) => Ok(
                                LinkInfoModel::PortData(InfoPortDataModel::BridgePort(l)),
                            ),
                            Err(e) => Err(e),
                        }
                    }
                },
                PortDataScope::Unknown => Ok(
                    LinkInfoModel::PortData(InfoPortDataModel::Other(value)),
                ),
            }
        } else {
            Ok(LinkInfoModel::Other(DefaultNlaModel { code, value }))
        }
    }

    open spec fn v_canon(ctx: LinkInfoScope, code: u16, value: Seq<u8>) -> bool {
        if code == IFLA_INFO_DATA && ctx.data is Bridge {
            spec_canonical_attrs::<(), InfoBridge>((), value)
        } else if code == IFLA_INFO_PORT_DATA && ctx.port is Bridge {
            spec_canonical_attrs::<(), InfoBridgePort>((), value)
        } else {
            true
        }
    }

    proof fn lemma_resolve_project(ctx: LinkInfoScope, code: u16, value: Seq<u8>) {
        if code == IFLA_INFO_KIND || code == IFLA_INFO_PORT_KIND {
            if spec_strz_ok(value) {
                lemma_strz_project(value);
            }
        } else if code == IFLA_INFO_DATA {
            if ctx.data is Bridge && value.len() % 4 == 0 && spec_parse_attrs::<(), InfoBridge>(
                (),
                value,
            ) is Ok {
                lemma_parse_attrs_wf::<(), InfoBridge>((), value);
                lemma_parse_attrs_len::<(), InfoBridge>((), value);
                if spec_canonical_attrs::<(), InfoBridge>((), value) {
                    lemma_attrs_canonical::<(), InfoBridge>((), value);
                }
            }
        } else if code == IFLA_INFO_PORT_DATA {
            if ctx.port is Bridge && value.len() % 4 == 0 && spec_parse_attrs::<
                (),
                InfoBridgePort,
            >((), value) is Ok {
                lemma_parse_attrs_wf::<(), InfoBridgePort>((), value);
                lemma_parse_attrs_len::<(), InfoBridgePort>((), value);
                if spec_canonical_attrs::<(), InfoBridgePort>((), value) {
                    lemma_attrs_canonical::<(), InfoBridgePort>((), value);
                }
            }
        }
    }

    proof fn lemma_project_resolve(m: LinkInfoModel, ctx: LinkInfoScope) {
        reveal_strlit("bridge");
        reveal_strlit("veth");
        match m {
            LinkInfoModel::Kind(k) => {
                lemma_strz_roundtrip(spec_info_kind_chars(k));
            },
            LinkInfoModel::Data(d) => match d {
                InfoDataModel::Bridge(l) => {
                    lemma_attrs_bytes_aligned::<InfoBridge>(l);
                    lemma_attrs_roundtrip::<(), InfoBridge>((), l);
                },
                InfoDataModel::Other(_) => {},
            },
            LinkInfoModel::PortKind(k) => {
                lemma_strz_roundtrip(spec_info_port_kind_chars(k));
            },
            LinkInfoModel::PortData(d) => match d {
                InfoPortDataModel::BridgePort(l) => {
                    lemma_attrs_bytes_aligned::<InfoBridgePort>(l);
                    lemma_attrs_roundtrip::<(), InfoBridgePort>((), l);
                },
                InfoPortDataModel::Other(_) => {},
            },
            LinkInfoModel::Other(_) => {},
        }
    }

    fn parse(ctx: &LinkInfoScope, code: u16, value: &[u8]) -> Result<LinkInfo, DecodeError> {
        if code == IFLA_INFO_KIND {
            match read_strz(value) {
                Some(s) => {
                    if s == String::from_str(bridge_kind_str()) {
                        Ok(LinkInfo::Kind(InfoKind::Bridge))
                    } else if s == String::from_str(veth_kind_str()) {
                        Ok(LinkInfo::Kind(InfoKind::Veth))
                    } else {
                        Ok(LinkInfo::Kind(InfoKind::Other(s)))
                    }
                },
                None => Err(DecodeError::InvalidField { code }),
            }
        } else if code == IFLA_INFO_DATA {
            match ctx.data {
                InfoDataScope::Bridge => {
                    if value.len() % 4 != 0 {
                        Err(DecodeError::InvalidField { code })
                    } else {
                        match parse_attrs::<(), InfoBridge>(&(), value) {
                            Ok(l) => Ok(LinkInfo::Data(InfoData::Bridge(l))),
                            Err(e) => Err(e),
                        }
                    }
                },
                InfoDataScope::Unknown => Ok(LinkInfo::Data(InfoData::Other(slice_to_vec(value)))),
            }
        } else if code == IFLA_INFO_PORT_KIND {
            match read_strz(value) {
                Some(s) => {
                    if s == String::from_str(bridge_kind_str()) {
                        Ok(LinkInfo::PortKind(InfoPortKind::Bridge))
                    } else {
                        Ok(LinkInfo::PortKind(InfoPortKind::Other(s)))
                    }
                },
                None => Err(DecodeError::InvalidField { code }),
            }
        } else if code == IFLA_INFO_PORT_DATA {
            match ctx.port {
                PortDataScope::Bridge => {
                    if value.len() % 4 != 0 {
                        Err(DecodeError::InvalidField { code })
                    } else {
                        match parse_attrs::<(), InfoBridgePort>(&(), value) {
                            Ok(l) => Ok(LinkInfo::PortData(InfoPortData::BridgePort(l))),
                            Err(e) => Err(e),
                        }
                    }
                },
                PortDataScope::Unknown => Ok(
                    LinkInfo::PortData(InfoPortData::Other(slice_to_vec(value))),
                ),
            }
        } else {
            match <DefaultNla as NlaDecode<()>>::parse(&(), code, value) {
                Ok(n) => Ok(LinkInfo::Other(n)),
                Err(e) => Err(e),
            }
        }
    }
}

/// The bridge kind string.
fn bridge_kind_str() -> (r: &'static str)
    ensures
        r@ == "bridge"@,
{
    "bridge"
}

/// The veth kind string.
fn veth_kind_str() -> (r: &'static str)
    ensures
        r@ == "veth"@,
{
    "veth"
}

/// How one record changes the link-info scope for the records after it: a
/// kind or port kind record with a well-formed string selects its scope.
pub open spec fn spec_link_info_scope_step_rec(
    scope: LinkInfoScope,
    code: u16,
    value: Seq<u8>,
) -> LinkInfoScope {
    if code == IFLA_INFO_KIND && spec_strz_ok(value) {
        LinkInfoScope { data: spec_data_scope_of_chars(spec_strz_chars(value)), ..scope }
    } else if code == IFLA_INFO_PORT_KIND && spec_strz_ok(value) {
        LinkInfoScope { port: spec_port_scope_of_chars(spec_strz_chars(value)), ..scope }
    } else {
        scope
    }
}

/// How one decoded attribute changes the link-info scope.
pub open spec fn spec_link_info_scope_step(scope: LinkInfoScope, m: LinkInfoModel)
    -> LinkInfoScope {
    match m {
        LinkInfoModel::Kind(k) => LinkInfoScope {
            data: spec_data_scope_of_chars(spec_info_kind_chars(k)),
            ..scope
        },
        LinkInfoModel::PortKind(k) => LinkInfoScope {
            port: spec_port_scope_of_chars(spec_info_port_kind_chars(k)),
            ..scope
        },
        _ => scope,
    }
}

/// What walking a link-info block yields: the stream walk with the scope
/// threaded from record to record.
pub open spec fn spec_parse_link_info(scope: LinkInfoScope, b: Seq<u8>) -> Result<
    Seq<LinkInfoModel>,
    DecodeError,
>
    decreases b.len(),
{
    if b.len() == 0 {
        Ok(Seq::empty())
    } else if b.len() < 4 {
        Err(DecodeError::TooShort { expected: 4, available: b.len() as usize })
    } else {
        let stored = spec_u16_from_le_bytes(b.subrange(0, 2)) as int;
        let code = spec_u16_from_le_bytes(b.subrange(2, 4));
        if stored < 4 {
            Err(DecodeError::InvalidField { code })
        } else if stored > b.len() {
            Err(DecodeError::TooShort { expected: stored as usize, available: b.len() as usize })
        } else {
            let next = if spec_align4(stored) <= b.len() {
                spec_align4(stored)
            } else {
                b.len() as int
            };
            let value = b.subrange(4, stored);
            match LinkInfo::m_resolve(scope, code, value) {
                Ok(m) => match spec_parse_link_info(
                    spec_link_info_scope_step_rec(scope, code, value),
                    b.subrange(next, b.len() as int),
                ) {
                    Ok(rest) => Ok(seq![m] + rest),
                    Err(e) => Err(e),
                },
                Err(e) => Err(e),
            }
        }
    }
}

/// A link-info list is well-formed when each attribute is well-formed and in
/// the scope the attributes before it select.
pub open spec fn spec_link_info_wf(scope: LinkInfoScope, ms: Seq<LinkInfoModel>) -> bool
    decreases ms.len(),
{
    ms.len() == 0 || {
        &&& LinkInfo::m_wf(ms[0])
        &&& LinkInfo::m_in_scope(ms[0], scope)
        &&& spec_link_info_wf(
            spec_link_info_scope_step(scope, ms[0]),
            ms.subrange(1, ms.len() as int),
        )
    }
}

/// Each attribute of a well-formed link-info list is well-formed.
pub proof fn lemma_link_info_wf_each(scope: LinkInfoScope, ms: Seq<LinkInfoModel>)
    requires
        spec_link_info_wf(scope, ms),
    ensures
        forall|i: int| 0 <= i < ms.len() ==> LinkInfo::m_wf(#[trigger] ms[i]),
    decreases ms.len(),
{
    if ms.len() > 0 {
        lemma_link_info_wf_each(
            spec_link_info_scope_step(scope, ms[0]),
            ms.subrange(1, ms.len() as int),
        );
        assert forall|i: int| 0 <= i < ms.len() implies LinkInfo::m_wf(#[trigger] ms[i]) by {
            if i > 0 {
                assert(ms[i] == ms.subrange(1, ms.len() as int)[i - 1]);
            }
        }
    }
}

/// A resolved record steps the scope exactly as its decoded attribute does.
proof fn lemma_link_info_scope_step_agree(scope: LinkInfoScope, m: LinkInfoModel)
    requires
        LinkInfo::m_wf(m),
    ensures
        spec_link_info_scope_step_rec(scope, LinkInfo::m_code(m), LinkInfo::m_value(m))
            == spec_link_info_scope_step(scope, m),
{
    reveal_strlit("bridge");
    reveal_strlit("veth");
    match m {
        LinkInfoModel::Kind(k) => {
            lemma_strz_roundtrip(spec_info_kind_chars(k));
        },
        LinkInfoModel::PortKind(k) => {
            lemma_strz_roundtrip(spec_info_port_kind_chars(k));
        },
        _ => {},
    }
}

/// The round-trip law for link-info blocks, decode after encode.
pub proof fn lemma_link_info_roundtrip(scope: LinkInfoScope, ms: Seq<LinkInfoModel>)
    requires
        spec_link_info_wf(scope, ms),
    ensures
        spec_parse_link_info(scope, spec_attrs_bytes::<LinkInfo>(ms)) == Ok::<
            Seq<LinkInfoModel>,
            DecodeError,
        >(ms),
    decreases ms.len(),
{
    vstd::bytes::lemma_auto_spec_u16_to_from_le_bytes();
    if ms.len() == 0 {
        assert(ms =~= Seq::<LinkInfoModel>::empty());
        assert(spec_attrs_bytes::<LinkInfo>(ms) == Seq::<u8>::empty());
    } else {
        let m = ms[0];
        LinkInfo::lemma_wf_len(m);
        let val = LinkInfo::m_value(m);
        let stored = val.len() + 4;
        let rec = spec_attr_bytes::<LinkInfo>(m);
        let tail = ms.subrange(1, ms.len() as int);
        let rest = spec_attrs_bytes::<LinkInfo>(tail);
        let b = spec_attrs_bytes::<LinkInfo>(ms);
        assert(b == rec + rest);
        lemma_record_bytes_facts(LinkInfo::m_code(m), val);
        lemma_align4_smallest(stored as int);
        assert(rec.len() == spec_align4(stored as int));
        assert(b.len() >= 4);
        assert(b.subrange(0, 2) =~= rec.subrange(0, 2));
        assert(b.subrange(2, 4) =~= rec.subrange(2, 4));
        assert(spec_u16_from_le_bytes(b.subrange(0, 2)) == stored as u16);
        assert(spec_u16_from_le_bytes(b.subrange(2, 4)) == LinkInfo::m_code(m));
        assert(stored <= rec.len() <= b.len());
        assert(b.subrange(4, stored as int) =~= rec.subrange(4, stored as int));
        assert(b.subrange(4, stored as int) == val);
        LinkInfo::lemma_project_resolve(m, scope);
        lemma_link_info_scope_step_agree(scope, m);
        let next = spec_align4(stored as int);
        assert(b.subrange(next, b.len() as int) =~= rest);
        lemma_link_info_roundtrip(spec_link_info_scope_step(scope, m), tail);
        let stored_rd = spec_u16_from_le_bytes(b.subrange(0, 2)) as int;
        assert(stored_rd == stored);
        assert(spec_parse_link_info(scope, b) == Ok::<Seq<LinkInfoModel>, DecodeError>(
            seq![m] + tail,
        ));
        assert(seq![m] + tail =~= ms);
    }
}

/// A canonical link-info stream: full zero padding, and each record's value
/// canonical for the rule its code selects in the scope where it stands.
pub open spec fn spec_canonical_link_info(scope: LinkInfoScope, b: Seq<u8>) -> bool
    decreases b.len(),
{
    if b.len() == 0 {
        true
    } else if b.len() < 4 {
        false
    } else {
        let stored = spec_u16_from_le_bytes(b.subrange(0, 2)) as int;
        let code = spec_u16_from_le_bytes(b.subrange(2, 4));
        let value = b.subrange(4, stored);
        &&& 4 <= stored
        &&& spec_align4(stored) <= b.len()
        &&& (forall|j: int| stored <= j < spec_align4(stored) ==> #[trigger] b[j] == 0)
        &&& LinkInfo::v_canon(scope, code, value)
        &&& spec_canonical_link_info(
            spec_link_info_scope_step_rec(scope, code, value),
            b.subrange(spec_align4(stored), b.len() as int),
        )
    }
}

/// The walk of a successful link-info stream yields a well-formed list.
pub proof fn lemma_parse_link_info_wf(scope: LinkInfoScope, b: Seq<u8>)
    requires
        spec_parse_link_info(scope, b) is Ok,
    ensures
        spec_link_info_wf(scope, spec_parse_link_info(scope, b)->Ok_0),
    decreases b.len(),
{
    if b.len() >= 4 {
        let stored = spec_u16_from_le_bytes(b.subrange(0, 2)) as int;
        if 4 <= stored <= b.len() {
            let code = spec_u16_from_le_bytes(b.subrange(2, 4));
            let value = b.subrange(4, stored);
            let next = if spec_align4(stored) <= b.len() {
                spec_align4(stored)
            } else {
                b.len() as int
            };
            LinkInfo::lemma_resolve_project(scope, code, value);
            if LinkInfo::m_resolve(scope, code, value) is Ok {
                let m = LinkInfo::m_resolve(scope, code, value)->Ok_0;
                let scope2 = spec_link_info_scope_step_rec(scope, code, value);
                lemma_parse_link_info_wf(scope2, b.subrange(next, b.len() as int));
                if spec_parse_link_info(scope2, b.subrange(next, b.len() as int)) is Ok {
                    let rest = spec_parse_link_info(scope2, b.subrange(next, b.len() as int))->Ok_0;
                    lemma_link_info_scope_step_agree(scope, m);
                    assert((seq![m] + rest).subrange(1, (seq![m] + rest).len() as int) =~= rest);
                    assert((seq![m] + rest)[0] == m);
                }
            }
        }
    }
}

/// A successful link-info walk over a 4-byte-aligned range yields a list
/// whose records occupy exactly the range's length when re-encoded.
pub proof fn lemma_parse_link_info_len(scope: LinkInfoScope, b: Seq<u8>)
    requires
        spec_parse_link_info(scope, b) is Ok,
        b.len() % 4 == 0,
    ensures
        spec_attrs_bytes::<LinkInfo>(spec_parse_link_info(scope, b)->Ok_0).len() == b.len(),
    decreases b.len(),
{
    if b.len() == 0 {
    } else {
        let stored = spec_u16_from_le_bytes(b.subrange(0, 2)) as int;
        let code = spec_u16_from_le_bytes(b.subrange(2, 4));
        let val = b.subrange(4, stored);
        lemma_align4_smallest(stored);
        lemma_align4_smallest(b.len() as int);
        assert(spec_align4(stored) <= b.len());
        let next = spec_align4(stored);
        let scope2 = spec_link_info_scope_step_rec(scope, code, val);
        let suffix = b.subrange(next, b.len() as int);
        let m = LinkInfo::m_resolve(scope, code, val)->Ok_0;
        LinkInfo::lemma_resolve_project(scope, code, val);
        assert(suffix.len() % 4 == 0) by {
            assert(next % 4 == 0);
            assert(suffix.len() == b.len() - next);
        }
        lemma_parse_link_info_len(scope2, suffix);
        let rest = spec_parse_link_info(scope2, suffix)->Ok_0;
        let ms = spec_parse_link_info(scope, b)->Ok_0;
        assert(ms == seq![m] + rest);
        lemma_record_bytes_facts(code, LinkInfo::m_value(m));
        assert((seq![m] + rest).subrange(1, (seq![m] + rest).len() as int) =~= rest);
        assert(spec_attrs_bytes::<LinkInfo>(ms) == spec_attr_bytes::<LinkInfo>(m)
            + spec_attrs_bytes::<LinkInfo>(rest));
        assert(spec_attr_bytes::<LinkInfo>(m).len() == spec_align4(
            LinkInfo::m_value(m).len() + 4 as int,
        ));
    }
}

/// The round-trip law for link-info blocks, encode after decode: a canonical
/// stream is reproduced byte for byte.
pub proof fn lemma_link_info_canonical(scope: LinkInfoScope, b: Seq<u8>)
    requires
        spec_canonical_link_info(scope, b),
        spec_parse_link_info(scope, b) is Ok,
    ensures
        spec_attrs_bytes::<LinkInfo>(spec_parse_link_info(scope, b)->Ok_0) == b,
    decreases b.len(),
{
    vstd::bytes::lemma_auto_spec_u16_to_from_le_bytes();
    if b.len() == 0 {
        assert(spec_attrs_bytes::<LinkInfo>(spec_parse_link_info(scope, b)->Ok_0) =~= b);
    } else {
        let stored = spec_u16_from_le_bytes(b.subrange(0, 2)) as int;
        let code = spec_u16_from_le_bytes(b.subrange(2, 4));
        let val = b.subrange(4, stored);
        let next = spec_align4(stored);
        lemma_align4_smallest(stored);
        let scope2 = spec_link_info_scope_step_rec(scope, code, val);
        let suffix = b.subrange(next, b.len() as int);
        let m = LinkInfo::m_resolve(scope, code, val)->Ok_0;
        LinkInfo::lemma_resolve_project(scope, code, val);
        assert(LinkInfo::m_code(m) == code && LinkInfo::m_value(m) == val && LinkInfo::m_wf(m));
        lemma_link_info_canonical(scope2, suffix);
        let rest = spec_parse_link_info(scope2, suffix)->Ok_0;
        let ms = spec_parse_link_info(scope, b)->Ok_0;
        assert(ms == seq![m] + rest);
        lemma_record_bytes_facts(code, val);
        assert(spec_attr_bytes::<LinkInfo>(m).len() == next);
        assert(spec_attr_bytes::<LinkInfo>(m) =~= b.subrange(0, next)) by {
            let rec = spec_attr_bytes::<LinkInfo>(m);
            assert(rec.subrange(0, 2) == spec_u16_to_le_bytes(stored as u16));
            assert(b.subrange(0, 2) == spec_u16_to_le_bytes(stored as u16));
            assert forall|j: int| 0 <= j < next implies rec[j] == b[j] by {
                if j < 2 {
                    assert(rec[j] == rec.subrange(0, 2)[j]);
                    assert(b[j] == b.subrange(0, 2)[j]);
                } else if j < 4 {
                    assert(rec[j] == rec.subrange(2, 4)[j - 2]);
                    assert(b[j] == b.subrange(2, 4)[j - 2]);
                } else if j < stored {
                    assert(rec[j] == rec.subrange(4, stored)[j - 4]);
                    assert(b[j] == b.subrange(4, stored)[j - 4]);
                } else {
                    assert(rec[j] == 0);
                    assert(b[j] == 0);
                }
            }
        }
        assert((seq![m] + rest).subrange(1, (seq![m] + rest).len() as int) =~= rest);
        assert(spec_attrs_bytes::<LinkInfo>(ms) == spec_attr_bytes::<LinkInfo>(m)
            + spec_attrs_bytes::<LinkInfo>(rest));
        assert(spec_attr_bytes::<LinkInfo>(m) + spec_attrs_bytes::<LinkInfo>(rest) =~= b);
    }
}

/// Walks a link-info block, threading the scope, exactly as
/// [`spec_parse_link_info`] says.
pub fn parse_link_info(buf: &[u8]) -> (r: Result<Vec<LinkInfo>, DecodeError>)
    ensures
        match r {
            Ok(v) => spec_parse_link_info(spec_link_info_scope_initial(), buf@) == Ok::<
                Seq<LinkInfoModel>,
                DecodeError,
            >(models_of(v@)),
            Err(e) => spec_parse_link_info(spec_link_info_scope_initial(), buf@) == Err::<
                Seq<LinkInfoModel>,
                DecodeError,
            >(e),
        },
{
    let len = buf.len();
    let mut out: Vec<LinkInfo> = Vec::new();
    let mut i: usize = 0;
    let mut scope = LinkInfoScope { data: InfoDataScope::Unknown, port: PortDataScope::Unknown };
    proof {
        assert(buf@.subrange(0, len as int) =~= buf@);
        assert forall|s: Seq<LinkInfoModel>|
            spec_parse_link_info(scope, buf@.subrange(0, len as int)) == Ok::<
                Seq<LinkInfoModel>,
                DecodeError,
            >(s) implies spec_parse_link_info(spec_link_info_scope_initial(), buf@) == Ok::<
            Seq<LinkInfoModel>,
            DecodeError,
        >(models_of(out@) + s) by {
            assert(models_of(out@) + s =~= s);
        }
    }
    while i < len
        invariant
            i <= len,
            len == buf@.len(),
            forall|s: Seq<LinkInfoModel>|
                spec_parse_link_info(scope, buf@.subrange(i as int, len as int)) == Ok::<
                    Seq<LinkInfoModel>,
                    DecodeError,
                >(s) ==> spec_parse_link_info(spec_link_info_scope_initial(), buf@) == Ok::<
                    Seq<LinkInfoModel>,
                    DecodeError,
                >(models_of(out@) + s),
            forall|e: DecodeError|
                spec_parse_link_info(scope, buf@.subrange(i as int, len as int)) == Err::<
                    Seq<LinkInfoModel>,
                    DecodeError,
                >(e) ==> spec_parse_link_info(spec_link_info_scope_initial(), buf@) == Err::<
                    Seq<LinkInfoModel>,
                    DecodeError,
                >(e),
        decreases len - i,
    {
        let ghost suffix = buf@.subrange(i as int, len as int);
        let rem = len - i;
        if rem < 4 {
            return Err(DecodeError::TooShort { expected: 4, available: rem });
        }
        let stored = vstd::bytes::u16_from_le_bytes(slice_subrange(buf, i, i + 2)) as usize;
        let code = vstd::bytes::u16_from_le_bytes(slice_subrange(buf, i + 2, i + 4));
        proof {
            assert(buf@.subrange(i as int, i + 2) =~= suffix.subrange(0, 2));
            assert(buf@.subrange(i + 2, i + 4) =~= suffix.subrange(2, 4));
        }
        if stored < 4 {
            return Err(DecodeError::InvalidField { code });
        }
        if stored > rem {
            return Err(DecodeError::TooShort { expected: stored, available: rem });
        }
        let value = slice_subrange(buf, i + 4, i + stored);
        proof {
            assert(buf@.subrange(i + 4, i + stored) =~= suffix.subrange(4, stored as int));
        }
        match LinkInfo::parse(&scope, code, value) {
            Err(e) => {
                return Err(e);
            },
            Ok(a) => {
                let ghost old_scope = scope;
                if code == IFLA_INFO_KIND {
                    if let LinkInfo::Kind(k) = &a {
                        scope.data = match k {
                            InfoKind::Bridge => InfoDataScope::Bridge,
                            _ => InfoDataScope::Unknown,
                        };
                    }
                } else if code == IFLA_INFO_PORT_KIND {
                    if let LinkInfo::PortKind(k) = &a {
                        scope.port = match k {
                            InfoPortKind::Bridge => PortDataScope::Bridge,
                            _ => PortDataScope::Unknown,
                        };
                    }
                }
                proof {
                    assert(scope == spec_link_info_scope_step_rec(
                        old_scope,
                        code,
                        suffix.subrange(4, stored as int),
                    ));
                }
                let aligned = align4(stored);
                let step = if aligned < rem {
                    aligned
                } else {
                    rem
                };
                proof {
                    let ghost next = i + step;
                    assert(buf@.subrange(next as int, len as int) =~= suffix.subrange(
                        step as int,
                        suffix.len() as int,
                    ));
                    assert forall|s: Seq<LinkInfoModel>|
                        spec_parse_link_info(scope, buf@.subrange(next as int, len as int)) == Ok::<
                            Seq<LinkInfoModel>,
                            DecodeError,
                        >(s) implies spec_parse_link_info(
                        spec_link_info_scope_initial(),
                        buf@,
                    ) == Ok::<Seq<LinkInfoModel>, DecodeError>(models_of(out@.push(a)) + s) by {
                        assert(spec_parse_link_info(old_scope, suffix) == Ok::<
                            Seq<LinkInfoModel>,
                            DecodeError,
                        >(seq![a.model()] + s));
                        assert(models_of(out@) + (seq![a.model()] + s) =~= models_of(out@.push(a))
                            + s);
                    }
                    assert forall|e: DecodeError|
                        spec_parse_link_info(scope, buf@.subrange(next as int, len as int))
                            == Err::<Seq<LinkInfoModel>, DecodeError>(e) implies
                        spec_parse_link_info(spec_link_info_scope_initial(), buf@) == Err::<
                        Seq<LinkInfoModel>,
                        DecodeError,
                    >(e) by {
                        assert(spec_parse_link_info(old_scope, suffix) == Err::<
                            Seq<LinkInfoModel>,
                            DecodeError,
                        >(e));
                    }
                }
                out.push(a);
                i = i + step;
            },
        }
    }
    proof {
        assert(buf@.subrange(len as int, len as int) =~= Seq::<u8>::empty());
        assert(spec_parse_link_info(scope, buf@.subrange(len as int, len as int)) == Ok::<
            Seq<LinkInfoModel>,
            DecodeError,
        >(Seq::<LinkInfoModel>::empty()));
        assert(models_of(out@) + Seq::<LinkInfoModel>::empty() =~= models_of(out@));
    }
    Ok(out)
}

} // verus!
