//! IPv4 device configuration carried by the unspecified address-family
//! attribute of a link message.

use vstd::prelude::*;
use crate::error::DecodeError;
use crate::fallback::{DefaultNla, DefaultNlaModel};
use crate::nla::{Nla, NlaDecode};
use crate::values::{spec_u32_of_i32, spec_i32_of_u32, lemma_i32_u32_inverse, u32_of_i32,
    i32_of_u32};
use crate::words::{
    spec_words32_bytes, spec_words32_of, lemma_words32_facts, lemma_words32_roundtrip,
    lemma_words32_project, read_words32, push_words32,
};

verus! {

/// The type code of the IPv4 device configuration block.
pub const IFLA_INET_CONF: u16 = 1;

/// InetDevConf: 33 i32 fields, 132 bytes on the wire in field order.
#[derive(Debug, PartialEq, Eq, Clone, Copy)]
pub struct InetDevConf {
    pub forwarding: i32,
    pub mc_forwarding: i32,
    pub proxy_arp: i32,
    pub accept_redirects: i32,
    pub secure_redirects: i32,
    pub send_redirects: i32,
    pub shared_media: i32,
    pub rp_filter: i32,
    pub accept_source_route: i32,
    pub bootp_relay: i32,
    pub log_martians: i32,
    pub tag: i32,
    pub arpfilter: i32,
    pub medium_id: i32,
    pub noxfrm: i32,
    pub nopolicy: i32,
    pub force_igmp_version: i32,
    pub arp_announce: i32,
    pub arp_ignore: i32,
    pub promote_secondaries: i32,
    pub arp_accept: i32,
    pub arp_notify: i32,
    pub accept_local: i32,
    pub src_vmark: i32,
    pub proxy_arp_pvlan: i32,
    pub route_localnet: i32,
    pub igmpv2_unsolicited_report_interval: i32,
    pub igmpv3_unsolicited_report_interval: i32,
    pub ignore_routes_with_linkdown: i32,
    pub drop_unicast_in_l2_multicast: i32,
    pub drop_gratuitous_arp: i32,
    pub bc_forwarding: i32,
    pub arp_evict_nocarrier: i32,
}

/// The wire words of a [`InetDevConf`], in field order.
pub open spec fn spec_inet_dev_conf_words(s: InetDevConf) -> Seq<u32> {
    seq![
        spec_u32_of_i32(s.forwarding),
        spec_u32_of_i32(s.mc_forwarding),
        spec_u32_of_i32(s.proxy_arp),
        spec_u32_of_i32(s.accept_redirects),
        spec_u32_of_i32(s.secure_redirects),
        spec_u32_of_i32(s.send_redirects),
        spec_u32_of_i32(s.shared_media),
        spec_u32_of_i32(s.rp_filter),
        spec_u32_of_i32(s.accept_source_route),
        spec_u32_of_i32(s.bootp_relay),
        spec_u32_of_i32(s.log_martians),
        spec_u32_of_i32(s.tag),
        spec_u32_of_i32(s.arpfilter),
        spec_u32_of_i32(s.medium_id),
        spec_u32_of_i32(s.noxfrm),
        spec_u32_of_i32(s.nopolicy),
        spec_u32_of_i32(s.force_igmp_version),
        spec_u32_of_i32(s.arp_announce),
        spec_u32_of_i32(s.arp_ignore),
        spec_u32_of_i32(s.promote_secondaries),
        spec_u32_of_i32(s.arp_accept),
        spec_u32_of_i32(s.arp_notify),
        spec_u32_of_i32(s.accept_local),
        spec_u32_of_i32(s.src_vmark),
        spec_u32_of_i32(s.proxy_arp_pvlan),
        spec_u32_of_i32(s.route_localnet),
        spec_u32_of_i32(s.igmpv2_unsolicited_report_interval),
        spec_u32_of_i32(s.igmpv3_unsolicited_report_interval),
        spec_u32_of_i32(s.ignore_routes_with_linkdown),
        spec_u32_of_i32(s.drop_unicast_in_l2_multicast),
        spec_u32_of_i32(s.drop_gratuitous_arp),
        spec_u32_of_i32(s.bc_forwarding),
        spec_u32_of_i32(s.arp_evict_nocarrier),
    ]
}

/// The [`InetDevConf`] of a run of wire words.
pub open spec fn spec_inet_dev_conf_from_words(ws: Seq<u32>) -> InetDevConf
    recommends
        ws.len() == 33,
{
    InetDevConf {
        forwarding: spec_i32_of_u32(ws[0]),
        mc_forwarding: spec_i32_of_u32(ws[1]),
        proxy_arp: spec_i32_of_u32(ws[2]),
        accept_redirects: spec_i32_of_u32(ws[3]),
        secure_redirects: spec_i32_of_u32(ws[4]),
        send_redirects: spec_i32_of_u32(ws[5]),
        shared_media: spec_i32_of_u32(ws[6]),
        rp_filter: spec_i32_of_u32(ws[7]),
        accept_source_route: spec_i32_of_u32(ws[8]),
        bootp_relay: spec_i32_of_u32(ws[9]),
        log_martians: spec_i32_of_u32(ws[10]),
        tag: spec_i32_of_u32(ws[11]),
        arpfilter: spec_i32_of_u32(ws[12]),
        medium_id: spec_i32_of_u32(ws[13]),
        noxfrm: spec_i32_of_u32(ws[14]),
        nopolicy: spec_i32_of_u32(ws[15]),
        force_igmp_version: spec_i32_of_u32(ws[16]),
        arp_announce: spec_i32_of_u32(ws[17]),
        arp_ignore: spec_i32_of_u32(ws[18]),
        promote_secondaries: spec_i32_of_u32(ws[19]),
        arp_accept: spec_i32_of_u32(ws[20]),
        arp_notify: spec_i32_of_u32(ws[21]),
        accept_local: spec_i32_of_u32(ws[22]),
        src_vmark: spec_i32_of_u32(ws[23]),
        proxy_arp_pvlan: spec_i32_of_u32(ws[24]),
        route_localnet: spec_i32_of_u32(ws[25]),
        igmpv2_unsolicited_report_interval: spec_i32_of_u32(ws[26]),
        igmpv3_unsolicited_report_interval: spec_i32_of_u32(ws[27]),
        ignore_routes_with_linkdown: spec_i32_of_u32(ws[28]),
        drop_unicast_in_l2_multicast: spec_i32_of_u32(ws[29]),
        drop_gratuitous_arp: spec_i32_of_u32(ws[30]),
        bc_forwarding: spec_i32_of_u32(ws[31]),
        arp_evict_nocarrier: spec_i32_of_u32(ws[32]),
    }
}

/// The wire bytes of a [`InetDevConf`].
pub open spec fn spec_inet_dev_conf_bytes(s: InetDevConf) -> Seq<u8> {
    spec_words32_bytes(spec_inet_dev_conf_words(s))
}

/// What decoding a [`InetDevConf`] value yields: strict on width.
pub open spec fn spec_inet_dev_conf_parse(v: Seq<u8>, code: u16) -> Result<InetDevConf, DecodeError> {
    if v.len() < 132 {
        Err(DecodeError::TooShort { expected: 132, available: v.len() as usize })
    } else if v.len() > 132 {
        Err(DecodeError::InvalidField { code })
    } else {
        Ok(spec_inet_dev_conf_from_words(spec_words32_of(v)))
    }
}

/// Decoding inverts encoding for [`InetDevConf`], and vice versa.
pub proof fn lemma_inet_dev_conf_roundtrip(s: InetDevConf, v: Seq<u8>, code: u16)
    ensures
        spec_inet_dev_conf_bytes(s).len() == 132,
        spec_inet_dev_conf_parse(spec_inet_dev_conf_bytes(s), code) == Ok::<InetDevConf, DecodeError>(s),
        spec_inet_dev_conf_parse(v, code) matches Ok(t) ==> spec_inet_dev_conf_bytes(t) == v,
{
    lemma_i32_u32_inverse();
    lemma_words32_facts(spec_inet_dev_conf_words(s));
    lemma_words32_roundtrip(spec_inet_dev_conf_words(s));
    assert(spec_inet_dev_conf_from_words(spec_inet_dev_conf_words(s)) == s);
    if spec_inet_dev_conf_parse(v, code) is Ok {
        let ws = spec_words32_of(v);
        lemma_words32_project(v);
        assert(spec_inet_dev_conf_words(spec_inet_dev_conf_from_words(ws)) =~= ws);
    }
}

/// The wire words of this value, in field order.
pub fn inet_dev_conf_words(s: &InetDevConf) -> (r: Vec<u32>)
    ensures
        r@ == spec_inet_dev_conf_words(*s),
{
    let mut ws: Vec<u32> = Vec::new();
    ws.push(u32_of_i32(s.forwarding));
    ws.push(u32_of_i32(s.mc_forwarding));
    ws.push(u32_of_i32(s.proxy_arp));
    ws.push(u32_of_i32(s.accept_redirects));
    ws.push(u32_of_i32(s.secure_redirects));
    ws.push(u32_of_i32(s.send_redirects));
    ws.push(u32_of_i32(s.shared_media));
    ws.push(u32_of_i32(s.rp_filter));
    ws.push(u32_of_i32(s.accept_source_route));
    ws.push(u32_of_i32(s.bootp_relay));
    ws.push(u32_of_i32(s.log_martians));
    ws.push(u32_of_i32(s.tag));
    ws.push(u32_of_i32(s.arpfilter));
    ws.push(u32_of_i32(s.medium_id));
    ws.push(u32_of_i32(s.noxfrm));
    ws.push(u32_of_i32(s.nopolicy));
    ws.push(u32_of_i32(s.force_igmp_version));
    ws.push(u32_of_i32(s.arp_announce));
    ws.push(u32_of_i32(s.arp_ignore));
    ws.push(u32_of_i32(s.promote_secondaries));
    ws.push(u32_of_i32(s.arp_accept));
    ws.push(u32_of_i32(s.arp_notify));
    ws.push(u32_of_i32(s.accept_local));
    ws.push(u32_of_i32(s.src_vmark));
    ws.push(u32_of_i32(s.proxy_arp_pvlan));
    ws.push(u32_of_i32(s.route_localnet));
    ws.push(u32_of_i32(s.igmpv2_unsolicited_report_interval));
    ws.push(u32_of_i32(s.igmpv3_unsolicited_report_interval));
    ws.push(u32_of_i32(s.ignore_routes_with_linkdown));
    ws.push(u32_of_i32(s.drop_unicast_in_l2_multicast));
    ws.push(u32_of_i32(s.drop_gratuitous_arp));
    ws.push(u32_of_i32(s.bc_forwarding));
    ws.push(u32_of_i32(s.arp_evict_nocarrier));
    assert(ws@ =~= spec_inet_dev_conf_words(*s));
    ws
}

/// Decodes a [`InetDevConf`] value.
pub fn parse_inet_dev_conf(value: &[u8], code: u16) -> (r: Result<InetDevConf, DecodeError>)
    ensures
        r == spec_inet_dev_conf_parse(value@, code),
{
    let n = value.len();
    if n < 132 {
        return Err(DecodeError::TooShort { expected: 132, available: n });
    }
    if n > 132 {
        return Err(DecodeError::InvalidField { code });
    }
    let ws = match read_words32(value) {
        Some(ws) => ws,
        None => {
            return Err(DecodeError::InvalidField { code });
        },
    };
    let s = InetDevConf {
        forwarding: i32_of_u32(ws[0]),
        mc_forwarding: i32_of_u32(ws[1]),
        proxy_arp: i32_of_u32(ws[2]),
        accept_redirects: i32_of_u32(ws[3]),
        secure_redirects: i32_of_u32(ws[4]),
        send_redirects: i32_of_u32(ws[5]),
        shared_media: i32_of_u32(ws[6]),
        rp_filter: i32_of_u32(ws[7]),
        accept_source_route: i32_of_u32(ws[8]),
        bootp_relay: i32_of_u32(ws[9]),
        log_martians: i32_of_u32(ws[10]),
        tag: i32_of_u32(ws[11]),
        arpfilter: i32_of_u32(ws[12]),
        medium_id: i32_of_u32(ws[13]),
        noxfrm: i32_of_u32(ws[14]),
        nopolicy: i32_of_u32(ws[15]),
        force_igmp_version: i32_of_u32(ws[16]),
        arp_announce: i32_of_u32(ws[17]),
        arp_ignore: i32_of_u32(ws[18]),
        promote_secondaries: i32_of_u32(ws[19]),
        arp_accept: i32_of_u32(ws[20]),
        arp_notify: i32_of_u32(ws[21]),
        accept_local: i32_of_u32(ws[22]),
        src_vmark: i32_of_u32(ws[23]),
        proxy_arp_pvlan: i32_of_u32(ws[24]),
        route_localnet: i32_of_u32(ws[25]),
        igmpv2_unsolicited_report_interval: i32_of_u32(ws[26]),
        igmpv3_unsolicited_report_interval: i32_of_u32(ws[27]),
        ignore_routes_with_linkdown: i32_of_u32(ws[28]),
        drop_unicast_in_l2_multicast: i32_of_u32(ws[29]),
        drop_gratuitous_arp: i32_of_u32(ws[30]),
        bc_forwarding: i32_of_u32(ws[31]),
        arp_evict_nocarrier: i32_of_u32(ws[32]),
    };
    assert(s == spec_inet_dev_conf_from_words(spec_words32_of(value@)));
    Ok(s)
}

/// Appends a [`InetDevConf`] value's wire bytes.
pub fn emit_inet_dev_conf(s: &InetDevConf, out: &mut Vec<u8>)
    ensures
        final(out)@ == old(out)@ + spec_inet_dev_conf_bytes(*s),
{
    let ws = inet_dev_conf_words(s);
    push_words32(&ws, out);
}
/// One IPv4 address-family attribute of a link.
#[derive(Debug, PartialEq, Eq, Clone)]
pub enum AfSpecInet {
    /// The device configuration block.
    DevConf(InetDevConf),
    /// Any IPv4 attribute this catalog has no rule for, kept verbatim.
    Other(DefaultNla),
}

/// The model of an [`AfSpecInet`] attribute.
pub enum AfSpecInetModel {
    DevConf(InetDevConf),
    Other(DefaultNlaModel),
}

/// Whether the IPv4 address-family catalog has a rule for this type code.
pub open spec fn spec_af_inet_known(code: u16) -> bool {
    code == IFLA_INET_CONF
}

impl Nla for AfSpecInet {
    type Model = AfSpecInetModel;

    open spec fn model(&self) -> AfSpecInetModel {
        match self {
            AfSpecInet::DevConf(s) => AfSpecInetModel::DevConf(*s),
            AfSpecInet::Other(n) => AfSpecInetModel::Other(n.model()),
        }
    }

    open spec fn m_wf(m: AfSpecInetModel) -> bool {
        match m {
            AfSpecInetModel::DevConf(_) => true,
            AfSpecInetModel::Other(n) => DefaultNla::m_wf(n) && !spec_af_inet_known(n.code),
        }
    }

    open spec fn m_code(m: AfSpecInetModel) -> u16 {
        match m {
            AfSpecInetModel::DevConf(_) => IFLA_INET_CONF,
            AfSpecInetModel::Other(n) => n.code,
        }
    }

    open spec fn m_value(m: AfSpecInetModel) -> Seq<u8> {
        match m {
            AfSpecInetModel::DevConf(s) => spec_inet_dev_conf_bytes(s),
            AfSpecInetModel::Other(n) => n.value,
        }
    }

    proof fn lemma_wf_len(m: AfSpecInetModel) {
        match m {
            AfSpecInetModel::DevConf(s) => {
                lemma_inet_dev_conf_roundtrip(s, Seq::empty(), IFLA_INET_CONF);
            },
            AfSpecInetModel::Other(_) => {},
        }
    }

    fn kind(&self) -> u16 {
        match self {
            AfSpecInet::DevConf(_) => IFLA_INET_CONF,
            AfSpecInet::Other(n) => n.kind(),
        }
    }

    fn value_len(&self) -> usize {
        match self {
            AfSpecInet::DevConf(_) => {
                proof {
                    let s = self.model()->DevConf_0;
                    lemma_inet_dev_conf_roundtrip(s, Seq::empty(), IFLA_INET_CONF);
                }
                132
            },
            AfSpecInet::Other(n) => n.value_len(),
        }
    }

    fn emit_value(&self, out: &mut Vec<u8>) {
        match self {
            AfSpecInet::DevConf(s) => emit_inet_dev_conf(s, out),
            AfSpecInet::Other(n) => n.emit_value(out),
        }
    }
}

impl NlaDecode<()> for AfSpecInet {
    open spec fn m_in_scope(m: AfSpecInetModel, ctx: ()) -> bool {
        true
    }

    open spec fn m_resolve(ctx: (), code: u16, value: Seq<u8>) -> Result<
        AfSpecInetModel,
        DecodeError,
    > {
        if code == IFLA_INET_CONF {
            match spec_inet_dev_conf_parse(value, code) {
                Ok(s) => Ok(AfSpecInetModel::DevConf(s)),
                Err(e) => Err(e),
            }
        } else {
            Ok(AfSpecInetModel::Other(DefaultNlaModel { code, value }))
        }
    }

    open spec fn v_canon(ctx: (), code: u16, value: Seq<u8>) -> bool {
        true
    }

    proof fn lemma_resolve_project(ctx: (), code: u16, value: Seq<u8>) {
        if code == IFLA_INET_CONF {
            let any = InetDevConf {
                forwarding: 0,
                mc_forwarding: 0,
                proxy_arp: 0,
                accept_redirects: 0,
                secure_redirects: 0,
                send_redirects: 0,
                shared_media: 0,
                rp_filter: 0,
                accept_source_route: 0,
                bootp_relay: 0,
                log_martians: 0,
                tag: 0,
                arpfilter: 0,
                medium_id: 0,
                noxfrm: 0,
                nopolicy: 0,
                force_igmp_version: 0,
                arp_announce: 0,
                arp_ignore: 0,
                promote_secondaries: 0,
                arp_accept: 0,
                arp_notify: 0,
                accept_local: 0,
                src_vmark: 0,
                proxy_arp_pvlan: 0,
                route_localnet: 0,
                igmpv2_unsolicited_report_interval: 0,
                igmpv3_unsolicited_report_interval: 0,
                ignore_routes_with_linkdown: 0,
                drop_unicast_in_l2_multicast: 0,
                drop_gratuitous_arp: 0,
                bc_forwarding: 0,
                arp_evict_nocarrier: 0,
            };
            lemma_inet_dev_conf_roundtrip(any, value, code);
        }
    }

    proof fn lemma_project_resolve(m: AfSpecInetModel, ctx: ()) {
        match m {
            AfSpecInetModel::DevConf(s) => {
                lemma_inet_dev_conf_roundtrip(s, Seq::empty(), IFLA_INET_CONF);
            },
            AfSpecInetModel::Other(_) => {},
        }
    }

    fn parse(ctx: &(), code: u16, value: &[u8]) -> Result<AfSpecInet, DecodeError> {
        if code == IFLA_INET_CONF {
            match parse_inet_dev_conf(value, code) {
                Ok(s) => Ok(AfSpecInet::DevConf(s)),
                Err(e) => Err(e),
            }
        } else {
            match <DefaultNla as NlaDecode<()>>::parse(ctx, code, value) {
                Ok(n) => Ok(AfSpecInet::Other(n)),
                Err(e) => Err(e),
            }
        }
    }
}

} // verus!
