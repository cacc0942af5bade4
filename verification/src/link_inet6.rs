//! IPv6 device state carried by the unspecified address-family attribute of
//! a link message: interface flags, cache info, and the device configuration
//! block.

use vstd::prelude::*;
use vstd::bytes::{
    spec_u32_from_le_bytes, spec_u32_to_le_bytes, lemma_auto_spec_u32_to_from_le_bytes,
};
use crate::error::DecodeError;
use crate::fallback::{DefaultNla, DefaultNlaModel};
use crate::nla::{Nla, NlaDecode};
use crate::values::{spec_u32_of_i32, spec_i32_of_u32, lemma_i32_u32_inverse, u32_of_i32,
    i32_of_u32, push_u32_le, read_u32_le};
use crate::words::{
    spec_words32_bytes, spec_words32_of, lemma_words32_facts, lemma_words32_roundtrip,
    lemma_words32_project, read_words32, push_words32,
};

verus! {

/// The type code of the IPv6 interface flags attribute.
pub const IFLA_INET6_FLAGS: u16 = 1;

/// The type code of the IPv6 device configuration block.
pub const IFLA_INET6_CONF: u16 = 2;

/// The type code of the IPv6 cache info block.
pub const IFLA_INET6_CACHEINFO: u16 = 5;

/// IPv6 interface flags, kept as the full 32-bit pattern so that bits this
/// codec does not name survive a round trip unchanged.
#[derive(Debug, PartialEq, Eq, Clone, Copy)]
pub struct Inet6IfaceFlags {
    pub bits: u32,
}

impl Inet6IfaceFlags {
    /// The router-solicitation-sent flag bit.
    pub const RS_SENT: u32 = 0x10;

    /// The interface-ready flag bit.
    pub const READY: u32 = 0x8000_0000;
}

/// Inet6DevConf: 59 i32 fields, 236 bytes on the wire in field order.
#[derive(Debug, PartialEq, Eq, Clone, Copy)]
pub struct Inet6DevConf {
    pub forwarding: i32,
    pub hoplimit: i32,
    pub mtu6: i32,
    pub accept_ra: i32,
    pub accept_redirects: i32,
    pub autoconf: i32,
    pub dad_transmits: i32,
    pub rtr_solicits: i32,
    pub rtr_solicit_interval: i32,
    pub rtr_solicit_delay: i32,
    pub use_tempaddr: i32,
    pub temp_valid_lft: i32,
    pub temp_prefered_lft: i32,
    pub regen_max_retry: i32,
    pub max_desync_factor: i32,
    pub max_addresses: i32,
    pub force_mld_version: i32,
    pub accept_ra_defrtr: i32,
    pub accept_ra_pinfo: i32,
    pub accept_ra_rtr_pref: i32,
    pub rtr_probe_interval: i32,
    pub accept_ra_rt_info_max_plen: i32,
    pub proxy_ndp: i32,
    pub optimistic_dad: i32,
    pub accept_source_route: i32,
    pub mc_forwarding: i32,
    pub disable_ipv6: i32,
    pub accept_dad: i32,
    pub force_tllao: i32,
    pub ndisc_notify: i32,
    pub mldv1_unsolicited_report_interval: i32,
    pub mldv2_unsolicited_report_interval: i32,
    pub suppress_frag_ndisc: i32,
    pub accept_ra_from_local: i32,
    pub use_optimistic: i32,
    pub accept_ra_mtu: i32,
    pub stable_secret: i32,
    pub use_oif_addrs_only: i32,
    pub accept_ra_min_hop_limit: i32,
    pub ignore_routes_with_linkdown: i32,
    pub drop_unicast_in_l2_multicast: i32,
    pub drop_unsolicited_na: i32,
    pub keep_addr_on_down: i32,
    pub rtr_solicit_max_interval: i32,
    pub seg6_enabled: i32,
    pub seg6_require_hmac: i32,
    pub enhanced_dad: i32,
    pub addr_gen_mode: i32,
    pub disable_policy: i32,
    pub accept_ra_rt_info_min_plen: i32,
    pub ndisc_tclass: i32,
    pub rpl_seg_enabled: i32,
    pub ra_defrtr_metric: i32,
    pub ioam6_enabled: i32,
    pub ioam6_id: i32,
    pub ioam6_id_wide: i32,
    pub ndisc_evict_nocarrier: i32,
    pub accept_untracked_na: i32,
    pub accept_ra_min_lft: i32,
}

/// The wire words of a [`Inet6DevConf`], in field order.
pub open spec fn spec_inet6_dev_conf_words(s: Inet6DevConf) -> Seq<u32> {
    seq![
        spec_u32_of_i32(s.forwarding),
        spec_u32_of_i32(s.hoplimit),
        spec_u32_of_i32(s.mtu6),
        spec_u32_of_i32(s.accept_ra),
        spec_u32_of_i32(s.accept_redirects),
        spec_u32_of_i32(s.autoconf),
        spec_u32_of_i32(s.dad_transmits),
        spec_u32_of_i32(s.rtr_solicits),
        spec_u32_of_i32(s.rtr_solicit_interval),
        spec_u32_of_i32(s.rtr_solicit_delay),
        spec_u32_of_i32(s.use_tempaddr),
        spec_u32_of_i32(s.temp_valid_lft),
        spec_u32_of_i32(s.temp_prefered_lft),
        spec_u32_of_i32(s.regen_max_retry),
        spec_u32_of_i32(s.max_desync_factor),
        spec_u32_of_i32(s.max_addresses),
        spec_u32_of_i32(s.force_mld_version),
        spec_u32_of_i32(s.accept_ra_defrtr),
        spec_u32_of_i32(s.accept_ra_pinfo),
        spec_u32_of_i32(s.accept_ra_rtr_pref),
        spec_u32_of_i32(s.rtr_probe_interval),
        spec_u32_of_i32(s.accept_ra_rt_info_max_plen),
        spec_u32_of_i32(s.proxy_ndp),
        spec_u32_of_i32(s.optimistic_dad),
        spec_u32_of_i32(s.accept_source_route),
        spec_u32_of_i32(s.mc_forwarding),
        spec_u32_of_i32(s.disable_ipv6),
        spec_u32_of_i32(s.accept_dad),
        spec_u32_of_i32(s.force_tllao),
        spec_u32_of_i32(s.ndisc_notify),
        spec_u32_of_i32(s.mldv1_unsolicited_report_interval),
        spec_u32_of_i32(s.mldv2_unsolicited_report_interval),
        spec_u32_of_i32(s.suppress_frag_ndisc),
        spec_u32_of_i32(s.accept_ra_from_local),
        spec_u32_of_i32(s.use_optimistic),
        spec_u32_of_i32(s.accept_ra_mtu),
        spec_u32_of_i32(s.stable_secret),
        spec_u32_of_i32(s.use_oif_addrs_only),
        spec_u32_of_i32(s.accept_ra_min_hop_limit),
        spec_u32_of_i32(s.ignore_routes_with_linkdown),
        spec_u32_of_i32(s.drop_unicast_in_l2_multicast),
        spec_u32_of_i32(s.drop_unsolicited_na),
        spec_u32_of_i32(s.keep_addr_on_down),
        spec_u32_of_i32(s.rtr_solicit_max_interval),
        spec_u32_of_i32(s.seg6_enabled),
        spec_u32_of_i32(s.seg6_require_hmac),
        spec_u32_of_i32(s.enhanced_dad),
        spec_u32_of_i32(s.addr_gen_mode),
        spec_u32_of_i32(s.disable_policy),
        spec_u32_of_i32(s.accept_ra_rt_info_min_plen),
        spec_u32_of_i32(s.ndisc_tclass),
        spec_u32_of_i32(s.rpl_seg_enabled),
        spec_u32_of_i32(s.ra_defrtr_metric),
        spec_u32_of_i32(s.ioam6_enabled),
        spec_u32_of_i32(s.ioam6_id),
        spec_u32_of_i32(s.ioam6_id_wide),
        spec_u32_of_i32(s.ndisc_evict_nocarrier),
        spec_u32_of_i32(s.accept_untracked_na),
        spec_u32_of_i32(s.accept_ra_min_lft),
    ]
}

/// The [`Inet6DevConf`] of a run of wire words.
pub open spec fn spec_inet6_dev_conf_from_words(ws: Seq<u32>) -> Inet6DevConf
    recommends
        ws.len() == 59,
{
    Inet6DevConf {
        forwarding: spec_i32_of_u32(ws[0]),
        hoplimit: spec_i32_of_u32(ws[1]),
        mtu6: spec_i32_of_u32(ws[2]),
        accept_ra: spec_i32_of_u32(ws[3]),
        accept_redirects: spec_i32_of_u32(ws[4]),
        autoconf: spec_i32_of_u32(ws[5]),
        dad_transmits: spec_i32_of_u32(ws[6]),
        rtr_solicits: spec_i32_of_u32(ws[7]),
        rtr_solicit_interval: spec_i32_of_u32(ws[8]),
        rtr_solicit_delay: spec_i32_of_u32(ws[9]),
        use_tempaddr: spec_i32_of_u32(ws[10]),
        temp_valid_lft: spec_i32_of_u32(ws[11]),
        temp_prefered_lft: spec_i32_of_u32(ws[12]),
        regen_max_retry: spec_i32_of_u32(ws[13]),
        max_desync_factor: spec_i32_of_u32(ws[14]),
        max_addresses: spec_i32_of_u32(ws[15]),
        force_mld_version: spec_i32_of_u32(ws[16]),
        accept_ra_defrtr: spec_i32_of_u32(ws[17]),
        accept_ra_pinfo: spec_i32_of_u32(ws[18]),
        accept_ra_rtr_pref: spec_i32_of_u32(ws[19]),
        rtr_probe_interval: spec_i32_of_u32(ws[20]),
        accept_ra_rt_info_max_plen: spec_i32_of_u32(ws[21]),
        proxy_ndp: spec_i32_of_u32(ws[22]),
        optimistic_dad: spec_i32_of_u32(ws[23]),
        accept_source_route: spec_i32_of_u32(ws[24]),
        mc_forwarding: spec_i32_of_u32(ws[25]),
        disable_ipv6: spec_i32_of_u32(ws[26]),
        accept_dad: spec_i32_of_u32(ws[27]),
        force_tllao: spec_i32_of_u32(ws[28]),
        ndisc_notify: spec_i32_of_u32(ws[29]),
        mldv1_unsolicited_report_interval: spec_i32_of_u32(ws[30]),
        mldv2_unsolicited_report_interval: spec_i32_of_u32(ws[31]),
        suppress_frag_ndisc: spec_i32_of_u32(ws[32]),
        accept_ra_from_local: spec_i32_of_u32(ws[33]),
        use_optimistic: spec_i32_of_u32(ws[34]),
        accept_ra_mtu: spec_i32_of_u32(ws[35]),
        stable_secret: spec_i32_of_u32(ws[36]),
        use_oif_addrs_only: spec_i32_of_u32(ws[37]),
        accept_ra_min_hop_limit: spec_i32_of_u32(ws[38]),
        ignore_routes_with_linkdown: spec_i32_of_u32(ws[39]),
        drop_unicast_in_l2_multicast: spec_i32_of_u32(ws[40]),
        drop_unsolicited_na: spec_i32_of_u32(ws[41]),
        keep_addr_on_down: spec_i32_of_u32(ws[42]),
        rtr_solicit_max_interval: spec_i32_of_u32(ws[43]),
        seg6_enabled: spec_i32_of_u32(ws[44]),
        seg6_require_hmac: spec_i32_of_u32(ws[45]),
        enhanced_dad: spec_i32_of_u32(ws[46]),
        addr_gen_mode: spec_i32_of_u32(ws[47]),
        disable_policy: spec_i32_of_u32(ws[48]),
        accept_ra_rt_info_min_plen: spec_i32_of_u32(ws[49]),
        ndisc_tclass: spec_i32_of_u32(ws[50]),
        rpl_seg_enabled: spec_i32_of_u32(ws[51]),
        ra_defrtr_metric: spec_i32_of_u32(ws[52]),
        ioam6_enabled: spec_i32_of_u32(ws[53]),
        ioam6_id: spec_i32_of_u32(ws[54]),
        ioam6_id_wide: spec_i32_of_u32(ws[55]),
        ndisc_evict_nocarrier: spec_i32_of_u32(ws[56]),
        accept_untracked_na: spec_i32_of_u32(ws[57]),
        accept_ra_min_lft: spec_i32_of_u32(ws[58]),
    }
}

/// The wire bytes of a [`Inet6DevConf`].
pub open spec fn spec_inet6_dev_conf_bytes(s: Inet6DevConf) -> Seq<u8> {
    spec_words32_bytes(spec_inet6_dev_conf_words(s))
}

/// What decoding a [`Inet6DevConf`] value yields: strict on width.
pub open spec fn spec_inet6_dev_conf_parse(v: Seq<u8>, code: u16) -> Result<Inet6DevConf, DecodeError> {
    if v.len() < 236 {
        Err(DecodeError::TooShort { expected: 236, available: v.len() as usize })
    } else if v.len() > 236 {
        Err(DecodeError::InvalidField { code })
    } else {
        Ok(spec_inet6_dev_conf_from_words(spec_words32_of(v)))
    }
}

/// A device configuration block survives the trip to words and back.
#[verifier::spinoff_prover]
#[verifier::rlimit(100)]
proof fn lemma_inet6_dev_conf_words_inverse(s: Inet6DevConf)
    ensures
        spec_inet6_dev_conf_words(s).len() == 59,
        spec_inet6_dev_conf_from_words(spec_inet6_dev_conf_words(s)) == s,
{
    lemma_i32_u32_inverse();
}

/// A 59-word run survives the trip to a device configuration block and
/// back.
#[verifier::spinoff_prover]
#[verifier::rlimit(100)]
proof fn lemma_inet6_dev_conf_from_words_inverse(ws: Seq<u32>)
    requires
        ws.len() == 59,
    ensures
        spec_inet6_dev_conf_words(spec_inet6_dev_conf_from_words(ws)) == ws,
{
    lemma_i32_u32_inverse();
    assert(spec_inet6_dev_conf_words(spec_inet6_dev_conf_from_words(ws)) =~= ws);
}

/// Decoding inverts encoding for [`Inet6DevConf`], and vice versa.
#[verifier::spinoff_prover]
#[verifier::rlimit(100)]
pub proof fn lemma_inet6_dev_conf_roundtrip(s: Inet6DevConf, v: Seq<u8>, code: u16)
    ensures
        spec_inet6_dev_conf_bytes(s).len() == 236,
        spec_inet6_dev_conf_parse(spec_inet6_dev_conf_bytes(s), code) == Ok::<Inet6DevConf, DecodeError>(s),
        spec_inet6_dev_conf_parse(v, code) matches Ok(t) ==> spec_inet6_dev_conf_bytes(t) == v,
{
    lemma_inet6_dev_conf_words_inverse(s);
    lemma_words32_facts(spec_inet6_dev_conf_words(s));
    lemma_words32_roundtrip(spec_inet6_dev_conf_words(s));
    if spec_inet6_dev_conf_parse(v, code) is Ok {
        let ws = spec_words32_of(v);
        lemma_words32_project(v);
        lemma_inet6_dev_conf_from_words_inverse(ws);
    }
}

/// The wire words of this value, in field order.
#[verifier::spinoff_prover]
#[verifier::rlimit(100)]
pub fn inet6_dev_conf_words(s: &Inet6DevConf) -> (r: Vec<u32>)
    ensures
        r@ == spec_inet6_dev_conf_words(*s),
{
    let mut ws: Vec<u32> = Vec::new();
    ws.push(u32_of_i32(s.forwarding));
    ws.push(u32_of_i32(s.hoplimit));
    ws.push(u32_of_i32(s.mtu6));
    ws.push(u32_of_i32(s.accept_ra));
    ws.push(u32_of_i32(s.accept_redirects));
    ws.push(u32_of_i32(s.autoconf));
    ws.push(u32_of_i32(s.dad_transmits));
    ws.push(u32_of_i32(s.rtr_solicits));
    ws.push(u32_of_i32(s.rtr_solicit_interval));
    ws.push(u32_of_i32(s.rtr_solicit_delay));
    ws.push(u32_of_i32(s.use_tempaddr));
    ws.push(u32_of_i32(s.temp_valid_lft));
    ws.push(u32_of_i32(s.temp_prefered_lft));
    ws.push(u32_of_i32(s.regen_max_retry));
    ws.push(u32_of_i32(s.max_desync_factor));
    ws.push(u32_of_i32(s.max_addresses));
    ws.push(u32_of_i32(s.force_mld_version));
    ws.push(u32_of_i32(s.accept_ra_defrtr));
    ws.push(u32_of_i32(s.accept_ra_pinfo));
    ws.push(u32_of_i32(s.accept_ra_rtr_pref));
    ws.push(u32_of_i32(s.rtr_probe_interval));
    ws.push(u32_of_i32(s.accept_ra_rt_info_max_plen));
    ws.push(u32_of_i32(s.proxy_ndp));
    ws.push(u32_of_i32(s.optimistic_dad));
    ws.push(u32_of_i32(s.accept_source_route));
    ws.push(u32_of_i32(s.mc_forwarding));
    ws.push(u32_of_i32(s.disable_ipv6));
    ws.push(u32_of_i32(s.accept_dad));
    ws.push(u32_of_i32(s.force_tllao));
    ws.push(u32_of_i32(s.ndisc_notify));
    ws.push(u32_of_i32(s.mldv1_unsolicited_report_interval));
    ws.push(u32_of_i32(s.mldv2_unsolicited_report_interval));
    ws.push(u32_of_i32(s.suppress_frag_ndisc));
    ws.push(u32_of_i32(s.accept_ra_from_local));
    ws.push(u32_of_i32(s.use_optimistic));
    ws.push(u32_of_i32(s.accept_ra_mtu));
    ws.push(u32_of_i32(s.stable_secret));
    ws.push(u32_of_i32(s.use_oif_addrs_only));
    ws.push(u32_of_i32(s.accept_ra_min_hop_limit));
    ws.push(u32_of_i32(s.ignore_routes_with_linkdown));
    ws.push(u32_of_i32(s.drop_unicast_in_l2_multicast));
    ws.push(u32_of_i32(s.drop_unsolicited_na));
    ws.push(u32_of_i32(s.keep_addr_on_down));
    ws.push(u32_of_i32(s.rtr_solicit_max_interval));
    ws.push(u32_of_i32(s.seg6_enabled));
    ws.push(u32_of_i32(s.seg6_require_hmac));
    ws.push(u32_of_i32(s.enhanced_dad));
    ws.push(u32_of_i32(s.addr_gen_mode));
    ws.push(u32_of_i32(s.disable_policy));
    ws.push(u32_of_i32(s.accept_ra_rt_info_min_plen));
    ws.push(u32_of_i32(s.ndisc_tclass));
    ws.push(u32_of_i32(s.rpl_seg_enabled));
    ws.push(u32_of_i32(s.ra_defrtr_metric));
    ws.push(u32_of_i32(s.ioam6_enabled));
    ws.push(u32_of_i32(s.ioam6_id));
    ws.push(u32_of_i32(s.ioam6_id_wide));
    ws.push(u32_of_i32(s.ndisc_evict_nocarrier));
    ws.push(u32_of_i32(s.accept_untracked_na));
    ws.push(u32_of_i32(s.accept_ra_min_lft));
    assert(ws@ =~= spec_inet6_dev_conf_words(*s));
    ws
}

/// Decodes a [`Inet6DevConf`] value.
#[verifier::spinoff_prover]
#[verifier::rlimit(100)]
pub fn parse_inet6_dev_conf(value: &[u8], code: u16) -> (r: Result<Inet6DevConf, DecodeError>)
    ensures
        r == spec_inet6_dev_conf_parse(value@, code),
{
    let n = value.len();
    if n < 236 {
        return Err(DecodeError::TooShort { expected: 236, available: n });
    }
    if n > 236 {
        return Err(DecodeError::InvalidField { code });
    }
    let ws = match read_words32(value) {
        Some(ws) => ws,
        None => {
            return Err(DecodeError::InvalidField { code });
        },
    };
    let s = Inet6DevConf {
        forwarding: i32_of_u32(ws[0]),
        hoplimit: i32_of_u32(ws[1]),
        mtu6: i32_of_u32(ws[2]),
        accept_ra: i32_of_u32(ws[3]),
        accept_redirects: i32_of_u32(ws[4]),
        autoconf: i32_of_u32(ws[5]),
        dad_transmits: i32_of_u32(ws[6]),
        rtr_solicits: i32_of_u32(ws[7]),
        rtr_solicit_interval: i32_of_u32(ws[8]),
        rtr_solicit_delay: i32_of_u32(ws[9]),
        use_tempaddr: i32_of_u32(ws[10]),
        temp_valid_lft: i32_of_u32(ws[11]),
        temp_prefered_lft: i32_of_u32(ws[12]),
        regen_max_retry: i32_of_u32(ws[13]),
        max_desync_factor: i32_of_u32(ws[14]),
        max_addresses: i32_of_u32(ws[15]),
        force_mld_version: i32_of_u32(ws[16]),
        accept_ra_defrtr: i32_of_u32(ws[17]),
        accept_ra_pinfo: i32_of_u32(ws[18]),
        accept_ra_rtr_pref: i32_of_u32(ws[19]),
        rtr_probe_interval: i32_of_u32(ws[20]),
        accept_ra_rt_info_max_plen: i32_of_u32(ws[21]),
        proxy_ndp: i32_of_u32(ws[22]),
        optimistic_dad: i32_of_u32(ws[23]),
        accept_source_route: i32_of_u32(ws[24]),
        mc_forwarding: i32_of_u32(ws[25]),
        disable_ipv6: i32_of_u32(ws[26]),
        accept_dad: i32_of_u32(ws[27]),
        force_tllao: i32_of_u32(ws[28]),
        ndisc_notify: i32_of_u32(ws[29]),
        mldv1_unsolicited_report_interval: i32_of_u32(ws[30]),
        mldv2_unsolicited_report_interval: i32_of_u32(ws[31]),
        suppress_frag_ndisc: i32_of_u32(ws[32]),
        accept_ra_from_local: i32_of_u32(ws[33]),
        use_optimistic: i32_of_u32(ws[34]),
        accept_ra_mtu: i32_of_u32(ws[35]),
        stable_secret: i32_of_u32(ws[36]),
        use_oif_addrs_only: i32_of_u32(ws[37]),
        accept_ra_min_hop_limit: i32_of_u32(ws[38]),
        ignore_routes_with_linkdown: i32_of_u32(ws[39]),
        drop_unicast_in_l2_multicast: i32_of_u32(ws[40]),
        drop_unsolicited_na: i32_of_u32(ws[41]),
        keep_addr_on_down: i32_of_u32(ws[42]),
        rtr_solicit_max_interval: i32_of_u32(ws[43]),
        seg6_enabled: i32_of_u32(ws[44]),
        seg6_require_hmac: i32_of_u32(ws[45]),
        enhanced_dad: i32_of_u32(ws[46]),
        addr_gen_mode: i32_of_u32(ws[47]),
        disable_policy: i32_of_u32(ws[48]),
        accept_ra_rt_info_min_plen: i32_of_u32(ws[49]),
        ndisc_tclass: i32_of_u32(ws[50]),
        rpl_seg_enabled: i32_of_u32(ws[51]),
        ra_defrtr_metric: i32_of_u32(ws[52]),
        ioam6_enabled: i32_of_u32(ws[53]),
        ioam6_id: i32_of_u32(ws[54]),
        ioam6_id_wide: i32_of_u32(ws[55]),
        ndisc_evict_nocarrier: i32_of_u32(ws[56]),
        accept_untracked_na: i32_of_u32(ws[57]),
        accept_ra_min_lft: i32_of_u32(ws[58]),
    };
    assert(s == spec_inet6_dev_conf_from_words(spec_words32_of(value@)));
    Ok(s)
}

/// Appends a [`Inet6DevConf`] value's wire bytes.
pub fn emit_inet6_dev_conf(s: &Inet6DevConf, out: &mut Vec<u8>)
    ensures
        final(out)@ == old(out)@ + spec_inet6_dev_conf_bytes(*s),
{
    let ws = inet6_dev_conf_words(s);
    push_words32(&ws, out);
}
/// Inet6CacheInfo: 4 i32 fields, 16 bytes on the wire in field order.
#[derive(Debug, PartialEq, Eq, Clone, Copy)]
pub struct Inet6CacheInfo {
    pub max_reasm_len: i32,
    pub tstamp: i32,
    pub reachable_time: i32,
    pub retrans_time: i32,
}

/// The wire words of a [`Inet6CacheInfo`], in field order.
pub open spec fn spec_inet6_cache_info_words(s: Inet6CacheInfo) -> Seq<u32> {
    seq![
        spec_u32_of_i32(s.max_reasm_len),
        spec_u32_of_i32(s.tstamp),
        spec_u32_of_i32(s.reachable_time),
        spec_u32_of_i32(s.retrans_time),
    ]
}

/// The [`Inet6CacheInfo`] of a run of wire words.
pub open spec fn spec_inet6_cache_info_from_words(ws: Seq<u32>) -> Inet6CacheInfo
    recommends
        ws.len() == 4,
{
    Inet6CacheInfo {
        max_reasm_len: spec_i32_of_u32(ws[0]),
        tstamp: spec_i32_of_u32(ws[1]),
        reachable_time: spec_i32_of_u32(ws[2]),
        retrans_time: spec_i32_of_u32(ws[3]),
    }
}

/// The wire bytes of a [`Inet6CacheInfo`].
pub open spec fn spec_inet6_cache_info_bytes(s: Inet6CacheInfo) -> Seq<u8> {
    spec_words32_bytes(spec_inet6_cache_info_words(s))
}

/// What decoding a [`Inet6CacheInfo`] value yields: strict on width.
pub open spec fn spec_inet6_cache_info_parse(v: Seq<u8>, code: u16) -> Result<Inet6CacheInfo, DecodeError> {
    if v.len() < 16 {
        Err(DecodeError::TooShort { expected: 16, available: v.len() as usize })
    } else if v.len() > 16 {
        Err(DecodeError::InvalidField { code })
    } else {
        Ok(spec_inet6_cache_info_from_words(spec_words32_of(v)))
    }
}

/// Decoding inverts encoding for [`Inet6CacheInfo`], and vice versa.
pub proof fn lemma_inet6_cache_info_roundtrip(s: Inet6CacheInfo, v: Seq<u8>, code: u16)
    ensures
        spec_inet6_cache_info_bytes(s).len() == 16,
        spec_inet6_cache_info_parse(spec_inet6_cache_info_bytes(s), code) == Ok::<Inet6CacheInfo, DecodeError>(s),
        spec_inet6_cache_info_parse(v, code) matches Ok(t) ==> spec_inet6_cache_info_bytes(t) == v,
{
    lemma_i32_u32_inverse();
    lemma_words32_facts(spec_inet6_cache_info_words(s));
    lemma_words32_roundtrip(spec_inet6_cache_info_words(s));
    assert(spec_inet6_cache_info_from_words(spec_inet6_cache_info_words(s)) == s);
    if spec_inet6_cache_info_parse(v, code) is Ok {
        let ws = spec_words32_of(v);
        lemma_words32_project(v);
        assert(spec_inet6_cache_info_words(spec_inet6_cache_info_from_words(ws)) =~= ws);
    }
}

/// The wire words of this value, in field order.
pub fn inet6_cache_info_words(s: &Inet6CacheInfo) -> (r: Vec<u32>)
    ensures
        r@ == spec_inet6_cache_info_words(*s),
{
    let mut ws: Vec<u32> = Vec::new();
    ws.push(u32_of_i32(s.max_reasm_len));
    ws.push(u32_of_i32(s.tstamp));
    ws.push(u32_of_i32(s.reachable_time));
    ws.push(u32_of_i32(s.retrans_time));
    assert(ws@ =~= spec_inet6_cache_info_words(*s));
    ws
}

/// Decodes a [`Inet6CacheInfo`] value.
pub fn parse_inet6_cache_info(value: &[u8], code: u16) -> (r: Result<Inet6CacheInfo, DecodeError>)
    ensures
        r == spec_inet6_cache_info_parse(value@, code),
{
    let n = value.len();
    if n < 16 {
        return Err(DecodeError::TooShort { expected: 16, available: n });
    }
    if n > 16 {
        return Err(DecodeError::InvalidField { code });
    }
    let ws = match read_words32(value) {
        Some(ws) => ws,
        None => {
            return Err(DecodeError::InvalidField { code });
        },
    };
    let s = Inet6CacheInfo {
        max_reasm_len: i32_of_u32(ws[0]),
        tstamp: i32_of_u32(ws[1]),
        reachable_time: i32_of_u32(ws[2]),
        retrans_time: i32_of_u32(ws[3]),
    };
    assert(s == spec_inet6_cache_info_from_words(spec_words32_of(value@)));
    Ok(s)
}

/// Appends a [`Inet6CacheInfo`] value's wire bytes.
pub fn emit_inet6_cache_info(s: &Inet6CacheInfo, out: &mut Vec<u8>)
    ensures
        final(out)@ == old(out)@ + spec_inet6_cache_info_bytes(*s),
{
    let ws = inet6_cache_info_words(s);
    push_words32(&ws, out);
}
/// One IPv6 address-family attribute of a link.
#[derive(Debug, PartialEq, Eq, Clone)]
pub enum AfSpecInet6 {
    /// The interface flags.
    Flags(Inet6IfaceFlags),
    /// The cache info block.
    CacheInfo(Inet6CacheInfo),
    /// The device configuration block.
    DevConf(Inet6DevConf),
    /// Any IPv6 attribute this catalog has no rule for, kept verbatim.
    Other(DefaultNla),
}

/// The model of an [`AfSpecInet6`] attribute.
pub enum AfSpecInet6Model {
    Flags(Inet6IfaceFlags),
    CacheInfo(Inet6CacheInfo),
    DevConf(Inet6DevConf),
    Other(DefaultNlaModel),
}

/// Whether the IPv6 address-family catalog has a rule for this type code.
pub open spec fn spec_af_inet6_known(code: u16) -> bool {
    code == IFLA_INET6_FLAGS || code == IFLA_INET6_CONF || code == IFLA_INET6_CACHEINFO
}

impl Nla for AfSpecInet6 {
    type Model = AfSpecInet6Model;

    open spec fn model(&self) -> AfSpecInet6Model {
        match self {
            AfSpecInet6::Flags(s) => AfSpecInet6Model::Flags(*s),
            AfSpecInet6::CacheInfo(s) => AfSpecInet6Model::CacheInfo(*s),
            AfSpecInet6::DevConf(s) => AfSpecInet6Model::DevConf(*s),
            AfSpecInet6::Other(n) => AfSpecInet6Model::Other(n.model()),
        }
    }

    open spec fn m_wf(m: AfSpecInet6Model) -> bool {
        match m {
            AfSpecInet6Model::Other(n) => DefaultNla::m_wf(n) && !spec_af_inet6_known(n.code),
            _ => true,
        }
    }

    open spec fn m_code(m: AfSpecInet6Model) -> u16 {
        match m {
            AfSpecInet6Model::Flags(_) => IFLA_INET6_FLAGS,
            AfSpecInet6Model::CacheInfo(_) => IFLA_INET6_CACHEINFO,
            AfSpecInet6Model::DevConf(_) => IFLA_INET6_CONF,
            AfSpecInet6Model::Other(n) => n.code,
        }
    }

    open spec fn m_value(m: AfSpecInet6Model) -> Seq<u8> {
        match m {
            AfSpecInet6Model::Flags(s) => spec_u32_to_le_bytes(s.bits),
            AfSpecInet6Model::CacheInfo(s) => spec_inet6_cache_info_bytes(s),
            AfSpecInet6Model::DevConf(s) => spec_inet6_dev_conf_bytes(s),
            AfSpecInet6Model::Other(n) => n.value,
        }
    }

    proof fn lemma_wf_len(m: AfSpecInet6Model) {
        lemma_auto_spec_u32_to_from_le_bytes();
        match m {
            AfSpecInet6Model::CacheInfo(s) => {
                lemma_inet6_cache_info_roundtrip(s, Seq::empty(), IFLA_INET6_CACHEINFO);
            },
            AfSpecInet6Model::DevConf(s) => {
                lemma_inet6_dev_conf_roundtrip(s, Seq::empty(), IFLA_INET6_CONF);
            },
            _ => {},
        }
    }

    fn kind(&self) -> u16 {
        match self {
            AfSpecInet6::Flags(_) => IFLA_INET6_FLAGS,
            AfSpecInet6::CacheInfo(_) => IFLA_INET6_CACHEINFO,
            AfSpecInet6::DevConf(_) => IFLA_INET6_CONF,
            AfSpecInet6::Other(n) => n.kind(),
        }
    }

    fn value_len(&self) -> usize {
        proof {
            lemma_auto_spec_u32_to_from_le_bytes();
            match self.model() {
                AfSpecInet6Model::CacheInfo(s) => {
                    lemma_inet6_cache_info_roundtrip(s, Seq::empty(), IFLA_INET6_CACHEINFO);
                },
                AfSpecInet6Model::DevConf(s) => {
                    lemma_inet6_dev_conf_roundtrip(s, Seq::empty(), IFLA_INET6_CONF);
                },
                _ => {},
            }
        }
        match self {
            AfSpecInet6::Flags(_) => 4,
            AfSpecInet6::CacheInfo(_) => 16,
            AfSpecInet6::DevConf(_) => 236,
            AfSpecInet6::Other(n) => n.value_len(),
        }
    }

    fn emit_value(&self, out: &mut Vec<u8>) {
        match self {
            AfSpecInet6::Flags(s) => push_u32_le(out, s.bits),
            AfSpecInet6::CacheInfo(s) => emit_inet6_cache_info(s, out),
            AfSpecInet6::DevConf(s) => emit_inet6_dev_conf(s, out),
            AfSpecInet6::Other(n) => n.emit_value(out),
        }
    }
}

impl NlaDecode<()> for AfSpecInet6 {
    open spec fn m_in_scope(m: AfSpecInet6Model, ctx: ()) -> bool {
        true
    }

    open spec fn m_resolve(ctx: (), code: u16, value: Seq<u8>) -> Result<
        AfSpecInet6Model,
        DecodeError,
    > {
        if code == IFLA_INET6_FLAGS {
            if value.len() == 4 {
                Ok(AfSpecInet6Model::Flags(Inet6IfaceFlags { bits: spec_u32_from_le_bytes(value) }))
            } else {
                Err(DecodeError::InvalidField { code })
            }
        } else if code == IFLA_INET6_CACHEINFO {
            match spec_inet6_cache_info_parse(value, code) {
                Ok(s) => Ok(AfSpecInet6Model::CacheInfo(s)),
                Err(e) => Err(e),
            }
        } else if code == IFLA_INET6_CONF {
            match spec_inet6_dev_conf_parse(value, code) {
                Ok(s) => Ok(AfSpecInet6Model::DevConf(s)),
                Err(e) => Err(e),
            }
        } else {
            Ok(AfSpecInet6Model::Other(DefaultNlaModel { code, value }))
        }
    }

    open spec fn v_canon(ctx: (), code: u16, value: Seq<u8>) -> bool {
        true
    }

    proof fn lemma_resolve_project(ctx: (), code: u16, value: Seq<u8>) {
        lemma_auto_spec_u32_to_from_le_bytes();
        if code == IFLA_INET6_CACHEINFO {
            let any = Inet6CacheInfo { max_reasm_len: 0, tstamp: 0, reachable_time: 0, retrans_time: 0 };
            lemma_inet6_cache_info_roundtrip(any, value, code);
        } else if code == IFLA_INET6_CONF {
            let any = Inet6DevConf {
                forwarding: 0,
                hoplimit: 0,
                mtu6: 0,
                accept_ra: 0,
                accept_redirects: 0,
                autoconf: 0,
                dad_transmits: 0,
                rtr_solicits: 0,
                rtr_solicit_interval: 0,
                rtr_solicit_delay: 0,
                use_tempaddr: 0,
                temp_valid_lft: 0,
                temp_prefered_lft: 0,
                regen_max_retry: 0,
                max_desync_factor: 0,
                max_addresses: 0,
                force_mld_version: 0,
                accept_ra_defrtr: 0,
                accept_ra_pinfo: 0,
                accept_ra_rtr_pref: 0,
                rtr_probe_interval: 0,
                accept_ra_rt_info_max_plen: 0,
                proxy_ndp: 0,
                optimistic_dad: 0,
                accept_source_route: 0,
                mc_forwarding: 0,
                disable_ipv6: 0,
                accept_dad: 0,
                force_tllao: 0,
                ndisc_notify: 0,
                mldv1_unsolicited_report_interval: 0,
                mldv2_unsolicited_report_interval: 0,
                suppress_frag_ndisc: 0,
                accept_ra_from_local: 0,
                use_optimistic: 0,
                accept_ra_mtu: 0,
                stable_secret: 0,
                use_oif_addrs_only: 0,
                accept_ra_min_hop_limit: 0,
                ignore_routes_with_linkdown: 0,
                drop_unicast_in_l2_multicast: 0,
                drop_unsolicited_na: 0,
                keep_addr_on_down: 0,
                rtr_solicit_max_interval: 0,
                seg6_enabled: 0,
                seg6_require_hmac: 0,
                enhanced_dad: 0,
                addr_gen_mode: 0,
                disable_policy: 0,
                accept_ra_rt_info_min_plen: 0,
                ndisc_tclass: 0,
                rpl_seg_enabled: 0,
                ra_defrtr_metric: 0,
                ioam6_enabled: 0,
                ioam6_id: 0,
                ioam6_id_wide: 0,
                ndisc_evict_nocarrier: 0,
                accept_untracked_na: 0,
                accept_ra_min_lft: 0,
            };
            lemma_inet6_dev_conf_roundtrip(any, value, code);
        }
    }

    proof fn lemma_project_resolve(m: AfSpecInet6Model, ctx: ()) {
        lemma_auto_spec_u32_to_from_le_bytes();
        match m {
            AfSpecInet6Model::CacheInfo(s) => {
                lemma_inet6_cache_info_roundtrip(s, Seq::empty(), IFLA_INET6_CACHEINFO);
            },
            AfSpecInet6Model::DevConf(s) => {
                lemma_inet6_dev_conf_roundtrip(s, Seq::empty(), IFLA_INET6_CONF);
            },
            _ => {},
        }
    }

    fn parse(ctx: &(), code: u16, value: &[u8]) -> Result<AfSpecInet6, DecodeError> {
        if code == IFLA_INET6_FLAGS {
            match read_u32_le(value) {
                Some(bits) => Ok(AfSpecInet6::Flags(Inet6IfaceFlags { bits })),
                None => Err(DecodeError::InvalidField { code }),
            }
        } else if code == IFLA_INET6_CACHEINFO {
            match parse_inet6_cache_info(value, code) {
                Ok(s) => Ok(AfSpecInet6::CacheInfo(s)),
                Err(e) => Err(e),
            }
        } else if code == IFLA_INET6_CONF {
            match parse_inet6_dev_conf(value, code) {
                Ok(s) => Ok(AfSpecInet6::DevConf(s)),
                Err(e) => Err(e),
            }
        } else {
            match <DefaultNla as NlaDecode<()>>::parse(ctx, code, value) {
                Ok(n) => Ok(AfSpecInet6::Other(n)),
                Err(e) => Err(e),
            }
        }
    }
}

} // verus!
