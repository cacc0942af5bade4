//! Traffic-control statistics: the fixed-layout structs carried by the
//! statistics attributes of a tc message, and the nested statistics catalog.

use vstd::prelude::*;
use vstd::bytes::{
    spec_u32_from_le_bytes, spec_u64_from_le_bytes, spec_u32_to_le_bytes, spec_u64_to_le_bytes,
    lemma_auto_spec_u32_to_from_le_bytes, lemma_auto_spec_u64_to_from_le_bytes, u32_from_le_bytes,
    u64_from_le_bytes,
};
use vstd::slice::slice_subrange;
use crate::error::DecodeError;
use crate::fallback::{DefaultNla, DefaultNlaModel};
use crate::nla::{Nla, NlaDecode};
use crate::values::{push_u32_le, push_u64_le};
use crate::nla::spec_zeros;

verus! {

/// Basic statistics: byte and packet counters. On the wire: a 64-bit byte
/// count, a 32-bit packet count, then 4 alignment bytes, 16 bytes in all.
#[derive(Debug, PartialEq, Eq, Clone, Copy)]
pub struct TcStatsBasic {
    pub bytes: u64,
    pub packets: u32,
}

/// Queue statistics: five 32-bit counters, 20 bytes in all.
#[derive(Debug, PartialEq, Eq, Clone, Copy)]
pub struct TcStatsQueue {
    pub qlen: u32,
    pub backlog: u32,
    pub drops: u32,
    pub requeues: u32,
    pub overlimits: u32,
}

/// Combined legacy statistics: a 64-bit byte count and seven 32-bit
/// counters, then 4 alignment bytes, 40 bytes in all.
#[derive(Debug, PartialEq, Eq, Clone, Copy)]
pub struct TcStats {
    pub bytes: u64,
    pub packets: u32,
    pub drops: u32,
    pub overlimits: u32,
    pub bps: u32,
    pub pps: u32,
    pub qlen: u32,
    pub backlog: u32,
}

/// The wire bytes of [`TcStatsBasic`].
pub open spec fn spec_tc_stats_basic_bytes(s: TcStatsBasic) -> Seq<u8> {
    spec_u64_to_le_bytes(s.bytes) + spec_u32_to_le_bytes(s.packets) + spec_zeros(4)
}

/// What decoding a [`TcStatsBasic`] value yields: strict on width and on the
/// alignment bytes being zero, so that decoded values re-encode exactly.
pub open spec fn spec_tc_stats_basic_parse(v: Seq<u8>, code: u16) -> Result<
    TcStatsBasic,
    DecodeError,
> {
    if v.len() < 16 {
        Err(DecodeError::TooShort { expected: 16, available: v.len() as usize })
    } else if v.len() > 16 {
        Err(DecodeError::InvalidField { code })
    } else if !(v[12] == 0 && v[13] == 0 && v[14] == 0 && v[15] == 0) {
        Err(DecodeError::InvalidField { code })
    } else {
        Ok(
            TcStatsBasic {
                bytes: spec_u64_from_le_bytes(v.subrange(0, 8)),
                packets: spec_u32_from_le_bytes(v.subrange(8, 12)),
            },
        )
    }
}

/// Decoding inverts encoding for [`TcStatsBasic`], and vice versa.
pub proof fn lemma_tc_stats_basic_roundtrip(s: TcStatsBasic, v: Seq<u8>, code: u16)
    ensures
        spec_tc_stats_basic_parse(spec_tc_stats_basic_bytes(s), code) == Ok::<
            TcStatsBasic,
            DecodeError,
        >(s),
        spec_tc_stats_basic_parse(v, code) matches Ok(t) ==> spec_tc_stats_basic_bytes(t) == v,
{
    lemma_auto_spec_u32_to_from_le_bytes();
    lemma_auto_spec_u64_to_from_le_bytes();
    let b = spec_tc_stats_basic_bytes(s);
    assert(b.subrange(0, 8) =~= spec_u64_to_le_bytes(s.bytes));
    assert(b.subrange(8, 12) =~= spec_u32_to_le_bytes(s.packets));
    assert(b[12] == 0 && b[13] == 0 && b[14] == 0 && b[15] == 0);
    if spec_tc_stats_basic_parse(v, code) is Ok {
        let t = spec_tc_stats_basic_parse(v, code)->Ok_0;
        assert(spec_tc_stats_basic_bytes(t) =~= v);
    }
}

/// Decodes a [`TcStatsBasic`] value.
pub fn parse_tc_stats_basic(value: &[u8], code: u16) -> (r: Result<TcStatsBasic, DecodeError>)
    ensures
        r == spec_tc_stats_basic_parse(value@, code),
{
    let n = value.len();
    if n < 16 {
        return Err(DecodeError::TooShort { expected: 16, available: n });
    }
    if n > 16 {
        return Err(DecodeError::InvalidField { code });
    }
    if !(value[12] == 0 && value[13] == 0 && value[14] == 0 && value[15] == 0) {
        return Err(DecodeError::InvalidField { code });
    }
    let bytes = u64_from_le_bytes(slice_subrange(value, 0, 8));
    let packets = u32_from_le_bytes(slice_subrange(value, 8, 12));
    Ok(TcStatsBasic { bytes, packets })
}

/// Appends a [`TcStatsBasic`] value's wire bytes.
pub fn emit_tc_stats_basic(s: &TcStatsBasic, out: &mut Vec<u8>)
    ensures
        final(out)@ == old(out)@ + spec_tc_stats_basic_bytes(*s),
{
    push_u64_le(out, s.bytes);
    push_u32_le(out, s.packets);
    out.push(0);
    out.push(0);
    out.push(0);
    out.push(0);
    assert(out@ =~= old(out)@ + spec_tc_stats_basic_bytes(*s));
}

/// The wire bytes of [`TcStatsQueue`].
pub open spec fn spec_tc_stats_queue_bytes(s: TcStatsQueue) -> Seq<u8> {
    spec_u32_to_le_bytes(s.qlen) + spec_u32_to_le_bytes(s.backlog) + spec_u32_to_le_bytes(s.drops)
        + spec_u32_to_le_bytes(s.requeues) + spec_u32_to_le_bytes(s.overlimits)
}

/// What decoding a [`TcStatsQueue`] value yields.
pub open spec fn spec_tc_stats_queue_parse(v: Seq<u8>, code: u16) -> Result<
    TcStatsQueue,
    DecodeError,
> {
    if v.len() < 20 {
        Err(DecodeError::TooShort { expected: 20, available: v.len() as usize })
    } else if v.len() > 20 {
        Err(DecodeError::InvalidField { code })
    } else {
        Ok(
            TcStatsQueue {
                qlen: spec_u32_from_le_bytes(v.subrange(0, 4)),
                backlog: spec_u32_from_le_bytes(v.subrange(4, 8)),
                drops: spec_u32_from_le_bytes(v.subrange(8, 12)),
                requeues: spec_u32_from_le_bytes(v.subrange(12, 16)),
                overlimits: spec_u32_from_le_bytes(v.subrange(16, 20)),
            },
        )
    }
}

/// Decoding inverts encoding for [`TcStatsQueue`], and vice versa.
pub proof fn lemma_tc_stats_queue_roundtrip(s: TcStatsQueue, v: Seq<u8>, code: u16)
    ensures
        spec_tc_stats_queue_parse(spec_tc_stats_queue_bytes(s), code) == Ok::<
            TcStatsQueue,
            DecodeError,
        >(s),
        spec_tc_stats_queue_parse(v, code) matches Ok(t) ==> spec_tc_stats_queue_bytes(t) == v,
{
    lemma_auto_spec_u32_to_from_le_bytes();
    let b = spec_tc_stats_queue_bytes(s);
    assert(b.subrange(0, 4) =~= spec_u32_to_le_bytes(s.qlen));
    assert(b.subrange(4, 8) =~= spec_u32_to_le_bytes(s.backlog));
    assert(b.subrange(8, 12) =~= spec_u32_to_le_bytes(s.drops));
    assert(b.subrange(12, 16) =~= spec_u32_to_le_bytes(s.requeues));
    assert(b.subrange(16, 20) =~= spec_u32_to_le_bytes(s.overlimits));
    if spec_tc_stats_queue_parse(v, code) is Ok {
        let t = spec_tc_stats_queue_parse(v, code)->Ok_0;
        assert(spec_tc_stats_queue_bytes(t) =~= v);
    }
}

/// Decodes a [`TcStatsQueue`] value.
pub fn parse_tc_stats_queue(value: &[u8], code: u16) -> (r: Result<TcStatsQueue, DecodeError>)
    ensures
        r == spec_tc_stats_queue_parse(value@, code),
{
    let n = value.len();
    if n < 20 {
        return Err(DecodeError::TooShort { expected: 20, available: n });
    }
    if n > 20 {
        return Err(DecodeError::InvalidField { code });
    }
    let qlen = u32_from_le_bytes(slice_subrange(value, 0, 4));
    let backlog = u32_from_le_bytes(slice_subrange(value, 4, 8));
    let drops = u32_from_le_bytes(slice_subrange(value, 8, 12));
    let requeues = u32_from_le_bytes(slice_subrange(value, 12, 16));
    let overlimits = u32_from_le_bytes(slice_subrange(value, 16, 20));
    Ok(TcStatsQueue { qlen, backlog, drops, requeues, overlimits })
}

/// Appends a [`TcStatsQueue`] value's wire bytes.
pub fn emit_tc_stats_queue(s: &TcStatsQueue, out: &mut Vec<u8>)
    ensures
        final(out)@ == old(out)@ + spec_tc_stats_queue_bytes(*s),
{
    push_u32_le(out, s.qlen);
    push_u32_le(out, s.backlog);
    push_u32_le(out, s.drops);
    push_u32_le(out, s.requeues);
    push_u32_le(out, s.overlimits);
    assert(out@ =~= old(out)@ + spec_tc_stats_queue_bytes(*s));
}

/// The wire bytes of [`TcStats`].
pub open spec fn spec_tc_stats_bytes(s: TcStats) -> Seq<u8> {
    spec_u64_to_le_bytes(s.bytes) + spec_u32_to_le_bytes(s.packets) + spec_u32_to_le_bytes(s.drops)
        + spec_u32_to_le_bytes(s.overlimits) + spec_u32_to_le_bytes(s.bps) + spec_u32_to_le_bytes(
        s.pps,
    ) + spec_u32_to_le_bytes(s.qlen) + spec_u32_to_le_bytes(s.backlog) + spec_zeros(4)
}

/// What decoding a [`TcStats`] value yields: strict on width and on the
/// alignment bytes being zero.
pub open spec fn spec_tc_stats_parse(v: Seq<u8>, code: u16) -> Result<TcStats, DecodeError> {
    if v.len() < 40 {
        Err(DecodeError::TooShort { expected: 40, available: v.len() as usize })
    } else if v.len() > 40 {
        Err(DecodeError::InvalidField { code })
    } else if !(v[36] == 0 && v[37] == 0 && v[38] == 0 && v[39] == 0) {
        Err(DecodeError::InvalidField { code })
    } else {
        Ok(
            TcStats {
                bytes: spec_u64_from_le_bytes(v.subrange(0, 8)),
                packets: spec_u32_from_le_bytes(v.subrange(8, 12)),
                drops: spec_u32_from_le_bytes(v.subrange(12, 16)),
                overlimits: spec_u32_from_le_bytes(v.subrange(16, 20)),
                bps: spec_u32_from_le_bytes(v.subrange(20, 24)),
                pps: spec_u32_from_le_bytes(v.subrange(24, 28)),
                qlen: spec_u32_from_le_bytes(v.subrange(28, 32)),
                backlog: spec_u32_from_le_bytes(v.subrange(32, 36)),
            },
        )
    }
}

/// Decoding inverts encoding for [`TcStats`], and vice versa.
pub proof fn lemma_tc_stats_roundtrip(s: TcStats, v: Seq<u8>, code: u16)
    ensures
        spec_tc_stats_parse(spec_tc_stats_bytes(s), code) == Ok::<TcStats, DecodeError>(s),
        spec_tc_stats_parse(v, code) matches Ok(t) ==> spec_tc_stats_bytes(t) == v,
{
    lemma_auto_spec_u32_to_from_le_bytes();
    lemma_auto_spec_u64_to_from_le_bytes();
    let b = spec_tc_stats_bytes(s);
    assert(b.subrange(0, 8) =~= spec_u64_to_le_bytes(s.bytes));
    assert(b.subrange(8, 12) =~= spec_u32_to_le_bytes(s.packets));
    assert(b.subrange(12, 16) =~= spec_u32_to_le_bytes(s.drops));
    assert(b.subrange(16, 20) =~= spec_u32_to_le_bytes(s.overlimits));
    assert(b.subrange(20, 24) =~= spec_u32_to_le_bytes(s.bps));
    assert(b.subrange(24, 28) =~= spec_u32_to_le_bytes(s.pps));
    assert(b.subrange(28, 32) =~= spec_u32_to_le_bytes(s.qlen));
    assert(b.subrange(32, 36) =~= spec_u32_to_le_bytes(s.backlog));
    assert(b[36] == 0 && b[37] == 0 && b[38] == 0 && b[39] == 0);
    if spec_tc_stats_parse(v, code) is Ok {
        let t = spec_tc_stats_parse(v, code)->Ok_0;
        assert(spec_tc_stats_bytes(t) =~= v);
    }
}

/// Decodes a [`TcStats`] value.
pub fn parse_tc_stats(value: &[u8], code: u16) -> (r: Result<TcStats, DecodeError>)
    ensures
        r == spec_tc_stats_parse(value@, code),
{
    let n = value.len();
    if n < 40 {
        return Err(DecodeError::TooShort { expected: 40, available: n });
    }
    if n > 40 {
        return Err(DecodeError::InvalidField { code });
    }
    if !(value[36] == 0 && value[37] == 0 && value[38] == 0 && value[39] == 0) {
        return Err(DecodeError::InvalidField { code });
    }
    let bytes = u64_from_le_bytes(slice_subrange(value, 0, 8));
    let packets = u32_from_le_bytes(slice_subrange(value, 8, 12));
    let drops = u32_from_le_bytes(slice_subrange(value, 12, 16));
    let overlimits = u32_from_le_bytes(slice_subrange(value, 16, 20));
    let bps = u32_from_le_bytes(slice_subrange(value, 20, 24));
    let pps = u32_from_le_bytes(slice_subrange(value, 24, 28));
    let qlen = u32_from_le_bytes(slice_subrange(value, 28, 32));
    let backlog = u32_from_le_bytes(slice_subrange(value, 32, 36));
    Ok(TcStats { bytes, packets, drops, overlimits, bps, pps, qlen, backlog })
}

/// Appends a [`TcStats`] value's wire bytes.
pub fn emit_tc_stats(s: &TcStats, out: &mut Vec<u8>)
    ensures
        final(out)@ == old(out)@ + spec_tc_stats_bytes(*s),
{
    push_u64_le(out, s.bytes);
    push_u32_le(out, s.packets);
    push_u32_le(out, s.drops);
    push_u32_le(out, s.overlimits);
    push_u32_le(out, s.bps);
    push_u32_le(out, s.pps);
    push_u32_le(out, s.qlen);
    push_u32_le(out, s.backlog);
    out.push(0);
    out.push(0);
    out.push(0);
    out.push(0);
    assert(out@ =~= old(out)@ + spec_tc_stats_bytes(*s));
}

/// The type code of basic statistics inside the nested statistics attribute.
pub const TCA_STATS_BASIC: u16 = 1;

/// The type code of queue statistics inside the nested statistics attribute.
pub const TCA_STATS_QUEUE: u16 = 3;

/// One entry of the nested statistics attribute of a tc message.
#[derive(Debug, PartialEq, Eq, Clone)]
pub enum TcStats2 {
    /// Basic byte and packet counters.
    Basic(TcStatsBasic),
    /// Queue counters.
    Queue(TcStatsQueue),
    /// Any statistics entry this catalog has no rule for, kept verbatim.
    Other(DefaultNla),
}

/// The model of a [`TcStats2`] entry.
pub enum TcStats2Model {
    Basic(TcStatsBasic),
    Queue(TcStatsQueue),
    Other(DefaultNlaModel),
}

/// Whether the nested statistics catalog has a rule for this type code.
pub open spec fn spec_tc_stats2_known(code: u16) -> bool {
    code == TCA_STATS_BASIC || code == TCA_STATS_QUEUE
}

impl Nla for TcStats2 {
    type Model = TcStats2Model;

    open spec fn model(&self) -> TcStats2Model {
        match self {
            TcStats2::Basic(s) => TcStats2Model::Basic(*s),
            TcStats2::Queue(s) => TcStats2Model::Queue(*s),
            TcStats2::Other(n) => TcStats2Model::Other(n.model()),
        }
    }

    open spec fn m_wf(m: TcStats2Model) -> bool {
        match m {
            TcStats2Model::Basic(_) => true,
            TcStats2Model::Queue(_) => true,
            TcStats2Model::Other(n) => DefaultNla::m_wf(n) && !spec_tc_stats2_known(n.code),
        }
    }

    open spec fn m_code(m: TcStats2Model) -> u16 {
        match m {
            TcStats2Model::Basic(_) => TCA_STATS_BASIC,
            TcStats2Model::Queue(_) => TCA_STATS_QUEUE,
            TcStats2Model::Other(n) => n.code,
        }
    }

    open spec fn m_value(m: TcStats2Model) -> Seq<u8> {
        match m {
            TcStats2Model::Basic(s) => spec_tc_stats_basic_bytes(s),
            TcStats2Model::Queue(s) => spec_tc_stats_queue_bytes(s),
            TcStats2Model::Other(n) => n.value,
        }
    }

    proof fn lemma_wf_len(m: TcStats2Model) {
        lemma_auto_spec_u32_to_from_le_bytes();
        lemma_auto_spec_u64_to_from_le_bytes();
    }

    fn kind(&self) -> u16 {
        match self {
            TcStats2::Basic(_) => TCA_STATS_BASIC,
            TcStats2::Queue(_) => TCA_STATS_QUEUE,
            TcStats2::Other(n) => n.kind(),
        }
    }

    fn value_len(&self) -> usize {
        proof {
            lemma_auto_spec_u32_to_from_le_bytes();
            lemma_auto_spec_u64_to_from_le_bytes();
        }
        match self {
            TcStats2::Basic(_) => 16,
            TcStats2::Queue(_) => 20,
            TcStats2::Other(n) => n.value_len(),
        }
    }

    fn emit_value(&self, out: &mut Vec<u8>) {
        match self {
            TcStats2::Basic(s) => emit_tc_stats_basic(s, out),
            TcStats2::Queue(s) => emit_tc_stats_queue(s, out),
            TcStats2::Other(n) => n.emit_value(out),
        }
    }
}

impl NlaDecode<()> for TcStats2 {
    open spec fn m_in_scope(m: TcStats2Model, ctx: ()) -> bool {
        true
    }

    open spec fn m_resolve(ctx: (), code: u16, value: Seq<u8>) -> Result<
        TcStats2Model,
        DecodeError,
    > {
        if code == TCA_STATS_BASIC {
            match spec_tc_stats_basic_parse(value, code) {
                Ok(s) => Ok(TcStats2Model::Basic(s)),
                Err(e) => Err(e),
            }
        } else if code == TCA_STATS_QUEUE {
            match spec_tc_stats_queue_parse(value, code) {
                Ok(s) => Ok(TcStats2Model::Queue(s)),
                Err(e) => Err(e),
            }
        } else {
            Ok(TcStats2Model::Other(DefaultNlaModel { code, value }))
        }
    }

    open spec fn v_canon(ctx: (), code: u16, value: Seq<u8>) -> bool {
        true
    }

    proof fn lemma_resolve_project(ctx: (), code: u16, value: Seq<u8>) {
        if code == TCA_STATS_BASIC {
            lemma_tc_stats_basic_roundtrip(TcStatsBasic { bytes: 0, packets: 0 }, value, code);
        } else if code == TCA_STATS_QUEUE {
            lemma_tc_stats_queue_roundtrip(
                TcStatsQueue { qlen: 0, backlog: 0, drops: 0, requeues: 0, overlimits: 0 },
                value,
                code,
            );
        }
    }

    proof fn lemma_project_resolve(m: TcStats2Model, ctx: ()) {
        match m {
            TcStats2Model::Basic(s) => {
                lemma_tc_stats_basic_roundtrip(s, Seq::empty(), TCA_STATS_BASIC);
            },
            TcStats2Model::Queue(s) => {
                lemma_tc_stats_queue_roundtrip(s, Seq::empty(), TCA_STATS_QUEUE);
            },
            TcStats2Model::Other(_) => {},
        }
    }

    fn parse(ctx: &(), code: u16, value: &[u8]) -> Result<TcStats2, DecodeError> {
        if code == TCA_STATS_BASIC {
            match parse_tc_stats_basic(value, code) {
                Ok(s) => Ok(TcStats2::Basic(s)),
                Err(e) => Err(e),
            }
        } else if code == TCA_STATS_QUEUE {
            match parse_tc_stats_queue(value, code) {
                Ok(s) => Ok(TcStats2::Queue(s)),
                Err(e) => Err(e),
            }
        } else {
            match <DefaultNla as NlaDecode<()>>::parse(ctx, code, value) {
                Ok(n) => Ok(TcStats2::Other(n)),
                Err(e) => Err(e),
            }
        }
    }
}

} // verus!

verus! {

/// Fallback totality for the nested statistics catalog: a code without a
/// rule resolves to the verbatim fallback and projects back to the same code
/// and value bytes unchanged.
pub proof fn lemma_tc_stats2_fallback_totality(code: u16, value: Seq<u8>)
    requires
        !spec_tc_stats2_known(code),
    ensures
        TcStats2::m_resolve((), code, value) == Ok::<TcStats2Model, DecodeError>(
            TcStats2Model::Other(DefaultNlaModel { code, value }),
        ),
        TcStats2::m_code(TcStats2::m_resolve((), code, value)->Ok_0) == code,
        TcStats2::m_value(TcStats2::m_resolve((), code, value)->Ok_0) == value,
{
}

} // verus!
