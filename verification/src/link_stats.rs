//! Link statistics and the device memory map: fixed-layout structs carried
//! by link message attributes.

use vstd::prelude::*;
use crate::error::DecodeError;
use vstd::bytes::{
    spec_u16_from_le_bytes, spec_u16_to_le_bytes, spec_u64_from_le_bytes, spec_u64_to_le_bytes,
    lemma_auto_spec_u16_to_from_le_bytes, lemma_auto_spec_u64_to_from_le_bytes, u16_from_le_bytes,
    u64_from_le_bytes,
};
use vstd::slice::slice_subrange;
use crate::nla::spec_zeros;
use crate::values::{push_u16_le, push_u64_le};
use crate::words::{
    spec_words32_bytes, spec_words32_of, spec_words64_bytes, spec_words64_of, lemma_words32_facts,
    lemma_words32_roundtrip, lemma_words32_project, lemma_words64_facts, lemma_words64_roundtrip,
    lemma_words64_project, read_words32, read_words64, push_words32, push_words64,
};

verus! {

/// Stats: 24 u32 fields, 96 bytes on the wire in field order.
#[derive(Debug, PartialEq, Eq, Clone, Copy)]
pub struct Stats {
    pub rx_packets: u32,
    pub tx_packets: u32,
    pub rx_bytes: u32,
    pub tx_bytes: u32,
    pub rx_errors: u32,
    pub tx_errors: u32,
    pub rx_dropped: u32,
    pub tx_dropped: u32,
    pub multicast: u32,
    pub collisions: u32,
    pub rx_length_errors: u32,
    pub rx_over_errors: u32,
    pub rx_crc_errors: u32,
    pub rx_frame_errors: u32,
    pub rx_fifo_errors: u32,
    pub rx_missed_errors: u32,
    pub tx_aborted_errors: u32,
    pub tx_carrier_errors: u32,
    pub tx_fifo_errors: u32,
    pub tx_heartbeat_errors: u32,
    pub tx_window_errors: u32,
    pub rx_compressed: u32,
    pub tx_compressed: u32,
    pub rx_nohandler: u32,
}

/// The wire words of a [`Stats`], in field order.
pub open spec fn spec_stats_words(s: Stats) -> Seq<u32> {
    seq![
        s.rx_packets,
        s.tx_packets,
        s.rx_bytes,
        s.tx_bytes,
        s.rx_errors,
        s.tx_errors,
        s.rx_dropped,
        s.tx_dropped,
        s.multicast,
        s.collisions,
        s.rx_length_errors,
        s.rx_over_errors,
        s.rx_crc_errors,
        s.rx_frame_errors,
        s.rx_fifo_errors,
        s.rx_missed_errors,
        s.tx_aborted_errors,
        s.tx_carrier_errors,
        s.tx_fifo_errors,
        s.tx_heartbeat_errors,
        s.tx_window_errors,
        s.rx_compressed,
        s.tx_compressed,
        s.rx_nohandler,
    ]
}

/// The [`Stats`] of a run of wire words.
pub open spec fn spec_stats_from_words(ws: Seq<u32>) -> Stats
    recommends
        ws.len() == 24,
{
    Stats {
        rx_packets: ws[0],
        tx_packets: ws[1],
        rx_bytes: ws[2],
        tx_bytes: ws[3],
        rx_errors: ws[4],
        tx_errors: ws[5],
        rx_dropped: ws[6],
        tx_dropped: ws[7],
        multicast: ws[8],
        collisions: ws[9],
        rx_length_errors: ws[10],
        rx_over_errors: ws[11],
        rx_crc_errors: ws[12],
        rx_frame_errors: ws[13],
        rx_fifo_errors: ws[14],
        rx_missed_errors: ws[15],
        tx_aborted_errors: ws[16],
        tx_carrier_errors: ws[17],
        tx_fifo_errors: ws[18],
        tx_heartbeat_errors: ws[19],
        tx_window_errors: ws[20],
        rx_compressed: ws[21],
        tx_compressed: ws[22],
        rx_nohandler: ws[23],
    }
}

/// The wire bytes of a [`Stats`].
pub open spec fn spec_stats_bytes(s: Stats) -> Seq<u8> {
    spec_words32_bytes(spec_stats_words(s))
}

/// What decoding a [`Stats`] value yields: strict on width.
pub open spec fn spec_stats_parse(v: Seq<u8>, code: u16) -> Result<Stats, DecodeError> {
    if v.len() < 96 {
        Err(DecodeError::TooShort { expected: 96, available: v.len() as usize })
    } else if v.len() > 96 {
        Err(DecodeError::InvalidField { code })
    } else {
        Ok(spec_stats_from_words(spec_words32_of(v)))
    }
}

/// Decoding inverts encoding for [`Stats`], and vice versa.
pub proof fn lemma_stats_roundtrip(s: Stats, v: Seq<u8>, code: u16)
    ensures
        spec_stats_bytes(s).len() == 96,
        spec_stats_parse(spec_stats_bytes(s), code) == Ok::<Stats, DecodeError>(s),
        spec_stats_parse(v, code) matches Ok(t) ==> spec_stats_bytes(t) == v,
{
    lemma_words32_facts(spec_stats_words(s));
    lemma_words32_roundtrip(spec_stats_words(s));
    assert(spec_stats_from_words(spec_stats_words(s)) == s);
    if spec_stats_parse(v, code) is Ok {
        let ws = spec_words32_of(v);
        lemma_words32_project(v);
        assert(spec_stats_words(spec_stats_from_words(ws)) =~= ws);
    }
}

/// The wire words of this value, in field order.
pub fn stats_words(s: &Stats) -> (r: Vec<u32>)
    ensures
        r@ == spec_stats_words(*s),
{
    let mut ws: Vec<u32> = Vec::new();
    ws.push(s.rx_packets);
    ws.push(s.tx_packets);
    ws.push(s.rx_bytes);
    ws.push(s.tx_bytes);
    ws.push(s.rx_errors);
    ws.push(s.tx_errors);
    ws.push(s.rx_dropped);
    ws.push(s.tx_dropped);
    ws.push(s.multicast);
    ws.push(s.collisions);
    ws.push(s.rx_length_errors);
    ws.push(s.rx_over_errors);
    ws.push(s.rx_crc_errors);
    ws.push(s.rx_frame_errors);
    ws.push(s.rx_fifo_errors);
    ws.push(s.rx_missed_errors);
    ws.push(s.tx_aborted_errors);
    ws.push(s.tx_carrier_errors);
    ws.push(s.tx_fifo_errors);
    ws.push(s.tx_heartbeat_errors);
    ws.push(s.tx_window_errors);
    ws.push(s.rx_compressed);
    ws.push(s.tx_compressed);
    ws.push(s.rx_nohandler);
    assert(ws@ =~= spec_stats_words(*s));
    ws
}

/// Decodes a [`Stats`] value.
pub fn parse_stats(value: &[u8], code: u16) -> (r: Result<Stats, DecodeError>)
    ensures
        r == spec_stats_parse(value@, code),
{
    let n = value.len();
    if n < 96 {
        return Err(DecodeError::TooShort { expected: 96, available: n });
    }
    if n > 96 {
        return Err(DecodeError::InvalidField { code });
    }
    let ws = match read_words32(value) {
        Some(ws) => ws,
        None => {
            return Err(DecodeError::InvalidField { code });
        },
    };
    let s = Stats {
        rx_packets: ws[0],
        tx_packets: ws[1],
        rx_bytes: ws[2],
        tx_bytes: ws[3],
        rx_errors: ws[4],
        tx_errors: ws[5],
        rx_dropped: ws[6],
        tx_dropped: ws[7],
        multicast: ws[8],
        collisions: ws[9],
        rx_length_errors: ws[10],
        rx_over_errors: ws[11],
        rx_crc_errors: ws[12],
        rx_frame_errors: ws[13],
        rx_fifo_errors: ws[14],
        rx_missed_errors: ws[15],
        tx_aborted_errors: ws[16],
        tx_carrier_errors: ws[17],
        tx_fifo_errors: ws[18],
        tx_heartbeat_errors: ws[19],
        tx_window_errors: ws[20],
        rx_compressed: ws[21],
        tx_compressed: ws[22],
        rx_nohandler: ws[23],
    };
    assert(s == spec_stats_from_words(spec_words32_of(value@)));
    Ok(s)
}

/// Appends a [`Stats`] value's wire bytes.
pub fn emit_stats(s: &Stats, out: &mut Vec<u8>)
    ensures
        final(out)@ == old(out)@ + spec_stats_bytes(*s),
{
    let ws = stats_words(s);
    push_words32(&ws, out);
}
/// Stats64: 25 u64 fields, 200 bytes on the wire in field order.
#[derive(Debug, PartialEq, Eq, Clone, Copy)]
pub struct Stats64 {
    pub rx_packets: u64,
    pub tx_packets: u64,
    pub rx_bytes: u64,
    pub tx_bytes: u64,
    pub rx_errors: u64,
    pub tx_errors: u64,
    pub rx_dropped: u64,
    pub tx_dropped: u64,
    pub multicast: u64,
    pub collisions: u64,
    pub rx_length_errors: u64,
    pub rx_over_errors: u64,
    pub rx_crc_errors: u64,
    pub rx_frame_errors: u64,
    pub rx_fifo_errors: u64,
    pub rx_missed_errors: u64,
    pub tx_aborted_errors: u64,
    pub tx_carrier_errors: u64,
    pub tx_fifo_errors: u64,
    pub tx_heartbeat_errors: u64,
    pub tx_window_errors: u64,
    pub rx_compressed: u64,
    pub tx_compressed: u64,
    pub rx_nohandler: u64,
    pub rx_otherhost_dropped: u64,
}

/// The wire words of a [`Stats64`], in field order.
pub open spec fn spec_stats64_words(s: Stats64) -> Seq<u64> {
    seq![
        s.rx_packets,
        s.tx_packets,
        s.rx_bytes,
        s.tx_bytes,
        s.rx_errors,
        s.tx_errors,
        s.rx_dropped,
        s.tx_dropped,
        s.multicast,
        s.collisions,
        s.rx_length_errors,
        s.rx_over_errors,
        s.rx_crc_errors,
        s.rx_frame_errors,
        s.rx_fifo_errors,
        s.rx_missed_errors,
        s.tx_aborted_errors,
        s.tx_carrier_errors,
        s.tx_fifo_errors,
        s.tx_heartbeat_errors,
        s.tx_window_errors,
        s.rx_compressed,
        s.tx_compressed,
        s.rx_nohandler,
        s.rx_otherhost_dropped,
    ]
}

/// The [`Stats64`] of a run of wire words.
pub open spec fn spec_stats64_from_words(ws: Seq<u64>) -> Stats64
    recommends
        ws.len() == 25,
{
    Stats64 {
        rx_packets: ws[0],
        tx_packets: ws[1],
        rx_bytes: ws[2],
        tx_bytes: ws[3],
        rx_errors: ws[4],
        tx_errors: ws[5],
        rx_dropped: ws[6],
        tx_dropped: ws[7],
        multicast: ws[8],
        collisions: ws[9],
        rx_length_errors: ws[10],
        rx_over_errors: ws[11],
        rx_crc_errors: ws[12],
        rx_frame_errors: ws[13],
        rx_fifo_errors: ws[14],
        rx_missed_errors: ws[15],
        tx_aborted_errors: ws[16],
        tx_carrier_errors: ws[17],
        tx_fifo_errors: ws[18],
        tx_heartbeat_errors: ws[19],
        tx_window_errors: ws[20],
        rx_compressed: ws[21],
        tx_compressed: ws[22],
        rx_nohandler: ws[23],
        rx_otherhost_dropped: ws[24],
    }
}

/// The wire bytes of a [`Stats64`].
pub open spec fn spec_stats64_bytes(s: Stats64) -> Seq<u8> {
    spec_words64_bytes(spec_stats64_words(s))
}

/// What decoding a [`Stats64`] value yields: strict on width.
pub open spec fn spec_stats64_parse(v: Seq<u8>, code: u16) -> Result<Stats64, DecodeError> {
    if v.len() < 200 {
        Err(DecodeError::TooShort { expected: 200, available: v.len() as usize })
    } else if v.len() > 200 {
        Err(DecodeError::InvalidField { code })
    } else {
        Ok(spec_stats64_from_words(spec_words64_of(v)))
    }
}

/// Decoding inverts encoding for [`Stats64`], and vice versa.
pub proof fn lemma_stats64_roundtrip(s: Stats64, v: Seq<u8>, code: u16)
    ensures
        spec_stats64_bytes(s).len() == 200,
        spec_stats64_parse(spec_stats64_bytes(s), code) == Ok::<Stats64, DecodeError>(s),
        spec_stats64_parse(v, code) matches Ok(t) ==> spec_stats64_bytes(t) == v,
{
    lemma_words64_facts(spec_stats64_words(s));
    lemma_words64_roundtrip(spec_stats64_words(s));
    assert(spec_stats64_from_words(spec_stats64_words(s)) == s);
    if spec_stats64_parse(v, code) is Ok {
        let ws = spec_words64_of(v);
        lemma_words64_project(v);
        assert(spec_stats64_words(spec_stats64_from_words(ws)) =~= ws);
    }
}

/// The wire words of this value, in field order.
pub fn stats64_words(s: &Stats64) -> (r: Vec<u64>)
    ensures
        r@ == spec_stats64_words(*s),
{
    let mut ws: Vec<u64> = Vec::new();
    ws.push(s.rx_packets);
    ws.push(s.tx_packets);
    ws.push(s.rx_bytes);
    ws.push(s.tx_bytes);
    ws.push(s.rx_errors);
    ws.push(s.tx_errors);
    ws.push(s.rx_dropped);
    ws.push(s.tx_dropped);
    ws.push(s.multicast);
    ws.push(s.collisions);
    ws.push(s.rx_length_errors);
    ws.push(s.rx_over_errors);
    ws.push(s.rx_crc_errors);
    ws.push(s.rx_frame_errors);
    ws.push(s.rx_fifo_errors);
    ws.push(s.rx_missed_errors);
    ws.push(s.tx_aborted_errors);
    ws.push(s.tx_carrier_errors);
    ws.push(s.tx_fifo_errors);
    ws.push(s.tx_heartbeat_errors);
    ws.push(s.tx_window_errors);
    ws.push(s.rx_compressed);
    ws.push(s.tx_compressed);
    ws.push(s.rx_nohandler);
    ws.push(s.rx_otherhost_dropped);
    assert(ws@ =~= spec_stats64_words(*s));
    ws
}

/// Decodes a [`Stats64`] value.
pub fn parse_stats64(value: &[u8], code: u16) -> (r: Result<Stats64, DecodeError>)
    ensures
        r == spec_stats64_parse(value@, code),
{
    let n = value.len();
    if n < 200 {
        return Err(DecodeError::TooShort { expected: 200, available: n });
    }
    if n > 200 {
        return Err(DecodeError::InvalidField { code });
    }
    let ws = match read_words64(value) {
        Some(ws) => ws,
        None => {
            return Err(DecodeError::InvalidField { code });
        },
    };
    let s = Stats64 {
        rx_packets: ws[0],
        tx_packets: ws[1],
        rx_bytes: ws[2],
        tx_bytes: ws[3],
        rx_errors: ws[4],
        tx_errors: ws[5],
        rx_dropped: ws[6],
        tx_dropped: ws[7],
        multicast: ws[8],
        collisions: ws[9],
        rx_length_errors: ws[10],
        rx_over_errors: ws[11],
        rx_crc_errors: ws[12],
        rx_frame_errors: ws[13],
        rx_fifo_errors: ws[14],
        rx_missed_errors: ws[15],
        tx_aborted_errors: ws[16],
        tx_carrier_errors: ws[17],
        tx_fifo_errors: ws[18],
        tx_heartbeat_errors: ws[19],
        tx_window_errors: ws[20],
        rx_compressed: ws[21],
        tx_compressed: ws[22],
        rx_nohandler: ws[23],
        rx_otherhost_dropped: ws[24],
    };
    assert(s == spec_stats64_from_words(spec_words64_of(value@)));
    Ok(s)
}

/// Appends a [`Stats64`] value's wire bytes.
pub fn emit_stats64(s: &Stats64, out: &mut Vec<u8>)
    ensures
        final(out)@ == old(out)@ + spec_stats64_bytes(*s),
{
    let ws = stats64_words(s);
    push_words64(&ws, out);
}

/// The device memory map of a link: three 64-bit addresses, the interrupt
/// number, and the DMA and port bytes, then 4 alignment bytes, 32 bytes in
/// all.
#[derive(Debug, PartialEq, Eq, Clone, Copy)]
pub struct DeviceMap {
    pub memory_start: u64,
    pub memory_end: u64,
    pub base_address: u64,
    pub irq: u16,
    pub dma: u8,
    pub port: u8,
}

/// The wire bytes of a [`DeviceMap`].
pub open spec fn spec_device_map_bytes(s: DeviceMap) -> Seq<u8> {
    spec_u64_to_le_bytes(s.memory_start) + spec_u64_to_le_bytes(s.memory_end)
        + spec_u64_to_le_bytes(s.base_address) + spec_u16_to_le_bytes(s.irq) + seq![s.dma]
        + seq![s.port] + spec_zeros(4)
}

/// What decoding a [`DeviceMap`] value yields: strict on width and on the
/// alignment bytes being zero.
pub open spec fn spec_device_map_parse(v: Seq<u8>, code: u16) -> Result<DeviceMap, DecodeError> {
    if v.len() < 32 {
        Err(DecodeError::TooShort { expected: 32, available: v.len() as usize })
    } else if v.len() > 32 {
        Err(DecodeError::InvalidField { code })
    } else if !(v[28] == 0 && v[29] == 0 && v[30] == 0 && v[31] == 0) {
        Err(DecodeError::InvalidField { code })
    } else {
        Ok(
            DeviceMap {
                memory_start: spec_u64_from_le_bytes(v.subrange(0, 8)),
                memory_end: spec_u64_from_le_bytes(v.subrange(8, 16)),
                base_address: spec_u64_from_le_bytes(v.subrange(16, 24)),
                irq: spec_u16_from_le_bytes(v.subrange(24, 26)),
                dma: v[26],
                port: v[27],
            },
        )
    }
}

/// Decoding inverts encoding for [`DeviceMap`], and vice versa.
pub proof fn lemma_device_map_roundtrip(s: DeviceMap, v: Seq<u8>, code: u16)
    ensures
        spec_device_map_bytes(s).len() == 32,
        spec_device_map_parse(spec_device_map_bytes(s), code) == Ok::<DeviceMap, DecodeError>(s),
        spec_device_map_parse(v, code) matches Ok(t) ==> spec_device_map_bytes(t) == v,
{
    lemma_auto_spec_u16_to_from_le_bytes();
    lemma_auto_spec_u64_to_from_le_bytes();
    let b = spec_device_map_bytes(s);
    assert(b.subrange(0, 8) =~= spec_u64_to_le_bytes(s.memory_start));
    assert(b.subrange(8, 16) =~= spec_u64_to_le_bytes(s.memory_end));
    assert(b.subrange(16, 24) =~= spec_u64_to_le_bytes(s.base_address));
    assert(b.subrange(24, 26) =~= spec_u16_to_le_bytes(s.irq));
    assert(b[26] == s.dma && b[27] == s.port);
    assert(b[28] == 0 && b[29] == 0 && b[30] == 0 && b[31] == 0);
    if spec_device_map_parse(v, code) is Ok {
        let t = spec_device_map_parse(v, code)->Ok_0;
        assert(spec_device_map_bytes(t) =~= v);
    }
}

/// Decodes a [`DeviceMap`] value.
pub fn parse_device_map(value: &[u8], code: u16) -> (r: Result<DeviceMap, DecodeError>)
    ensures
        r == spec_device_map_parse(value@, code),
{
    let n = value.len();
    if n < 32 {
        return Err(DecodeError::TooShort { expected: 32, available: n });
    }
    if n > 32 {
        return Err(DecodeError::InvalidField { code });
    }
    if !(value[28] == 0 && value[29] == 0 && value[30] == 0 && value[31] == 0) {
        return Err(DecodeError::InvalidField { code });
    }
    let memory_start = u64_from_le_bytes(slice_subrange(value, 0, 8));
    let memory_end = u64_from_le_bytes(slice_subrange(value, 8, 16));
    let base_address = u64_from_le_bytes(slice_subrange(value, 16, 24));
    let irq = u16_from_le_bytes(slice_subrange(value, 24, 26));
    let dma = value[26];
    let port = value[27];
    Ok(DeviceMap { memory_start, memory_end, base_address, irq, dma, port })
}

/// Appends a [`DeviceMap`] value's wire bytes.
pub fn emit_device_map(s: &DeviceMap, out: &mut Vec<u8>)
    ensures
        final(out)@ == old(out)@ + spec_device_map_bytes(*s),
{
    push_u64_le(out, s.memory_start);
    push_u64_le(out, s.memory_end);
    push_u64_le(out, s.base_address);
    push_u16_le(out, s.irq);
    out.push(s.dma);
    out.push(s.port);
    out.push(0);
    out.push(0);
    out.push(0);
    out.push(0);
    assert(out@ =~= old(out)@ + spec_device_map_bytes(*s));
}

} // verus!
