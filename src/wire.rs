//! The byte formats shared with a cartridge, and the bounds-checked reads of
//! its linear memory.
use vstd::prelude::*;
use crate::audio::{scale_pow2, scaled_by_pow2, ControlParams, LEVEL_ONE};

verus! {

/// Bytes of one channel record: 13 fields of 4 bytes.
pub const RECORD_BYTES: usize = 52;
/// Bytes of the whole audio block: four records.
pub const AUDIO_BLOCK_BYTES: usize = 208;

/// A cartridge broke the host interface.
#[derive(Clone, Copy, Debug, PartialEq, Eq, Structural)]
pub enum AbiError {
    /// A required export is missing; the cartridge is rejected at load.
    MissingExport,
    /// A pointer and length reach past the end of the module's memory.
    OutOfBounds,
}

/// `true` when `[ptr, ptr + len)` lies inside a memory of `mem_len` bytes.
pub open spec fn in_bounds(mem_len: int, ptr: u32, len: u32) -> bool {
    ptr as int + len as int <= mem_len
}

/// Copies the framebuffer `[ptr, ptr + len)` out of the module's memory,
/// or reports that it does not fit.
pub fn read_frame(mem: &[u8], ptr: u32, len: u32) -> (r: Result<Vec<u8>, AbiError>)
    ensures
        in_bounds(mem@.len() as int, ptr, len) <==> r is Ok,
        r is Ok ==> r->Ok_0@ == mem@.subrange(ptr as int, ptr as int + len as int),
        r is Err ==> r->Err_0 == AbiError::OutOfBounds,
{
    let start = ptr as usize;
    if len as usize > mem.len() || start > mem.len() - len as usize {
        return Err(AbiError::OutOfBounds);
    }
    let end = start + len as usize;
    let mut out: Vec<u8> = Vec::with_capacity(len as usize);
    let mut i = start;
    while i < end
        invariant
            start <= i <= end,
            end <= mem@.len(),
            out@ == mem@.subrange(start as int, i as int),
        decreases end - i,
    {
        out.push(mem[i]);
        i = i + 1;
    }
    Ok(out)
}

/// The audio block at `entry` (pointer and length, when the cartridge
/// exports them): present only when the length is at least
/// `AUDIO_BLOCK_BYTES` and the block lies inside the memory.
pub fn read_audio_block(mem: &[u8], entry: Option<(u32, u32)>) -> (r: Option<Vec<u8>>)
    ensures
        r is Some <==> (entry is Some && entry->Some_0.1 >= AUDIO_BLOCK_BYTES
            && in_bounds(mem@.len() as int, entry->Some_0.0, entry->Some_0.1)),
        r is Some ==> r->Some_0@ == mem@.subrange(
            entry->Some_0.0 as int, entry->Some_0.0 as int + entry->Some_0.1 as int),
{
    match entry {
        None => None,
        Some((ptr, len)) => {
            if (len as usize) < AUDIO_BLOCK_BYTES {
                None
            } else {
                match read_frame(mem, ptr, len) {
                    Ok(b) => Some(b),
                    Err(_) => None,
                }
            }
        },
    }
}

/// The little-endian `u32` at byte offset `off`.
pub open spec fn le_u32(b: Seq<u8>, off: int) -> u32 {
    (b[off] as int + b[off + 1] as int * 0x100 + b[off + 2] as int * 0x1_0000
        + b[off + 3] as int * 0x100_0000) as u32
}

fn read_u32(b: &[u8], off: usize) -> (r: u32)
    requires
        off + 4 <= b@.len(),
    ensures
        r == le_u32(b@, off as int),
{
    let b0 = b[off] as u32;
    let b1 = b[off + 1] as u32;
    let b2 = b[off + 2] as u32;
    let b3 = b[off + 3] as u32;
    let r = b0 | (b1 << 8u32) | (b2 << 16u32) | (b3 << 24u32);
    assert(r == b0 + b1 * 0x100 + b2 * 0x1_0000 + b3 * 0x100_0000) by (bit_vector)
        requires
            r == b0 | (b1 << 8u32) | (b2 << 16u32) | (b3 << 24u32),
            b0 < 256, b1 < 256, b2 < 256, b3 < 256,
    ;
    r
}

/// One channel record as it is laid out on the wire. The fields that the
/// cartridge writes as `f32` are kept as their raw bit patterns.
#[derive(Clone, Copy, Debug, PartialEq, Eq, Structural)]
pub struct WireChannel {
    pub kind: u32,
    pub base_freq_bits: u32,
    pub vol_bits: u32,
    pub duty_bits: u32,
    pub gate: u32,
    pub attack_ms_bits: u32,
    pub decay_ms_bits: u32,
    pub sustain_bits: u32,
    pub release_ms_bits: u32,
    pub arp_a: i32,
    pub arp_b: i32,
    pub arp_c: i32,
    pub arp_rate_bits: u32,
}

/// The record that starts at byte offset `off`.
pub open spec fn wire_channel_at(b: Seq<u8>, off: int) -> WireChannel {
    WireChannel {
        kind: le_u32(b, off),
        base_freq_bits: le_u32(b, off + 4),
        vol_bits: le_u32(b, off + 8),
        duty_bits: le_u32(b, off + 12),
        gate: le_u32(b, off + 16),
        attack_ms_bits: le_u32(b, off + 20),
        decay_ms_bits: le_u32(b, off + 24),
        sustain_bits: le_u32(b, off + 28),
        release_ms_bits: le_u32(b, off + 32),
        arp_a: le_u32(b, off + 36) as i32,
        arp_b: le_u32(b, off + 40) as i32,
        arp_c: le_u32(b, off + 44) as i32,
        arp_rate_bits: le_u32(b, off + 48),
    }
}

fn decode_channel(b: &[u8], off: usize) -> (r: WireChannel)
    requires
        off + RECORD_BYTES <= b@.len(),
    ensures
        r == wire_channel_at(b@, off as int),
{
    let n = b.len();
    assert(off + RECORD_BYTES <= n);
    WireChannel {
        kind: read_u32(b, off),
        base_freq_bits: read_u32(b, off + 4),
        vol_bits: read_u32(b, off + 8),
        duty_bits: read_u32(b, off + 12),
        gate: read_u32(b, off + 16),
        attack_ms_bits: read_u32(b, off + 20),
        decay_ms_bits: read_u32(b, off + 24),
        sustain_bits: read_u32(b, off + 28),
        release_ms_bits: read_u32(b, off + 32),
        arp_a: #[verifier::truncate] (read_u32(b, off + 36) as i32),
        arp_b: #[verifier::truncate] (read_u32(b, off + 40) as i32),
        arp_c: #[verifier::truncate] (read_u32(b, off + 44) as i32),
        arp_rate_bits: read_u32(b, off + 48),
    }
}

/// Decodes the four channel records of an audio block.
pub fn decode_audio_block(b: &[u8]) -> (r: [WireChannel; 4])
    requires
        b@.len() >= AUDIO_BLOCK_BYTES,
    ensures
        forall|i: int| 0 <= i < 4 ==> #[trigger] r[i] == wire_channel_at(b@, i * RECORD_BYTES),
{
    let c0 = decode_channel(b, 0);
    let c1 = decode_channel(b, 52);
    let c2 = decode_channel(b, 104);
    let c3 = decode_channel(b, 156);
    let r = [c0, c1, c2, c3];
    assert(r@ == seq![c0, c1, c2, c3]);
    r
}

} // verus!

verus! {

/// The value of the IEEE-754 single with bit pattern `bits`, multiplied by
/// `m` and rounded down to a `u32`: negative values and NaN give 0, values
/// too large (and +infinity) give `u32::MAX`.
pub open spec fn f32_scaled(bits: u32, m: int) -> int {
    let e = bits as int / 0x80_0000;
    let f = bits as int % 0x80_0000;
    if bits >= 0x8000_0000 {
        0
    } else if e == 255 {
        if f == 0 { u32::MAX as int } else { 0 }
    } else if e == 0 {
        scaled_by_pow2(f * m, -149)
    } else {
        scaled_by_pow2((f + 0x80_0000) * m, e - 150)
    }
}

/// Reads an `f32` bit pattern as a fixed-point number with `m` units per 1.0.
pub fn fixed_from_f32_bits(bits: u32, m: u64) -> (r: u32)
    requires
        m <= LEVEL_ONE,
    ensures
        r as int == f32_scaled(bits, m as int),
{
    let e: u32 = bits / 0x80_0000;
    let f: u32 = bits % 0x80_0000;
    if bits >= 0x8000_0000 {
        0
    } else if e == 255 {
        if f == 0 { 0xFFFF_FFFF } else { 0 }
    } else if e == 0 {
        assert(f as int * m as int <= 0x80_0000 * 0x100_0000) by (nonlinear_arith)
            requires f < 0x80_0000, m <= 0x100_0000;
        scale_pow2(f as u64 * m, -149)
    } else {
        let mant: u64 = f as u64 + 0x80_0000;
        assert(mant as int * m as int <= 0x100_0000 * 0x100_0000) by (nonlinear_arith)
            requires mant <= 0x100_0000, m <= 0x100_0000;
        scale_pow2(mant * m, e as i64 - 150)
    }
}

/// The engine's control parameters for one wire record: frequencies and
/// rates in millihertz, durations in microseconds, levels in Q24.
pub open spec fn control_from_wire(w: WireChannel) -> ControlParams {
    ControlParams {
        kind: w.kind,
        base_freq_mhz: f32_scaled(w.base_freq_bits, 1000) as u32,
        volume: f32_scaled(w.vol_bits, LEVEL_ONE as int) as u32,
        duty: f32_scaled(w.duty_bits, LEVEL_ONE as int) as u32,
        gate: w.gate != 0,
        attack_us: f32_scaled(w.attack_ms_bits, 1000) as u32,
        decay_us: f32_scaled(w.decay_ms_bits, 1000) as u32,
        sustain_level: f32_scaled(w.sustain_bits, LEVEL_ONE as int) as u32,
        release_us: f32_scaled(w.release_ms_bits, 1000) as u32,
        arp_a: w.arp_a,
        arp_b: w.arp_b,
        arp_c: w.arp_c,
        arp_rate_mhz: f32_scaled(w.arp_rate_bits, 1000) as u32,
    }
}

/// Converts a wire record into control parameters.
pub fn control_of(w: &WireChannel) -> (r: ControlParams)
    ensures
        r == control_from_wire(*w),
{
    ControlParams {
        kind: w.kind,
        base_freq_mhz: fixed_from_f32_bits(w.base_freq_bits, 1000),
        volume: fixed_from_f32_bits(w.vol_bits, LEVEL_ONE as u64),
        duty: fixed_from_f32_bits(w.duty_bits, LEVEL_ONE as u64),
        gate: w.gate != 0,
        attack_us: fixed_from_f32_bits(w.attack_ms_bits, 1000),
        decay_us: fixed_from_f32_bits(w.decay_ms_bits, 1000),
        sustain_level: fixed_from_f32_bits(w.sustain_bits, LEVEL_ONE as u64),
        release_us: fixed_from_f32_bits(w.release_ms_bits, 1000),
        arp_a: w.arp_a,
        arp_b: w.arp_b,
        arp_c: w.arp_c,
        arp_rate_mhz: fixed_from_f32_bits(w.arp_rate_bits, 1000),
    }
}

/// The control parameters that the audio block at `entry` publishes, when
/// there is a complete block inside the module's memory; `None` means that
/// the engine keeps its current parameters this tick.
pub fn audio_params_from_memory(mem: &[u8], entry: Option<(u32, u32)>) -> (r: Option<[ControlParams; 4]>)
    ensures
        r is Some <==> (entry is Some && entry->Some_0.1 >= AUDIO_BLOCK_BYTES
            && in_bounds(mem@.len() as int, entry->Some_0.0, entry->Some_0.1)),
        r is Some ==> forall|i: int| 0 <= i < 4 ==> #[trigger] r->Some_0[i] == control_from_wire(
            wire_channel_at(mem@.subrange(entry->Some_0.0 as int,
                entry->Some_0.0 as int + entry->Some_0.1 as int), i * RECORD_BYTES)),
{
    match read_audio_block(mem, entry) {
        None => None,
        Some(block) => {
            let w = decode_audio_block(block.as_slice());
            let c0 = control_of(&w[0]);
            let c1 = control_of(&w[1]);
            let c2 = control_of(&w[2]);
            let c3 = control_of(&w[3]);
            let r = [c0, c1, c2, c3];
            assert(r@ == seq![c0, c1, c2, c3]);
            Some(r)
        },
    }
}

} // verus!
