//! Fixed-point synthesizer for the four-voice channel bank.
//!
//! Levels, volume, duty and sustain are fractions in Q24 (`LEVEL_ONE` is
//! 1.0). Oscillator and arpeggio phases are 32-bit accumulators where 2^32
//! is one full cycle, so wrapping at 1.0 is wrapping arithmetic. Frequencies
//! are in millihertz and durations in microseconds.
use vstd::arithmetic::power2::pow2;
use vstd::prelude::*;

verus! {

/// 1.0 in Q24.
pub const LEVEL_ONE: u32 = 0x100_0000;
/// Largest sample rate the engine accepts, in Hz: a bound on the engine's
/// domain, far above any audio device rate.
pub const MAX_SAMPLE_RATE: u32 = 1_000_000;
/// Amplitudes at or below this (about 0.0001) contribute nothing to the mix.
pub const AMP_EPSILON: u64 = 1677;

/// Waveform kind code of a pulse voice (kind 1 is reserved for duty variants).
pub const KIND_PULSE: u32 = 0;
/// Second pulse kind code.
pub const KIND_PULSE_ALT: u32 = 1;
/// Waveform kind code of a noise voice.
pub const KIND_NOISE: u32 = 2;

/// Seed of the noise register whenever it falls to zero.
pub const NOISE_RESEED: u32 = 0x4000;

/// Control half of a voice: written wholesale by the cartridge every tick.
#[derive(Clone, Copy, Debug, PartialEq, Eq, Structural)]
pub struct ControlParams {
    pub kind: u32,
    pub base_freq_mhz: u32,
    pub volume: u32,
    pub duty: u32,
    pub gate: bool,
    pub attack_us: u32,
    pub decay_us: u32,
    pub sustain_level: u32,
    pub release_us: u32,
    pub arp_a: i32,
    pub arp_b: i32,
    pub arp_c: i32,
    pub arp_rate_mhz: u32,
}

/// Stage of the envelope state machine.
#[derive(Clone, Copy, Debug, PartialEq, Eq, Structural)]
pub enum EnvStage {
    Idle,
    Attack,
    Decay,
    Sustain,
    Release,
}

/// Synthesis half of a voice: owned by the render path alone.
#[derive(Clone, Copy, Debug, PartialEq, Eq, Structural)]
pub struct SynthState {
    pub phase: u32,
    pub noise: u32,
    pub env_level: u32,
    pub env_stage: EnvStage,
    pub gate_prev: bool,
    pub arp_phase: u32,
}

impl ControlParams {
    /// All fields zero: a silent pulse voice, gate off.
    pub fn silent() -> (r: ControlParams)
        ensures
            r == ControlParams::silent_spec(),
    {
        ControlParams {
            kind: 0,
            base_freq_mhz: 0,
            volume: 0,
            duty: 0,
            gate: false,
            attack_us: 0,
            decay_us: 0,
            sustain_level: 0,
            release_us: 0,
            arp_a: 0,
            arp_b: 0,
            arp_c: 0,
            arp_rate_mhz: 0,
        }
    }

    pub open spec fn wf(self) -> bool {
        self.sustain_level <= LEVEL_ONE
    }
}

impl SynthState {
    /// A voice at rest: every accumulator zero, envelope idle.
    pub fn new() -> (r: SynthState)
        ensures
            r == SynthState::rest_spec(),
    {
        SynthState {
            phase: 0,
            noise: 0,
            env_level: 0,
            env_stage: EnvStage::Idle,
            gate_prev: false,
            arp_phase: 0,
        }
    }

    pub open spec fn wf(self) -> bool {
        self.env_level <= LEVEL_ONE
    }
}

/// The control parameters as the engine keeps them: sustain clamped to 1.0.
/// (Durations and rates are unsigned, so they are never below zero.)
pub open spec fn sanitized(c: ControlParams) -> ControlParams {
    ControlParams {
        sustain_level: if c.sustain_level > LEVEL_ONE { LEVEL_ONE } else { c.sustain_level },
        ..c
    }
}

pub fn sanitize(c: &ControlParams) -> (r: ControlParams)
    ensures
        r == sanitized(*c),
        r.wf(),
{
    let mut r = *c;
    if r.sustain_level > LEVEL_ONE {
        r.sustain_level = LEVEL_ONE;
    }
    r
}

// ------------------------------------------------------------------
// Envelope

/// Per-sample rise of the level during Attack (at least one unit).
pub open spec fn attack_step(c: ControlParams, sr: u32) -> int {
    let q = LEVEL_ONE as int * 1_000_000 / (c.attack_us as int * sr as int);
    if q == 0 { 1 } else { q }
}

/// Per-sample fall of the level during Decay: (1 - sustain) / decay time.
pub open spec fn decay_step(c: ControlParams, sr: u32) -> int {
    let q = (LEVEL_ONE as int - c.sustain_level as int) * 1_000_000 / (c.decay_us as int * sr as int);
    if q == 0 { 1 } else { q }
}

/// Per-sample fall of the level during Release: proportional to the level.
pub open spec fn release_step(level: int, c: ControlParams, sr: u32) -> int {
    let q = level * 1_000_000 / (c.release_us as int * sr as int);
    if q == 0 { 1 } else { q }
}

/// Stage and level after this sample's gate edge, before the stage runs.
pub open spec fn env_after_edge(st: SynthState, c: ControlParams) -> (EnvStage, int) {
    if c.gate && !st.gate_prev {
        if c.attack_us == 0 { (EnvStage::Decay, LEVEL_ONE as int) }
        else { (EnvStage::Attack, st.env_level as int) }
    } else if !c.gate && st.gate_prev {
        if c.release_us == 0 { (EnvStage::Idle, 0) }
        else { (EnvStage::Release, st.env_level as int) }
    } else {
        (st.env_stage, st.env_level as int)
    }
}

/// One sample of the stage that is current after the edge.
pub open spec fn env_run_stage(stage: EnvStage, level: int, c: ControlParams, sr: u32) -> (EnvStage, int) {
    let s = c.sustain_level as int;
    match stage {
        EnvStage::Attack => {
            let l = if c.attack_us == 0 { LEVEL_ONE as int } else { level + attack_step(c, sr) };
            if l >= LEVEL_ONE { (EnvStage::Decay, LEVEL_ONE as int) } else { (EnvStage::Attack, l) }
        },
        EnvStage::Decay => {
            let l = if c.decay_us == 0 { s } else { level - decay_step(c, sr) };
            if l <= s { (EnvStage::Sustain, s) } else { (EnvStage::Decay, l) }
        },
        EnvStage::Sustain => {
            (if c.gate { EnvStage::Sustain } else { EnvStage::Release }, s)
        },
        EnvStage::Release => {
            let l = if c.release_us == 0 { 0 } else { level - release_step(level, c, sr) };
            if l <= 0 { (EnvStage::Idle, 0) } else { (EnvStage::Release, l) }
        },
        EnvStage::Idle => {
            (EnvStage::Idle, if c.gate { LEVEL_ONE as int } else { 0 })
        },
    }
}

/// A rising gate edge with zero attack time: the level snaps to 1.0 and
/// that sample reads it; Decay runs from the next sample on.
pub open spec fn attack_snaps(st: SynthState, c: ControlParams) -> bool {
    c.gate && !st.gate_prev && c.attack_us == 0
}

/// The envelope after one sample period at sample rate `sr`.
pub open spec fn env_step(st: SynthState, c: ControlParams, sr: u32) -> SynthState {
    let e = env_after_edge(st, c);
    let r = if attack_snaps(st, c) { e } else { env_run_stage(e.0, e.1, c, sr) };
    SynthState { env_stage: r.0, env_level: r.1 as u32, gate_prev: c.gate, ..st }
}

proof fn lemma_duration_product(d: u32, sr: u32)
    requires
        0 < sr <= MAX_SAMPLE_RATE,
    ensures
        d as int * sr as int <= 0xFFFF_FFFF * 1_000_000,
        d > 0 ==> d as int * sr as int > 0,
{
    assert(d > 0 ==> d as int * sr as int > 0) by (nonlinear_arith)
        requires
            sr > 0,
    ;
    assert(d as int * sr as int <= 0xFFFF_FFFF * 1_000_000) by (nonlinear_arith)
        requires
            d <= 0xFFFF_FFFF,
            sr <= 1_000_000,
    ;
}

/// Advances the envelope of one voice by one sample period.
pub fn step_env(st: &mut SynthState, c: &ControlParams, sr: u32)
    requires
        old(st).wf(),
        c.wf(),
        0 < sr <= MAX_SAMPLE_RATE,
    ensures
        *final(st) == env_step(*old(st), *c, sr),
        final(st).wf(),
        attack_snaps(*old(st), *c) ==> final(st).env_level == LEVEL_ONE
            && final(st).env_stage == EnvStage::Decay,
{
    let one: u64 = LEVEL_ONE as u64;
    let s: u64 = c.sustain_level as u64;
    proof {
        lemma_duration_product(c.attack_us, sr);
        lemma_duration_product(c.decay_us, sr);
        lemma_duration_product(c.release_us, sr);
    }
    let mut stage = st.env_stage;
    let mut level: u64 = st.env_level as u64;
    let snaps = c.gate && !st.gate_prev && c.attack_us == 0;

    if c.gate && !st.gate_prev {
        stage = EnvStage::Attack;
        if c.attack_us == 0 {
            level = one;
            stage = EnvStage::Decay;
        }
    } else if !c.gate && st.gate_prev {
        stage = EnvStage::Release;
        if c.release_us == 0 {
            level = 0;
            stage = EnvStage::Idle;
        }
    }
    assert((stage, level as int) == env_after_edge(*old(st), *c));
    st.gate_prev = c.gate;
    if snaps {
        st.env_stage = EnvStage::Decay;
        st.env_level = LEVEL_ONE;
        return;
    }

    match stage {
        EnvStage::Attack => {
            if c.attack_us > 0 {
                let q = one * 1_000_000 / (c.attack_us as u64 * sr as u64);
                level = level + if q == 0 { 1 } else { q };
            } else {
                level = one;
            }
            if level >= one {
                level = one;
                stage = EnvStage::Decay;
            }
        },
        EnvStage::Decay => {
            if c.decay_us > 0 {
                let q = (one - s) * 1_000_000 / (c.decay_us as u64 * sr as u64);
                let dec = if q == 0 { 1 } else { q };
                level = if level > s + dec { level - dec } else { s };
            } else {
                level = s;
            }
            if level <= s {
                level = s;
                stage = EnvStage::Sustain;
            }
        },
        EnvStage::Sustain => {
            level = s;
            if !c.gate {
                stage = EnvStage::Release;
            }
        },
        EnvStage::Release => {
            if c.release_us > 0 {
                let q = level * 1_000_000 / (c.release_us as u64 * sr as u64);
                let dec = if q == 0 { 1 } else { q };
                level = if level > dec { level - dec } else { 0 };
            } else {
                level = 0;
            }
            if level == 0 {
                stage = EnvStage::Idle;
            }
        },
        EnvStage::Idle => {
            level = if c.gate { one } else { 0 };
        },
    }
    st.env_stage = stage;
    st.env_level = level as u32;
}

} // verus!

verus! {

/// `2^(k/12)` in Q32 for `k` in 0..12, rounded to nearest (see
/// `semitone_table_accurate`).
pub open spec fn semitone_ratio(k: int) -> int {
    if k == 0 { 4294967296 }
    else if k == 1 { 4550359342 }
    else if k == 2 { 4820937788 }
    else if k == 3 { 5107605667 }
    else if k == 4 { 5411319705 }
    else if k == 5 { 5733093519 }
    else if k == 6 { 6074001000 }
    else if k == 7 { 6435179895 }
    else if k == 8 { 6817835604 }
    else if k == 9 { 7223245206 }
    else if k == 10 { 7652761717 }
    else { 8107818609 }
}

/// `v * 2^s` rounded down, saturating at `u32::MAX`.
pub open spec fn scaled_by_pow2(v: int, s: int) -> int {
    let x = if s >= 0 { v * pow2(s as nat) } else { v / pow2((-s) as nat) as int };
    if x > u32::MAX { u32::MAX as int } else { x }
}

/// `base * 2^(semi/12)`: the octave part is exact, the remainder goes
/// through the Q32 ratio table.
pub open spec fn semitone_hz(base: u32, semi: i32) -> int {
    let k = semi as int % 12;
    let o = semi as int / 12;
    if semi == 0 { base as int }
    else { scaled_by_pow2(base as int * semitone_ratio(k) / 0x1_0000_0000, o) }
}

fn semitone_ratio_exec(k: u64) -> (r: u64)
    requires
        k < 12,
    ensures
        r == semitone_ratio(k as int),
{
    if k == 0 { 4294967296 }
    else if k == 1 { 4550359342 }
    else if k == 2 { 4820937788 }
    else if k == 3 { 5107605667 }
    else if k == 4 { 5411319705 }
    else if k == 5 { 5733093519 }
    else if k == 6 { 6074001000 }
    else if k == 7 { 6435179895 }
    else if k == 8 { 6817835604 }
    else if k == 9 { 7223245206 }
    else if k == 10 { 7652761717 }
    else { 8107818609 }
}

/// Frequency `semi` semitones away from `base` (both in millihertz).
pub fn hz_for_semitone(base: u32, semi: i32) -> (r: u32)
    ensures
        r as int == semitone_hz(base, semi),
        semi == 0 ==> r == base,
        semi == 12 && 2 * base as int <= u32::MAX ==> r == 2 * base as int,
{
    if semi == 0 {
        return base;
    }
    // Shift to a non-negative value with the same residue, so that floor
    // division and remainder come out of unsigned arithmetic.
    let shifted: u64 = (semi as i64 + 12 * 0x1_0000_0000i64) as u64;
    let k: u64 = shifted % 12;
    let q: u64 = shifted / 12;
    assert(k as int == semi as int % 12 && q as int - 0x1_0000_0000 == semi as int / 12) by {
        assert(shifted as int == semi as int + 12 * 0x1_0000_0000);
        vstd::arithmetic::div_mod::lemma_fundamental_div_mod(semi as int, 12);
        let q0 = semi as int / 12;
        let k0 = semi as int % 12;
        vstd::arithmetic::div_mod::lemma_fundamental_div_mod_converse(
            shifted as int, 12, q0 + 0x1_0000_0000, k0);
    }
    let ratio = semitone_ratio_exec(k);
    assert(base as int * ratio as int <= 0xFFFF_FFFF * 8107818609) by (nonlinear_arith)
        requires
            base <= 0xFFFF_FFFFu32,
            ratio <= 8107818609,
    ;
    let v128: u128 = base as u128 * ratio as u128 / 0x1_0000_0000;
    assert(v128 < 0x2_0000_0000) by (nonlinear_arith)
        requires
            v128 == base as int * ratio as int / 0x1_0000_0000,
            base as int * ratio as int <= 0xFFFF_FFFF * 8107818609,
    ;
    let v: u64 = v128 as u64;
    let r = scale_pow2(v, q as i64 - 0x1_0000_0000);
    proof {
        semitone_identities(base);
    }
    r
}

/// `v * 2^s` rounded down and saturated; `v` has at most 49 bits.
pub fn scale_pow2(v: u64, s: i64) -> (r: u32)
    requires
        v < 0x2_0000_0000_0000,
    ensures
        r as int == scaled_by_pow2(v as int, s as int),
{
    proof {
        vstd::arithmetic::power2::lemma2_to64();
    }
    if s >= 0 {
        let n: u64 = s as u64;
        let mut cur: u64 = v;
        let mut i: u64 = 0;
        while i < n && cur != 0 && cur <= 0xFFFF_FFFF
            invariant
                i <= n,
                cur == v * pow2(i as nat),
                cur < 0x2_0000_0000_0000,
            decreases n - i,
        {
            proof {
                vstd::arithmetic::power2::lemma_pow2_unfold((i + 1) as nat);
                assert(v * pow2((i + 1) as nat) == (v * pow2(i as nat)) * 2) by (nonlinear_arith)
                    requires
                        pow2((i + 1) as nat) == 2 * pow2(i as nat),
                ;
            }
            cur = cur * 2;
            i = i + 1;
        }
        proof {
            if i < n {
                vstd::arithmetic::power2::lemma_pow2_pos(i as nat);
                if cur == 0 {
                    assert(v == 0) by (nonlinear_arith)
                        requires cur == v * pow2(i as nat), pow2(i as nat) > 0, cur == 0;
                } else {
                    vstd::arithmetic::power2::lemma_pow2_adds(i as nat, (n - i) as nat);
                    vstd::arithmetic::power2::lemma_pow2_pos((n - i) as nat);
                    assert(v * pow2(n as nat) >= cur) by (nonlinear_arith)
                        requires
                            cur == v * pow2(i as nat),
                            pow2(n as nat) == pow2(i as nat) * pow2((n - i) as nat),
                            pow2((n - i) as nat) >= 1,
                            cur >= 0,
                    ;
                }
            }
        }
        if cur > 0xFFFF_FFFF { 0xFFFF_FFFF } else { cur as u32 }
    } else {
        let n: u64 = (-(s as i128)) as u64;
        let mut cur: u64 = v;
        let mut i: u64 = 0;
        while i < n && cur != 0
            invariant
                i <= n,
                cur == v as int / pow2(i as nat) as int,
                cur <= v,
            decreases n - i,
        {
            proof {
                vstd::arithmetic::power2::lemma_pow2_unfold((i + 1) as nat);
                vstd::arithmetic::power2::lemma_pow2_pos(i as nat);
                vstd::arithmetic::div_mod::lemma_div_denominator(v as int, pow2(i as nat) as int, 2);
                vstd::arithmetic::mul::lemma_mul_is_commutative(2, pow2(i as nat) as int);
            }
            cur = cur / 2;
            i = i + 1;
        }
        proof {
            if i < n {
                vstd::arithmetic::power2::lemma_pow2_pos(i as nat);
                vstd::arithmetic::power2::lemma_pow2_pos((n - i) as nat);
                vstd::arithmetic::power2::lemma_pow2_adds(i as nat, (n - i) as nat);
                vstd::arithmetic::div_mod::lemma_div_denominator(
                    v as int, pow2(i as nat) as int, pow2((n - i) as nat) as int);
                vstd::arithmetic::div_mod::lemma_div_basics_2(pow2((n - i) as nat) as int);
            }
        }
        if cur > 0xFFFF_FFFF { 0xFFFF_FFFF } else { cur as u32 }
    }
}

} // verus!

verus! {

// ------------------------------------------------------------------
// Oscillators and voices

/// Phase advance per sample, in 2^-32 cycles, for a frequency in millihertz.
pub open spec fn phase_step(freq_mhz: int, sr: u32) -> int {
    freq_mhz * 0x1_0000_0000 / (sr as int * 1000)
}

/// A phase accumulator moved by `d`, wrapping at one cycle.
pub open spec fn wrap_phase(p: u32, d: int) -> u32 {
    ((p as int + d) % 0x1_0000_0000) as u32
}

fn advance_phase(p: u32, freq_mhz: u32, sr: u32) -> (r: u32)
    requires
        0 < sr <= MAX_SAMPLE_RATE,
    ensures
        r == wrap_phase(p, phase_step(freq_mhz as int, sr)),
{
    let inc: u64 = freq_mhz as u64 * 0x1_0000_0000 / (sr as u64 * 1000);
    let r: u64 = (p as u64 + inc % 0x1_0000_0000) % 0x1_0000_0000;
    proof {
        vstd::arithmetic::div_mod::lemma_small_mod(p as nat, 0x1_0000_0000);
        vstd::arithmetic::div_mod::lemma_add_mod_noop(p as int, inc as int, 0x1_0000_0000);
        vstd::arithmetic::div_mod::lemma_mod_twice(inc as int, 0x1_0000_0000);
    }
    r as u32
}

/// Which third of the arpeggio cycle a phase lies in (0, 1 or 2).
pub open spec fn arp_segment(arp_phase: u32) -> int {
    arp_phase as int * 3 / 0x1_0000_0000
}

/// Semitone offset that the arpeggio selects at `arp_phase`.
pub open spec fn arp_offset(c: ControlParams, arp_phase: u32) -> i32 {
    let seg = arp_segment(arp_phase);
    if seg == 0 { c.arp_a } else if seg == 1 { c.arp_b } else { c.arp_c }
}

/// Arpeggio phase after one sample; it stands still while the rate is zero.
pub open spec fn arp_phase_next(arp_phase: u32, c: ControlParams, sr: u32) -> u32 {
    if c.arp_rate_mhz > 0 { wrap_phase(arp_phase, phase_step(c.arp_rate_mhz as int, sr)) }
    else { arp_phase }
}

/// Instantaneous frequency of a voice whose arpeggio phase is `arp_phase`.
pub open spec fn voice_freq(c: ControlParams, arp_phase: u32) -> int {
    if c.arp_rate_mhz > 0 { semitone_hz(c.base_freq_mhz, arp_offset(c, arp_phase)) }
    else { c.base_freq_mhz as int }
}

/// Gain of a voice: volume times envelope level, at most 1.0.
pub open spec fn amplitude(c: ControlParams, level: u32) -> int {
    let a = c.volume as int * level as int / LEVEL_ONE as int;
    if a > LEVEL_ONE { LEVEL_ONE as int } else { a }
}

/// Samples between two clocks of the noise register: sample rate over
/// frequency, rounded, at least 1 (frequencies under 1 Hz count as 1 Hz).
pub open spec fn noise_period(freq_mhz: int, sr: u32) -> int {
    let f = if freq_mhz < 1000 { 1000 } else { freq_mhz };
    let n = (sr as int * 1000 + f / 2) / f;
    if n < 1 { 1 } else { n }
}

/// One clock of the 15-bit shift register; zero is replaced by the reseed value.
pub open spec fn lfsr_next(n: u32) -> u32 {
    let bit = (n ^ (n >> 1u32)) & 1u32;
    let m = ((n >> 1u32) | (bit << 14u32)) & 0x7FFFu32;
    if m == 0 { NOISE_RESEED } else { m }
}

/// What one voice adds to the mix for a raw sample of +1, -1 or 0.
pub open spec fn contribution(sign: int, amp: int) -> int {
    if amp <= AMP_EPSILON { 0 } else { sign * amp }
}

/// One sample of a voice at frame counter `t`: its new synthesis state and
/// its contribution to the mix (in Q24).
pub open spec fn voice_step(st: SynthState, c: ControlParams, sr: u32, t: u32) -> (SynthState, int) {
    let e = env_step(st, c, sr);
    let ap = arp_phase_next(e.arp_phase, c, sr);
    let f = voice_freq(c, ap);
    let amp = amplitude(c, e.env_level);
    if c.kind == KIND_PULSE || c.kind == KIND_PULSE_ALT {
        let p = wrap_phase(e.phase, phase_step(f, sr));
        let sign = if (p as int) < c.duty as int * 256 { 1int } else { -1int };
        (SynthState { phase: p, arp_phase: ap, ..e }, contribution(sign, amp))
    } else if c.kind == KIND_NOISE {
        let n = if t as int % noise_period(f, sr) == 0 { lfsr_next(e.noise) } else { e.noise };
        let sign = if n & 1u32 != 0 { 1int } else { -1int };
        (SynthState { noise: n, arp_phase: ap, ..e }, contribution(sign, amp))
    } else {
        (SynthState { arp_phase: ap, ..e }, 0)
    }
}

fn noise_period_exec(freq_mhz: u32, sr: u32) -> (r: u32)
    requires
        0 < sr <= MAX_SAMPLE_RATE,
    ensures
        r as int == noise_period(freq_mhz as int, sr),
        r >= 1,
{
    let f: u64 = if freq_mhz < 1000 { 1000 } else { freq_mhz as u64 };
    let n: u64 = (sr as u64 * 1000 + f / 2) / f;
    assert(n <= 0xFFFF_FFFF) by {
        vstd::arithmetic::div_mod::lemma_div_is_ordered_by_denominator(
            sr as int * 1000 + f as int / 2, 1000, f as int);
    }
    if n < 1 { 1 } else { n as u32 }
}

fn lfsr_step(n: u32) -> (r: u32)
    ensures
        r == lfsr_next(n),
{
    let bit = (n ^ (n >> 1u32)) & 1u32;
    let m = ((n >> 1u32) | (bit << 14u32)) & 0x7FFFu32;
    if m == 0 { NOISE_RESEED } else { m }
}

/// Advances one voice by one sample and returns its contribution to the mix.
pub fn step_voice(st: &mut SynthState, c: &ControlParams, sr: u32, t: u32) -> (r: i64)
    requires
        old(st).wf(),
        c.wf(),
        0 < sr <= MAX_SAMPLE_RATE,
    ensures
        (*final(st), r as int) == voice_step(*old(st), *c, sr, t),
        final(st).wf(),
        -(LEVEL_ONE as int) <= r <= LEVEL_ONE,
{
    step_env(st, c, sr);
    let ap = if c.arp_rate_mhz > 0 {
        advance_phase(st.arp_phase, c.arp_rate_mhz, sr)
    } else {
        st.arp_phase
    };
    let f: u32 = if c.arp_rate_mhz > 0 {
        let seg: u64 = ap as u64 * 3 / 0x1_0000_0000;
        let semi = if seg == 0 { c.arp_a } else if seg == 1 { c.arp_b } else { c.arp_c };
        hz_for_semitone(c.base_freq_mhz, semi)
    } else {
        c.base_freq_mhz
    };
    assert(c.volume as int * st.env_level as int <= 0xFFFF_FFFF * 0x100_0000) by (nonlinear_arith)
        requires
            c.volume <= 0xFFFF_FFFFu32,
            st.env_level <= LEVEL_ONE,
    ;
    let prod: u64 = c.volume as u64 * st.env_level as u64;
    let a: u64 = prod / LEVEL_ONE as u64;
    let amp: u64 = if a > LEVEL_ONE as u64 { LEVEL_ONE as u64 } else { a };
    st.arp_phase = ap;
    if c.kind == KIND_PULSE || c.kind == KIND_PULSE_ALT {
        let p = advance_phase(st.phase, f, sr);
        st.phase = p;
        if amp <= AMP_EPSILON { 0 }
        else if (p as u64) < c.duty as u64 * 256 { amp as i64 }
        else { -(amp as i64) }
    } else if c.kind == KIND_NOISE {
        let period = noise_period_exec(f, sr);
        if t % period == 0 {
            st.noise = lfsr_step(st.noise);
        }
        if amp <= AMP_EPSILON { 0 }
        else if st.noise & 1u32 != 0 { amp as i64 }
        else { -(amp as i64) }
    } else {
        0
    }
}

} // verus!

verus! {

// ------------------------------------------------------------------
// The engine

/// The mixed output sample of four summed contributions: headroom of one
/// quarter, then a hard clip to [-1, 1].
pub open spec fn mix_out(mix: int) -> int {
    let h = mix / 4;
    if h > LEVEL_ONE { LEVEL_ONE as int } else if h < -(LEVEL_ONE as int) { -(LEVEL_ONE as int) } else { h }
}

/// The four-voice synthesizer: control half, synthesis half, sample rate and
/// the frame counter that clocks the noise voices.
pub struct AudioEngine {
    pub sample_rate: u32,
    pub controls: [ControlParams; 4],
    pub synth: [SynthState; 4],
    pub frame_counter: u32,
}

impl AudioEngine {
    pub open spec fn wf(&self) -> bool {
        &&& 0 < self.sample_rate <= MAX_SAMPLE_RATE
        &&& forall|i: int| 0 <= i < 4 ==> (#[trigger] self.controls[i]).wf()
        &&& forall|i: int| 0 <= i < 4 ==> (#[trigger] self.synth[i]).wf()
    }

    /// An engine with every voice silent and at rest.
    pub fn new(sample_rate: u32) -> (r: AudioEngine)
        requires
            0 < sample_rate <= MAX_SAMPLE_RATE,
        ensures
            r.wf(),
            r.sample_rate == sample_rate,
            r.frame_counter == 0,
            forall|i: int| 0 <= i < 4 ==> r.controls[i] == ControlParams::silent_spec(),
            forall|i: int| 0 <= i < 4 ==> r.synth[i] == SynthState::rest_spec(),
    {
        let c = ControlParams::silent();
        let s = SynthState::new();
        AudioEngine { sample_rate, controls: [c, c, c, c], synth: [s, s, s, s], frame_counter: 0 }
    }

    /// Replaces the control half of every voice with `params` (sustain
    /// clamped to 1.0); the synthesis half is left exactly as it was.
    pub fn set_parameters(&mut self, params: &[ControlParams; 4])
        requires
            old(self).wf(),
        ensures
            final(self).wf(),
            final(self).synth == old(self).synth,
            final(self).sample_rate == old(self).sample_rate,
            final(self).frame_counter == old(self).frame_counter,
            forall|i: int| 0 <= i < 4 ==> final(self).controls[i] == sanitized(#[trigger] params[i]),
    {
        let c0 = sanitize(&params[0]);
        let c1 = sanitize(&params[1]);
        let c2 = sanitize(&params[2]);
        let c3 = sanitize(&params[3]);
        self.controls = [c0, c1, c2, c3];
        assert(self.controls@ == seq![c0, c1, c2, c3]);
    }

    /// Renders one frame and returns its (mono) sample in Q24.
    pub fn render_frame(&mut self) -> (r: i32)
        requires
            old(self).wf(),
        ensures
            final(self).wf(),
            (*final(self), r as int) == frame_step(*old(self)),
            -(LEVEL_ONE as int) <= r <= LEVEL_ONE,
    {
        let sr = self.sample_rate;
        let t = self.frame_counter;
        let mut s0 = self.synth[0];
        let mut s1 = self.synth[1];
        let mut s2 = self.synth[2];
        let mut s3 = self.synth[3];
        let m0 = step_voice(&mut s0, &self.controls[0], sr, t);
        let m1 = step_voice(&mut s1, &self.controls[1], sr, t);
        let m2 = step_voice(&mut s2, &self.controls[2], sr, t);
        let m3 = step_voice(&mut s3, &self.controls[3], sr, t);
        self.synth = [s0, s1, s2, s3];
        assert(self.synth@ == seq![s0, s1, s2, s3]);
        self.frame_counter = t.wrapping_add(1);
        let mix: i64 = m0 + m1 + m2 + m3;
        let shifted: i64 = mix + 4 * LEVEL_ONE as i64;
        let h: i64 = shifted / 4 - LEVEL_ONE as i64;
        proof {
            vstd::arithmetic::div_mod::lemma_fundamental_div_mod_converse(
                mix as int, 4, shifted as int / 4 - LEVEL_ONE as int, shifted as int % 4);
        }
        let out: i64 = if h > LEVEL_ONE as i64 {
            LEVEL_ONE as i64
        } else if h < -(LEVEL_ONE as i64) {
            -(LEVEL_ONE as i64)
        } else {
            h
        };
        out as i32
    }

    /// Renders `frames` stereo frames; both samples of a frame carry the mono mix.
    pub fn render(&mut self, frames: usize) -> (out: Vec<i32>)
        requires
            old(self).wf(),
            frames <= usize::MAX / 2,
        ensures
            final(self).wf(),
            (*final(self), out@) == render_run(*old(self), frames as nat),
    {
        let mut out: Vec<i32> = Vec::new();
        let mut i: usize = 0;
        while i < frames
            invariant
                i <= frames,
                self.wf(),
                (*self, out@) == render_run(*old(self), i as nat),
            decreases frames - i,
        {
            let s = self.render_frame();
            out.push(s);
            out.push(s);
            i = i + 1;
        }
        out
    }
}

impl ControlParams {
    pub open spec fn silent_spec() -> ControlParams {
        ControlParams {
            kind: 0,
            base_freq_mhz: 0,
            volume: 0,
            duty: 0,
            gate: false,
            attack_us: 0,
            decay_us: 0,
            sustain_level: 0,
            release_us: 0,
            arp_a: 0,
            arp_b: 0,
            arp_c: 0,
            arp_rate_mhz: 0,
        }
    }
}

impl SynthState {
    pub open spec fn rest_spec() -> SynthState {
        SynthState {
            phase: 0,
            noise: 0,
            env_level: 0,
            env_stage: EnvStage::Idle,
            gate_prev: false,
            arp_phase: 0,
        }
    }
}

/// One output frame: every voice steps once, the contributions are mixed.
pub open spec fn frame_step(e: AudioEngine) -> (AudioEngine, int) {
    let sr = e.sample_rate;
    let t = e.frame_counter;
    let v0 = voice_step(e.synth[0], e.controls[0], sr, t);
    let v1 = voice_step(e.synth[1], e.controls[1], sr, t);
    let v2 = voice_step(e.synth[2], e.controls[2], sr, t);
    let v3 = voice_step(e.synth[3], e.controls[3], sr, t);
    (
        AudioEngine {
            synth: [v0.0, v1.0, v2.0, v3.0],
            frame_counter: ((t as int + 1) % 0x1_0000_0000) as u32,
            ..e
        },
        mix_out(v0.1 + v1.1 + v2.1 + v3.1),
    )
}

/// The engine and the interleaved stereo samples after `n` frames.
pub open spec fn render_run(e: AudioEngine, n: nat) -> (AudioEngine, Seq<i32>)
    decreases n,
{
    if n == 0 {
        (e, Seq::empty())
    } else {
        let prev = render_run(e, (n - 1) as nat);
        let f = frame_step(prev.0);
        (f.0, prev.1.push(f.1 as i32).push(f.1 as i32))
    }
}

} // verus!

verus! {

// ------------------------------------------------------------------
// Laws of the synthesizer

/// The envelope after `n` sample periods with fixed control parameters.
pub open spec fn env_run(st: SynthState, c: ControlParams, sr: u32, n: nat) -> SynthState
    decreases n,
{
    if n == 0 { st } else { env_step(env_run(st, c, sr, (n - 1) as nat), c, sr) }
}

/// The envelope level stays within [0, 1]; a stage of zero duration holds
/// no fractional level. No Attack is left standing when the attack time is
/// zero, and no Release is left standing after a falling gate edge when the
/// release time is zero. A Decay with zero decay time is only seen at full
/// level, on the step that ended the attack or snapped it to 1.0; a rising
/// edge with zero attack time reads exactly 1.0. A Release with zero
/// release time is only seen at the sustain level, on the step that left
/// Sustain with its gate already low.
pub proof fn envelope_in_range(st: SynthState, c: ControlParams, sr: u32)
    requires
        st.wf(),
        c.wf(),
        0 < sr <= MAX_SAMPLE_RATE,
    ensures
        env_step(st, c, sr).wf(),
        c.attack_us == 0 ==> env_step(st, c, sr).env_stage != EnvStage::Attack,
        c.release_us == 0 && !c.gate && st.gate_prev ==> env_step(st, c, sr).env_stage
            == EnvStage::Idle && env_step(st, c, sr).env_level == 0,
        c.decay_us == 0 && env_step(st, c, sr).env_stage == EnvStage::Decay
            ==> env_step(st, c, sr).env_level == LEVEL_ONE,
        attack_snaps(st, c) ==> env_step(st, c, sr).env_level == LEVEL_ONE,
        c.release_us == 0 && env_step(st, c, sr).env_stage == EnvStage::Release
            ==> env_step(st, c, sr).env_level == c.sustain_level,
{
    lemma_steps_positive(st, c, sr);
}

proof fn lemma_steps_positive(st: SynthState, c: ControlParams, sr: u32)
    requires
        st.wf(),
        c.wf(),
        0 < sr <= MAX_SAMPLE_RATE,
    ensures
        c.attack_us > 0 ==> attack_step(c, sr) >= 1,
        c.decay_us > 0 ==> decay_step(c, sr) >= 1,
        c.release_us > 0 ==> release_step(st.env_level as int, c, sr) >= 1,
{
    lemma_duration_product(c.attack_us, sr);
    lemma_duration_product(c.decay_us, sr);
    lemma_duration_product(c.release_us, sr);
    if c.attack_us > 0 {
        vstd::arithmetic::div_mod::lemma_div_pos_is_pos(
            LEVEL_ONE as int * 1_000_000, c.attack_us as int * sr as int);
    }
    if c.decay_us > 0 {
        vstd::arithmetic::div_mod::lemma_div_pos_is_pos(
            (LEVEL_ONE as int - c.sustain_level as int) * 1_000_000, c.decay_us as int * sr as int);
    }
    if c.release_us > 0 {
        vstd::arithmetic::div_mod::lemma_div_pos_is_pos(
            st.env_level as int * 1_000_000, c.release_us as int * sr as int);
    }
}

/// With its gate held on, an envelope in Sustain stays there, at exactly the
/// sustain level, for any number of samples.
pub proof fn sustain_holds(st: SynthState, c: ControlParams, sr: u32, n: nat)
    requires
        st.env_stage == EnvStage::Sustain,
        st.gate_prev,
        c.gate,
        c.wf(),
    ensures
        env_run(st, c, sr, n).env_stage == EnvStage::Sustain,
        env_run(st, c, sr, n).gate_prev,
        n >= 1 ==> env_run(st, c, sr, n).env_level == c.sustain_level,
    decreases n,
{
    if n > 0 {
        sustain_holds(st, c, sr, (n - 1) as nat);
    }
}

/// Raising a gate again during Release restarts the attack from the
/// current level: the level goes up by one attack step (at most to 1.0) and
/// never snaps back to zero.
pub proof fn retrigger_from_release(st: SynthState, c: ControlParams, sr: u32)
    requires
        st.wf(),
        c.wf(),
        0 < sr <= MAX_SAMPLE_RATE,
        st.env_stage == EnvStage::Release,
        !st.gate_prev,
        c.gate,
        c.attack_us > 0,
    ensures
        env_step(st, c, sr).env_level as int == if st.env_level + attack_step(c, sr) >= LEVEL_ONE {
            LEVEL_ONE as int
        } else {
            st.env_level + attack_step(c, sr)
        },
        env_step(st, c, sr).env_level >= st.env_level,
        env_step(st, c, sr).env_stage == EnvStage::Attack
            || env_step(st, c, sr).env_stage == EnvStage::Decay,
{
    lemma_steps_positive(st, c, sr);
}

/// With an arpeggio rate of zero the voice sounds at its base frequency,
/// whatever its semitone offsets, and the arpeggio phase stands still.
pub proof fn arpeggio_off_keeps_base(c: ControlParams, arp_phase: u32, sr: u32)
    requires
        c.arp_rate_mhz == 0,
    ensures
        voice_freq(c, arp_phase) == c.base_freq_mhz,
        arp_phase_next(arp_phase, c, sr) == arp_phase,
{
}

/// Zero semitones is the base frequency itself; twelve is exactly one
/// octave up (saturating at the largest frequency).
pub proof fn semitone_identities(base: u32)
    ensures
        semitone_hz(base, 0) == base,
        semitone_hz(base, 12) == if 2 * base as int > u32::MAX { u32::MAX as int } else { 2 * base as int },
        2 * base as int <= u32::MAX ==> semitone_hz(base, 12) == 2 * base as int,
{
    vstd::arithmetic::power2::lemma2_to64();
    vstd::arithmetic::div_mod::lemma_div_by_multiple(base as int, 0x1_0000_0000);
    assert(12i32 as int % 12 == 0 && 12i32 as int / 12 == 1);
    assert(semitone_ratio(0) == 0x1_0000_0000);
    assert(pow2(1nat) == 2);
    assert((1int) as nat == 1nat);
    assert(base as int * pow2(1nat) == 2 * base as int);
    assert(scaled_by_pow2(base as int, 1) == if 2 * base as int > u32::MAX { u32::MAX as int } else { 2 * base as int });
}

/// Every mixed sample lies in [-1, 1]; when all four voices contribute full
/// scale in the same direction the mix is pinned to the boundary.
pub proof fn mix_is_clipped(e: AudioEngine)
    ensures
        -(LEVEL_ONE as int) <= frame_step(e).1 <= LEVEL_ONE,
        ({
            let sr = e.sample_rate;
            let t = e.frame_counter;
            (forall|i: int| 0 <= i < 4 ==> #[trigger] voice_step(e.synth[i], e.controls[i], sr, t).1 == LEVEL_ONE)
                ==> frame_step(e).1 == LEVEL_ONE
        }),
        ({
            let sr = e.sample_rate;
            let t = e.frame_counter;
            (forall|i: int| 0 <= i < 4 ==> #[trigger] voice_step(e.synth[i], e.controls[i], sr, t).1 == -(LEVEL_ONE as int))
                ==> frame_step(e).1 == -(LEVEL_ONE as int)
        }),
{
    let sr = e.sample_rate;
    let t = e.frame_counter;
    if forall|i: int| 0 <= i < 4 ==> #[trigger] voice_step(e.synth[i], e.controls[i], sr, t).1 == LEVEL_ONE {
        assert(voice_step(e.synth[0], e.controls[0], sr, t).1 == LEVEL_ONE);
        assert(voice_step(e.synth[1], e.controls[1], sr, t).1 == LEVEL_ONE);
        assert(voice_step(e.synth[2], e.controls[2], sr, t).1 == LEVEL_ONE);
        assert(voice_step(e.synth[3], e.controls[3], sr, t).1 == LEVEL_ONE);
    }
    if forall|i: int| 0 <= i < 4 ==> #[trigger] voice_step(e.synth[i], e.controls[i], sr, t).1 == -(LEVEL_ONE as int) {
        assert(voice_step(e.synth[0], e.controls[0], sr, t).1 == -(LEVEL_ONE as int));
        assert(voice_step(e.synth[1], e.controls[1], sr, t).1 == -(LEVEL_ONE as int));
        assert(voice_step(e.synth[2], e.controls[2], sr, t).1 == -(LEVEL_ONE as int));
        assert(voice_step(e.synth[3], e.controls[3], sr, t).1 == -(LEVEL_ONE as int));
    }
}

/// `x` to the twelfth power.
pub open spec fn pow12(x: int) -> int {
    let x2 = x * x;
    let x4 = x2 * x2;
    x4 * x4 * x4
}

/// Every entry `r` of the semitone table is `2^(32 + k/12)` rounded to the
/// nearest integer: `(r - 1/2)^12 <= 2^(384 + k) <= (r + 1/2)^12`, written
/// with both sides scaled by `2^12` (so `2^396 = (2^33)^12`).
pub proof fn semitone_table_accurate(k: int)
    requires
        0 <= k < 12,
    ensures
        pow12(2 * semitone_ratio(k) - 1) <= pow12(0x2_0000_0000int) * pow2(k as nat),
        pow12(0x2_0000_0000int) * pow2(k as nat) <= pow12(2 * semitone_ratio(k) + 1),
{
    vstd::arithmetic::power2::lemma2_to64();
    assert(pow12(0x2_0000_0000int) == 161390617380431786853494948250188242145606612051826469551916209783790476376052574664352834580008614464743948248296718336int) by {
        assert(8589934592int * 8589934592int == 73786976294838206464int);
        assert(73786976294838206464int * 73786976294838206464int == 5444517870735015415413993718908291383296int);
        assert(5444517870735015415413993718908291383296int * 5444517870735015415413993718908291383296int * 5444517870735015415413993718908291383296int == 161390617380431786853494948250188242145606612051826469551916209783790476376052574664352834580008614464743948248296718336int);
    }
    if k == 0 {
        assert(semitone_ratio(k) == 4294967296);
        assert(pow12(2 * 4294967296int - 1) == 161390617154971699051565506152458402527890210586561315269885839854590737905109165637690521483354304885015450729767239681int) by {
            assert(8589934591int * 8589934591int == 73786976277658337281int);
            assert(73786976277658337281int * 73786976277658337281int == 5444517868199714215400256773649554472961int);
            assert(5444517868199714215400256773649554472961int * 5444517868199714215400256773649554472961int * 5444517868199714215400256773649554472961int == 161390617154971699051565506152458402527890210586561315269885839854590737905109165637690521483354304885015450729767239681int);
        }
        assert(pow12(2 * 4294967296int + 1) == 161390617605891874944141486019275655809839654592923060629457180407943773328836225210142532908767203377731929126836633601int) by {
            assert(8589934593int * 8589934593int == 73786976312018075649int);
            assert(73786976312018075649int * 73786976312018075649int == 5444517873270316616313174379705086771201int);
            assert(5444517873270316616313174379705086771201int * 5444517873270316616313174379705086771201int * 5444517873270316616313174379705086771201int == 161390617605891874944141486019275655809839654592923060629457180407943773328836225210142532908767203377731929126836633601int);
        }
        assert(161390617154971699051565506152458402527890210586561315269885839854590737905109165637690521483354304885015450729767239681int <= 161390617380431786853494948250188242145606612051826469551916209783790476376052574664352834580008614464743948248296718336int * 1 <= 161390617605891874944141486019275655809839654592923060629457180407943773328836225210142532908767203377731929126836633601int);
    }
    if k == 1 {
        assert(semitone_ratio(k) == 4550359342);
        assert(pow12(2 * 4550359342int - 1) == 322781234682435855848957983919523990643083293106042112562645566163468662756658649814838661892548310256966451043400644561int) by {
            assert(9100718683int * 9100718683int == 82823080547105254489int);
            assert(82823080547105254489int * 82823080547105254489int == 6859662671312284821249771729473454651121int);
            assert(6859662671312284821249771729473454651121int * 6859662671312284821249771729473454651121int * 6859662671312284821249771729473454651121int == 322781234682435855848957983919523990643083293106042112562645566163468662756658649814838661892548310256966451043400644561int);
        }
        assert(pow12(2 * 4550359342int + 1) == 322781235533659798878065228024492807820712717927213911579238363710239004376732980533171274193536423407110759883056640625int) by {
            assert(9100718685int * 9100718685int == 82823080583508129225int);
            assert(82823080583508129225int * 82823080583508129225int == 6859662677342281275386762871659299100625int);
            assert(6859662677342281275386762871659299100625int * 6859662677342281275386762871659299100625int * 6859662677342281275386762871659299100625int == 322781235533659798878065228024492807820712717927213911579238363710239004376732980533171274193536423407110759883056640625int);
        }
        assert(322781234682435855848957983919523990643083293106042112562645566163468662756658649814838661892548310256966451043400644561int <= 161390617380431786853494948250188242145606612051826469551916209783790476376052574664352834580008614464743948248296718336int * 2 <= 322781235533659798878065228024492807820712717927213911579238363710239004376732980533171274193536423407110759883056640625int);
    }
    if k == 2 {
        assert(semitone_ratio(k) == 4820937788);
        assert(pow12(2 * 4820937788int - 1) == 645562467931013307256554445361323956796808102611520173692339073477893329234064633147407063398434562702238559722900390625int) by {
            assert(9641875575int * 9641875575int == 92965764603781580625int);
            assert(92965764603781580625int * 92965764603781580625int == 8642633388365728228413642102023375390625int);
            assert(8642633388365728228413642102023375390625int * 8642633388365728228413642102023375390625int * 8642633388365728228413642102023375390625int == 645562467931013307256554445361323956796808102611520173692339073477893329234064633147407063398434562702238559722900390625int);
        }
        assert(pow12(2 * 4820937788int + 1) == 645562469537910132205489180048724429107346660276420399318906628501133379144098126367775747469163895266441634035024485921int) by {
            assert(9641875577int * 9641875577int == 92965764642349082929int);
            assert(92965764642349082929int * 92965764642349082929int == 8642633395536642911000029851727319219041int);
            assert(8642633395536642911000029851727319219041int * 8642633395536642911000029851727319219041int * 8642633395536642911000029851727319219041int == 645562469537910132205489180048724429107346660276420399318906628501133379144098126367775747469163895266441634035024485921int);
        }
        assert(645562467931013307256554445361323956796808102611520173692339073477893329234064633147407063398434562702238559722900390625int <= 161390617380431786853494948250188242145606612051826469551916209783790476376052574664352834580008614464743948248296718336int * 4 <= 645562469537910132205489180048724429107346660276420399318906628501133379144098126367775747469163895266441634035024485921int);
    }
    if k == 3 {
        assert(semitone_ratio(k) == 5107605667);
        assert(pow12(2 * 5107605667int - 1) == 1291124937201569597575567568445653935281187495678488873181434205298663889294136204274189187517409246114789348429255630161int) by {
            assert(10215211333int * 10215211333int == 104350542577851636889int);
            assert(104350542577851636889int * 104350542577851636889int == 10889035736292027343821201931296705598321int);
            assert(10889035736292027343821201931296705598321int * 10889035736292027343821201931296705598321int * 10889035736292027343821201931296705598321int == 1291124937201569597575567568445653935281187495678488873181434205298663889294136204274189187517409246114789348429255630161int);
        }
        assert(pow12(2 * 5107605667int + 1) == 1291124940234986872664384407281379888580898015902576445344675214503310413460413702522871636374849799860329232363525390625int) by {
            assert(10215211335int * 10215211335int == 104350542618712482225int);
            assert(104350542618712482225int * 104350542618712482225int == 10889035744819730107493367561020940950625int);
            assert(10889035744819730107493367561020940950625int * 10889035744819730107493367561020940950625int * 10889035744819730107493367561020940950625int == 1291124940234986872664384407281379888580898015902576445344675214503310413460413702522871636374849799860329232363525390625int);
        }
        assert(1291124937201569597575567568445653935281187495678488873181434205298663889294136204274189187517409246114789348429255630161int <= 161390617380431786853494948250188242145606612051826469551916209783790476376052574664352834580008614464743948248296718336int * 8 <= 1291124940234986872664384407281379888580898015902576445344675214503310413460413702522871636374849799860329232363525390625int);
    }
    if k == 4 {
        assert(semitone_ratio(k) == 5411319705);
        assert(pow12(2 * 5411319705int - 1) == 2582249876137296861186708838183303831803413920596822449509041299164614792404365037942056709678724611381802427961173231681int) by {
            assert(10822639409int * 10822639409int == 117129523777239869281int);
            assert(117129523777239869281int * 117129523777239869281int == 13719325340282999895033580325945967456961int);
            assert(13719325340282999895033580325945967456961int * 13719325340282999895033580325945967456961int * 13719325340282999895033580325945967456961int == 2582249876137296861186708838183303831803413920596822449509041299164614792404365037942056709678724611381802427961173231681int);
        }
        assert(pow12(2 * 5411319705int + 1) == 2582249881863626155568242351350464705558366398750152163088076861629827781243429948670312988243163768576006643735508217521int) by {
            assert(10822639411int * 10822639411int == 117129523820530426921int);
            assert(117129523820530426921int * 117129523820530426921int == 13719325350424204697756358869158521540241int);
            assert(13719325350424204697756358869158521540241int * 13719325350424204697756358869158521540241int * 13719325350424204697756358869158521540241int == 2582249881863626155568242351350464705558366398750152163088076861629827781243429948670312988243163768576006643735508217521int);
        }
        assert(2582249876137296861186708838183303831803413920596822449509041299164614792404365037942056709678724611381802427961173231681int <= 161390617380431786853494948250188242145606612051826469551916209783790476376052574664352834580008614464743948248296718336int * 16 <= 2582249881863626155568242351350464705558366398750152163088076861629827781243429948670312988243163768576006643735508217521int);
    }
    if k == 5 {
        assert(semitone_ratio(k) == 5733093519);
        assert(pow12(2 * 5733093519int - 1) == 5164499750145078819044388196429007536544077042890509508262968828971029616352071918973823479117933095191179438007448807281int) by {
            assert(11466187037int * 11466187037int == 131473445167466839369int);
            assert(131473445167466839369int * 131473445167466839369int == 17285266784202909618253254698242448318161int);
            assert(17285266784202909618253254698242448318161int * 17285266784202909618253254698242448318161int * 17285266784202909618253254698242448318161int == 5164499750145078819044388196429007536544077042890509508262968828971029616352071918973823479117933095191179438007448807281int);
        }
        assert(pow12(2 * 5733093519int + 1) == 5164499760954949068188699651874044318013981185701140619806194006838601258218806452712560973852056692739029958488971541121int) by {
            assert(11466187039int * 11466187039int == 131473445213331587521int);
            assert(131473445213331587521int * 131473445213331587521int == 17285266796262902522920125924230082925441int);
            assert(17285266796262902522920125924230082925441int * 17285266796262902522920125924230082925441int * 17285266796262902522920125924230082925441int == 5164499760954949068188699651874044318013981185701140619806194006838601258218806452712560973852056692739029958488971541121int);
        }
        assert(5164499750145078819044388196429007536544077042890509508262968828971029616352071918973823479117933095191179438007448807281int <= 161390617380431786853494948250188242145606612051826469551916209783790476376052574664352834580008614464743948248296718336int * 32 <= 5164499760954949068188699651874044318013981185701140619806194006838601258218806452712560973852056692739029958488971541121int);
    }
    if k == 6 {
        assert(semitone_ratio(k) == 6074001000);
        assert(pow12(2 * 6074001000int - 1) == 10328999503121950679641203721140979886753005446339726792565243534479922864071910388405339967404682759689514069166487976001int) by {
            assert(12148001999int * 12148001999int == 147573952567707996001int);
            assert(147573952567707996001int * 147573952567707996001int == 21778071476456129426027900627471431992001int);
            assert(21778071476456129426027900627471431992001int * 21778071476456129426027900627471431992001int * 21778071476456129426027900627471431992001int == 10328999503121950679641203721140979886753005446339726792565243534479922864071910388405339967404682759689514069166487976001int);
        }
        assert(pow12(2 * 6074001000int + 1) == 10328999523528268386849568415007377924439306989106142971085481950014800212518820641507520508874811129950903512978040024001int) by {
            assert(12148002001int * 12148002001int == 147573952616300004001int);
            assert(147573952616300004001int * 147573952616300004001int == 21778071490797958795912458835632616008001int);
            assert(21778071490797958795912458835632616008001int * 21778071490797958795912458835632616008001int * 21778071490797958795912458835632616008001int == 10328999523528268386849568415007377924439306989106142971085481950014800212518820641507520508874811129950903512978040024001int);
        }
        assert(10328999503121950679641203721140979886753005446339726792565243534479922864071910388405339967404682759689514069166487976001int <= 161390617380431786853494948250188242145606612051826469551916209783790476376052574664352834580008614464743948248296718336int * 64 <= 10328999523528268386849568415007377924439306989106142971085481950014800212518820641507520508874811129950903512978040024001int);
    }
    if k == 7 {
        assert(semitone_ratio(k) == 6435179895);
        assert(pow12(2 * 6435179895int - 1) == 20657999022742016101252350589974557469565735503370205020660936810576162447856005024131586734555415131501130634109360963121int) by {
            assert(12870359789int * 12870359789int == 165646161098308124521int);
            assert(165646161098308124521int * 165646161098308124521int == 27438650686606647853691715108836441479441int);
            assert(27438650686606647853691715108836441479441int * 27438650686606647853691715108836441479441int * 27438650686606647853691715108836441479441int == 20657999022742016101252350589974557469565735503370205020660936810576162447856005024131586734555415131501130634109360963121int);
        }
        assert(pow12(2 * 6435179895int + 1) == 20657999061264014328006846394822627280562091357306697441969066805080928881529296939246446219950566295050324278791456358081int) by {
            assert(12870359791int * 12870359791int == 165646161149789563681int);
            assert(165646161149789563681int * 165646161149789563681int == 27438650703662053385682270669744354269761int);
            assert(27438650703662053385682270669744354269761int * 27438650703662053385682270669744354269761int * 27438650703662053385682270669744354269761int == 20657999061264014328006846394822627280562091357306697441969066805080928881529296939246446219950566295050324278791456358081int);
        }
        assert(20657999022742016101252350589974557469565735503370205020660936810576162447856005024131586734555415131501130634109360963121int <= 161390617380431786853494948250188242145606612051826469551916209783790476376052574664352834580008614464743948248296718336int * 128 <= 20657999061264014328006846394822627280562091357306697441969066805080928881529296939246446219950566295050324278791456358081int);
    }
    if k == 8 {
        assert(semitone_ratio(k) == 6817835604);
        assert(pow12(2 * 6817835604int - 1) == 41315998024708462480822800199499597417578776963828710138673320346587218737272277410712826881580509886175837040361277066401int) by {
            assert(13635671207int * 13635671207int == 185931529265408836849int);
            assert(185931529265408836849int * 185931529265408836849int == 34570533574973582761334074919539100248801int);
            assert(34570533574973582761334074919539100248801int * 34570533574973582761334074919539100248801int * 34570533574973582761334074919539100248801int == 41315998024708462480822800199499597417578776963828710138673320346587218737272277410712826881580509886175837040361277066401int);
        }
        assert(pow12(2 * 6817835604int + 1) == 41315998097428311642621487156158743879236669355507316529522060688818482806994111927052217884733384684857791334465963306081int) by {
            assert(13635671209int * 13635671209int == 185931529319951521681int);
            assert(185931529319951521681int * 185931529319951521681int == 34570533595255992366418936723987413065761int);
            assert(34570533595255992366418936723987413065761int * 34570533595255992366418936723987413065761int * 34570533595255992366418936723987413065761int == 41315998097428311642621487156158743879236669355507316529522060688818482806994111927052217884733384684857791334465963306081int);
        }
        assert(41315998024708462480822800199499597417578776963828710138673320346587218737272277410712826881580509886175837040361277066401int <= 161390617380431786853494948250188242145606612051826469551916209783790476376052574664352834580008614464743948248296718336int * 256 <= 41315998097428311642621487156158743879236669355507316529522060688818482806994111927052217884733384684857791334465963306081int);
    }
    if k == 9 {
        assert(semitone_ratio(k) == 7223245206);
        assert(pow12(2 * 7223245206int - 1) == 82631996074527146634809100299357202015689483380045708391431301676980553289025058416081295598186301592268348049317250549521int) by {
            assert(14446490411int * 14446490411int == 208701085195114948921int);
            assert(208701085195114948921int * 208701085195114948921int == 43556142961618628117134401862444439064241int);
            assert(43556142961618628117134401862444439064241int * 43556142961618628117134401862444439064241int * 43556142961618628117134401862444439064241int == 82631996074527146634809100299357202015689483380045708391431301676980553289025058416081295598186301592268348049317250549521int);
        }
        assert(pow12(2 * 7223245206int + 1) == 82631996211803941958651320052776976559689935317837150306567691177889800378601100547123042028125942959069617608648631500081int) by {
            assert(14446490413int * 14446490413int == 208701085252900910569int);
            assert(208701085252900910569int * 208701085252900910569int == 43556142985738613930435405296629335903761int);
            assert(43556142985738613930435405296629335903761int * 43556142985738613930435405296629335903761int * 43556142985738613930435405296629335903761int == 82631996211803941958651320052776976559689935317837150306567691177889800378601100547123042028125942959069617608648631500081int);
        }
        assert(82631996074527146634809100299357202015689483380045708391431301676980553289025058416081295598186301592268348049317250549521int <= 161390617380431786853494948250188242145606612051826469551916209783790476376052574664352834580008614464743948248296718336int * 512 <= 82631996211803941958651320052776976559689935317837150306567691177889800378601100547123042028125942959069617608648631500081int);
    }
    if k == 10 {
        assert(semitone_ratio(k) == 7652761717);
        assert(pow12(2 * 7652761717int - 1) == 165263992088162271883064457639842731314367025779342989057482733445132600415391895185498179208388817701906307667508638238561int) by {
            assert(15305523433int * 15305523433int == 234259047558112105489int);
            assert(234259047558112105489int * 234259047558112105489int == 54877301362833829213522340259364663929121int);
            assert(54877301362833829213522340259364663929121int * 54877301362833829213522340259364663929121int * 54877301362833829213522340259364663929121int == 165263992088162271883064457639842731314367025779342989057482733445132600415391895185498179208388817701906307667508638238561int);
        }
        assert(pow12(2 * 7652761717int + 1) == 165263992347306353451338348220053634003914767326086750531022792743053661083982644874545441606201244613881822288984619140625int) by {
            assert(15305523435int * 15305523435int == 234259047619334199225int);
            assert(234259047619334199225int * 234259047619334199225int == 54877301391517487953488127479671990600625int);
            assert(54877301391517487953488127479671990600625int * 54877301391517487953488127479671990600625int * 54877301391517487953488127479671990600625int == 165263992347306353451338348220053634003914767326086750531022792743053661083982644874545441606201244613881822288984619140625int);
        }
        assert(165263992088162271883064457639842731314367025779342989057482733445132600415391895185498179208388817701906307667508638238561int <= 161390617380431786853494948250188242145606612051826469551916209783790476376052574664352834580008614464743948248296718336int * 1024 <= 165263992347306353451338348220053634003914767326086750531022792743053661083982644874545441606201244613881822288984619140625int);
    }
    if k == 11 {
        assert(semitone_ratio(k) == 8107818609);
        assert(pow12(2 * 8107818609int - 1) == 330527984148224032110440283732205118097674104556007171020791659805492703317384156746293578560560137039447853170720856760961int) by {
            assert(16215637217int * 16215637217int == 262946890353355505089int);
            assert(262946890353355505089int * 262946890353355505089int == 69141067146499562379923559396702304897921int);
            assert(69141067146499562379923559396702304897921int * 69141067146499562379923559396702304897921int * 69141067146499562379923559396702304897921int == 330527984148224032110440283732205118097674104556007171020791659805492703317384156746293578560560137039447853170720856760961int);
        }
        assert(pow12(2 * 8107818609int + 1) == 330527984637422915804149431779146353061320835656510858244213017055266560149664430836492351001915633180863514019575926267761int) by {
            assert(16215637219int * 16215637219int == 262946890418218053961int);
            assert(262946890418218053961int * 262946890418218053961int == 69141067180610373436700603238925907789521int);
            assert(69141067180610373436700603238925907789521int * 69141067180610373436700603238925907789521int * 69141067180610373436700603238925907789521int == 330527984637422915804149431779146353061320835656510858244213017055266560149664430836492351001915633180863514019575926267761int);
        }
        assert(330527984148224032110440283732205118097674104556007171020791659805492703317384156746293578560560137039447853170720856760961int <= 161390617380431786853494948250188242145606612051826469551916209783790476376052574664352834580008614464743948248296718336int * 2048 <= 330527984637422915804149431779146353061320835656510858244213017055266560149664430836492351001915633180863514019575926267761int);
    }
}

/// On the sample of a rising gate edge with zero attack time the envelope
/// reads exactly 1.0, so a voice whose volume lies above the silence
/// threshold and at most 1.0 sounds at its full volume: a pulse voice adds
/// plus or minus its volume to the mix, by the side of the duty cycle that
/// its phase is on.
pub proof fn zero_attack_first_sample(st: SynthState, c: ControlParams, sr: u32, t: u32)
    requires
        st.wf(),
        c.wf(),
        0 < sr <= MAX_SAMPLE_RATE,
        attack_snaps(st, c),
        AMP_EPSILON < c.volume <= LEVEL_ONE,
    ensures
        voice_step(st, c, sr, t).0.env_level == LEVEL_ONE,
        amplitude(c, voice_step(st, c, sr, t).0.env_level) == c.volume,
        c.kind == KIND_PULSE || c.kind == KIND_PULSE_ALT ==> voice_step(st, c, sr, t).1 == if (voice_step(
            st, c, sr, t).0.phase as int) < c.duty as int * 256 {
            c.volume as int
        } else {
            -(c.volume as int)
        },
{
    vstd::arithmetic::div_mod::lemma_div_by_multiple(c.volume as int, LEVEL_ONE as int);
}

// ------------------------------------------------------------------
// Output sample formats

/// A Q24 sample clipped to [-1, 1].
pub open spec fn clip_sample(s: i32) -> int {
    if s > LEVEL_ONE { LEVEL_ONE as int } else if s < -(LEVEL_ONE as int) { -(LEVEL_ONE as int) } else { s as int }
}

/// A Q24 sample as a signed 16-bit sample: 1.0 is `i16::MAX`, rounded
/// towards zero.
pub open spec fn i16_sample(s: i32) -> int {
    let c = clip_sample(s);
    if c >= 0 { c * 32767 / LEVEL_ONE as int } else { -((-c) * 32767 / LEVEL_ONE as int) }
}

/// A Q24 sample as an unsigned 16-bit sample: -1.0 is 0 and 1.0 is
/// `u16::MAX`, rounded down.
pub open spec fn u16_sample(s: i32) -> int {
    (clip_sample(s) + LEVEL_ONE) * 65535 / (2 * LEVEL_ONE as int)
}

fn clip_sample_exec(s: i32) -> (r: i64)
    ensures
        r == clip_sample(s),
{
    if s > LEVEL_ONE as i32 {
        LEVEL_ONE as i64
    } else if s < -(LEVEL_ONE as i32) {
        -(LEVEL_ONE as i64)
    } else {
        s as i64
    }
}

/// Converts a Q24 sample for a device that takes `i16` samples.
pub fn sample_to_i16(s: i32) -> (r: i16)
    ensures
        r == i16_sample(s),
{
    let c = clip_sample_exec(s);
    if c >= 0 {
        let v = c * 32767 / LEVEL_ONE as i64;
        assert(v <= 32767) by {
            vstd::arithmetic::div_mod::lemma_div_is_ordered(c as int * 32767, LEVEL_ONE as int * 32767, LEVEL_ONE as int);
            vstd::arithmetic::div_mod::lemma_div_by_multiple(32767, LEVEL_ONE as int);
        }
        v as i16
    } else {
        let v = (-c) * 32767 / LEVEL_ONE as i64;
        assert(v <= 32767) by {
            vstd::arithmetic::div_mod::lemma_div_is_ordered(-c as int * 32767, LEVEL_ONE as int * 32767, LEVEL_ONE as int);
            vstd::arithmetic::div_mod::lemma_div_by_multiple(32767, LEVEL_ONE as int);
        }
        -(v as i16)
    }
}

/// Converts a Q24 sample for a device that takes `u16` samples.
pub fn sample_to_u16(s: i32) -> (r: u16)
    ensures
        r == u16_sample(s),
{
    let c = clip_sample_exec(s);
    let v = (c + LEVEL_ONE as i64) * 65535 / (2 * LEVEL_ONE as i64);
    assert(v <= 65535) by {
        vstd::arithmetic::div_mod::lemma_div_is_ordered(
            (c as int + LEVEL_ONE as int) * 65535, 2 * LEVEL_ONE as int * 65535, 2 * LEVEL_ONE as int);
        vstd::arithmetic::div_mod::lemma_div_by_multiple(65535, 2 * LEVEL_ONE as int);
    }
    v as u16
}

} // verus!
