use oxido::audio::{
    hz_for_semitone, sample_to_i16, sample_to_u16, scale_pow2, step_env, step_voice, AudioEngine,
    ControlParams, EnvStage, SynthState, LEVEL_ONE,
};

const SR: u32 = 48_000;

fn voice(kind: u32, freq_mhz: u32, gate: bool) -> ControlParams {
    ControlParams {
        kind,
        base_freq_mhz: freq_mhz,
        volume: LEVEL_ONE,
        duty: LEVEL_ONE / 2,
        gate,
        attack_us: 0,
        decay_us: 0,
        sustain_level: LEVEL_ONE,
        release_us: 0,
        arp_a: 0,
        arp_b: 0,
        arp_c: 0,
        arp_rate_mhz: 0,
    }
}

fn bank(first: ControlParams) -> [ControlParams; 4] {
    let s = ControlParams::silent();
    [first, s, s, s]
}

#[test]
fn set_parameters_keeps_synthesis_state() {
    let mut e = AudioEngine::new(SR);
    let mut c = voice(0, 440_000, true);
    c.attack_us = 5_000;
    c.arp_rate_mhz = 8_000;
    c.arp_a = 3;
    e.set_parameters(&bank(c));
    e.render(100);
    let before: [SynthState; 4] = e.synth;
    let mut d = voice(2, 1_000_000, false);
    d.sustain_level = LEVEL_ONE * 3;
    d.release_us = 70_000;
    e.set_parameters(&bank(d));
    assert_eq!(e.synth, before);
    assert_eq!(e.controls[0].kind, 2);
    assert_eq!(e.controls[0].sustain_level, LEVEL_ONE);
    assert_eq!(e.controls[0].release_us, 70_000);
    assert!(!e.controls[0].gate);
}

#[test]
fn zero_attack_reaches_full_level_on_first_sample() {
    let mut e = AudioEngine::new(SR);
    let mut c = voice(0, 440_000, true);
    c.sustain_level = 0;
    e.set_parameters(&bank(c));
    let out = e.render(1);
    assert_eq!(e.synth[0].env_level, LEVEL_ONE);
    // 440 Hz advances the phase by 39370533 / 2^32 of a cycle: inside the
    // high half of the pulse, so the mix is +1.0 with a quarter headroom.
    assert_eq!(e.synth[0].phase, 39_370_533);
    assert_eq!(out, vec![(LEVEL_ONE / 4) as i32, (LEVEL_ONE / 4) as i32]);
    // Zero decay time: the next sample lands on the sustain level.
    e.render(1);
    assert_eq!(e.synth[0].env_stage, EnvStage::Sustain);
    assert_eq!(e.synth[0].env_level, 0);
}

#[test]
fn zero_attack_with_decay_starts_from_full_level() {
    let mut e = AudioEngine::new(SR);
    let mut c = voice(0, 440_000, true);
    c.decay_us = 1_000_000;
    c.sustain_level = LEVEL_ONE / 4;
    e.set_parameters(&bank(c));
    e.render(1);
    assert_eq!(e.synth[0].env_stage, EnvStage::Decay);
    assert_eq!(e.synth[0].env_level, LEVEL_ONE);
    // The first decay step takes (1 - 0.25) / 48000 of 1.0.
    e.render(1);
    assert_eq!(e.synth[0].env_stage, EnvStage::Decay);
    assert_eq!(e.synth[0].env_level, LEVEL_ONE - 262);
}

#[test]
fn sustain_level_is_held_while_gate_stays_on() {
    let mut e = AudioEngine::new(SR);
    let mut c = voice(0, 440_000, true);
    c.sustain_level = LEVEL_ONE / 2;
    e.set_parameters(&bank(c));
    e.render(1);
    for _ in 0..1000 {
        e.render_frame();
        assert_eq!(e.synth[0].env_stage, EnvStage::Sustain);
        assert_eq!(e.synth[0].env_level, LEVEL_ONE / 2);
    }
}

#[test]
fn gate_again_during_release_resumes_attack_from_current_level() {
    let mut e = AudioEngine::new(SR);
    let mut c = voice(0, 440_000, true);
    c.attack_us = 10_000;
    c.release_us = 10_000;
    e.set_parameters(&bank(c));
    e.render(481);
    assert_eq!(e.synth[0].env_level, LEVEL_ONE);
    c.gate = false;
    e.set_parameters(&bank(c));
    e.render(100);
    assert_eq!(e.synth[0].env_stage, EnvStage::Release);
    let level = e.synth[0].env_level;
    assert!(level > 0 && level < LEVEL_ONE);
    c.gate = true;
    e.set_parameters(&bank(c));
    e.render_frame();
    assert_eq!(e.synth[0].env_stage, EnvStage::Attack);
    assert_eq!(e.synth[0].env_level, level + 34_952);
}

#[test]
fn zero_release_silences_at_once() {
    let mut e = AudioEngine::new(SR);
    let mut c = voice(0, 440_000, true);
    e.set_parameters(&bank(c));
    e.render(3);
    c.gate = false;
    e.set_parameters(&bank(c));
    let out = e.render(1);
    assert_eq!(e.synth[0].env_stage, EnvStage::Idle);
    assert_eq!(e.synth[0].env_level, 0);
    assert_eq!(out, vec![0, 0]);
}

#[test]
fn envelope_level_never_exceeds_one() {
    let mut e = AudioEngine::new(SR);
    let mut c = voice(0, 220_000, true);
    c.attack_us = 1;
    c.decay_us = 3;
    c.sustain_level = u32::MAX;
    c.release_us = 2;
    for round in 0..20u32 {
        c.gate = round % 3 != 0;
        e.set_parameters(&bank(c));
        for _ in 0..50 {
            e.render_frame();
            assert!(e.synth[0].env_level <= LEVEL_ONE);
        }
    }
}

#[test]
fn arpeggio_rate_zero_keeps_base_frequency() {
    let mut plain = AudioEngine::new(SR);
    let mut arp = AudioEngine::new(SR);
    let c = voice(0, 440_000, true);
    let mut d = c;
    d.arp_a = 12;
    d.arp_b = 7;
    d.arp_c = -5;
    plain.set_parameters(&bank(c));
    arp.set_parameters(&bank(d));
    let a = plain.render(500);
    let b = arp.render(500);
    assert_eq!(a, b);
    assert_eq!(plain.synth[0].phase, arp.synth[0].phase);
    assert_eq!(arp.synth[0].arp_phase, 0);
}

#[test]
fn arpeggio_changes_frequency_when_running() {
    let mut plain = AudioEngine::new(SR);
    let mut arp = AudioEngine::new(SR);
    let c = voice(0, 440_000, true);
    let mut d = c;
    d.arp_a = 12;
    d.arp_b = 12;
    d.arp_c = 12;
    d.arp_rate_mhz = 1_000;
    plain.set_parameters(&bank(c));
    arp.set_parameters(&bank(d));
    plain.render(1);
    arp.render(1);
    // One octave up: the phase step of 880 Hz instead of 440 Hz.
    assert_eq!(arp.synth[0].phase, 78_741_067);
    assert_eq!(plain.synth[0].phase, 39_370_533);
}

#[test]
fn semitone_frequencies() {
    assert_eq!(hz_for_semitone(440_000, 0), 440_000);
    assert_eq!(hz_for_semitone(440_000, 12), 880_000);
    assert_eq!(hz_for_semitone(440_000, -12), 220_000);
    assert_eq!(hz_for_semitone(440_000, 24), 1_760_000);
    assert_eq!(hz_for_semitone(440_000, 7), 659_255);
    assert_eq!(hz_for_semitone(440_000, -5), 329_627);
    assert_eq!(hz_for_semitone(u32::MAX, 12), u32::MAX);
    assert_eq!(hz_for_semitone(1_000, -1000), 0);
    assert_eq!(hz_for_semitone(3, i32::MAX), u32::MAX);
    assert_eq!(hz_for_semitone(u32::MAX, i32::MIN), 0);
}

#[test]
fn four_full_voices_pin_the_mix_to_the_boundary() {
    let mut e = AudioEngine::new(SR);
    let mut c = voice(0, 440_000, true);
    c.duty = LEVEL_ONE;
    e.set_parameters(&[c, c, c, c]);
    let out = e.render(10);
    assert!(out.iter().all(|&s| s == LEVEL_ONE as i32));
    let mut e = AudioEngine::new(SR);
    c.duty = 0;
    e.set_parameters(&[c, c, c, c]);
    let out = e.render(10);
    assert!(out.iter().all(|&s| s == -(LEVEL_ONE as i32)));
}

#[test]
fn mix_stays_in_range() {
    let mut e = AudioEngine::new(SR);
    let mut c0 = voice(0, 440_000, true);
    c0.volume = u32::MAX;
    let c1 = voice(2, 7_000_000, true);
    let mut c2 = voice(1, 1_234_567, true);
    c2.duty = LEVEL_ONE / 8;
    let c3 = voice(7, 440_000, true);
    e.set_parameters(&[c0, c1, c2, c3]);
    let out = e.render(2000);
    assert_eq!(out.len(), 4000);
    assert!(out.iter().all(|&s| s >= -(LEVEL_ONE as i32) && s <= LEVEL_ONE as i32));
}

#[test]
fn noise_register_reseeds_from_zero() {
    let mut e = AudioEngine::new(SR);
    e.set_parameters(&bank(voice(2, 48_000_000, true)));
    let out = e.render(1);
    assert_eq!(e.synth[0].noise, 0x4000);
    assert_eq!(out, vec![-((LEVEL_ONE / 4) as i32), -((LEVEL_ONE / 4) as i32)]);
    e.render(1);
    assert_eq!(e.synth[0].noise, 0x2000);
}

#[test]
fn noise_register_clocks_at_rounded_period() {
    let mut e = AudioEngine::new(SR);
    // 48000 / 19000 = 2.53 rounds to 3 samples per clock.
    e.set_parameters(&bank(voice(2, 19_000_000, true)));
    e.render(1);
    assert_eq!(e.synth[0].noise, 0x4000);
    e.render(2);
    assert_eq!(e.synth[0].noise, 0x4000);
    e.render(1);
    assert_eq!(e.synth[0].noise, 0x2000);
}

#[test]
fn quiet_voices_add_nothing() {
    let mut e = AudioEngine::new(SR);
    let mut c = voice(0, 440_000, true);
    c.volume = 1_000;
    e.set_parameters(&bank(c));
    let out = e.render(4);
    assert_eq!(out, vec![0; 8]);
    assert_ne!(e.synth[0].phase, 0);
}

#[test]
fn idle_envelope_follows_the_gate() {
    let mut st = SynthState::new();
    st.gate_prev = true;
    let mut c = voice(0, 440_000, true);
    c.attack_us = 1_000;
    step_env(&mut st, &c, SR);
    assert_eq!(st.env_stage, EnvStage::Idle);
    assert_eq!(st.env_level, LEVEL_ONE);
    c.gate = false;
    st.gate_prev = false;
    step_env(&mut st, &c, SR);
    assert_eq!(st.env_level, 0);
}

#[test]
fn decay_after_gate_drop_releases_from_sustain() {
    let mut st = SynthState::new();
    st.env_stage = EnvStage::Sustain;
    st.env_level = LEVEL_ONE / 2;
    let mut c = voice(0, 440_000, false);
    c.sustain_level = LEVEL_ONE / 2;
    c.release_us = 0;
    step_env(&mut st, &c, SR);
    assert_eq!(st.env_stage, EnvStage::Release);
    assert_eq!(st.env_level, LEVEL_ONE / 2);
    step_env(&mut st, &c, SR);
    assert_eq!(st.env_stage, EnvStage::Idle);
    assert_eq!(st.env_level, 0);
}

#[test]
fn voice_contribution_and_silent_kinds() {
    let mut st = SynthState::new();
    let c = voice(0, 440_000, true);
    assert_eq!(step_voice(&mut st, &c, SR, 0), LEVEL_ONE as i64);
    let mut st = SynthState::new();
    let c = voice(9, 440_000, true);
    assert_eq!(step_voice(&mut st, &c, SR, 0), 0);
    assert_eq!(st.phase, 0);
    assert_eq!(st.env_level, LEVEL_ONE);
}

#[test]
fn power_of_two_scaling() {
    assert_eq!(scale_pow2(3, 4), 48);
    assert_eq!(scale_pow2(48, -4), 3);
    assert_eq!(scale_pow2(49, -4), 3);
    assert_eq!(scale_pow2(1, 32), u32::MAX);
    assert_eq!(scale_pow2(1, 31), 0x8000_0000);
    assert_eq!(scale_pow2(0, i64::MAX), 0);
    assert_eq!(scale_pow2(0x1_0000_0000, -1), 0x8000_0000);
    assert_eq!(scale_pow2(0x1_FFFF_FFFF_FFFF, 0), u32::MAX);
    assert_eq!(scale_pow2(5, i64::MIN), 0);
}

#[test]
fn zero_attack_half_volume_sounds_at_half_scale() {
    let mut e = AudioEngine::new(SR);
    let mut c = voice(0, 440_000, true);
    c.volume = LEVEL_ONE / 2;
    c.sustain_level = LEVEL_ONE / 8;
    c.decay_us = 2_000;
    e.set_parameters(&bank(c));
    let out = e.render(1);
    assert_eq!(e.synth[0].env_level, LEVEL_ONE);
    assert_eq!(out, vec![(LEVEL_ONE / 8) as i32, (LEVEL_ONE / 8) as i32]);
}

#[test]
fn semitone_steps_at_low_frequency() {
    assert_eq!(hz_for_semitone(1_000, 1), 1_059);
    assert_eq!(hz_for_semitone(20_000, 1), 21_189);
    assert_eq!(hz_for_semitone(1_000, -12), 500);
    assert_eq!(hz_for_semitone(1_000, -1), 943);
}

#[test]
fn samples_convert_to_device_formats() {
    let one = LEVEL_ONE as i32;
    assert_eq!(sample_to_i16(0), 0);
    assert_eq!(sample_to_i16(one), i16::MAX);
    assert_eq!(sample_to_i16(-one), -i16::MAX);
    assert_eq!(sample_to_i16(one / 2), 16383);
    assert_eq!(sample_to_i16(-one / 2), -16383);
    assert_eq!(sample_to_i16(i32::MAX), i16::MAX);
    assert_eq!(sample_to_i16(i32::MIN), -i16::MAX);
    assert_eq!(sample_to_u16(-one), 0);
    assert_eq!(sample_to_u16(one), u16::MAX);
    assert_eq!(sample_to_u16(0), 32767);
    assert_eq!(sample_to_u16(i32::MIN), 0);
    assert_eq!(sample_to_u16(one / 2), 49151);
}
