use oxido::audio::{AudioEngine, ControlParams, LEVEL_ONE};
use oxido::wire::{
    audio_params_from_memory, control_of, decode_audio_block, fixed_from_f32_bits, read_audio_block,
    read_frame, AbiError, AUDIO_BLOCK_BYTES,
};

fn record(kind: u32, floats: [f32; 8], gate: u32, arps: [i32; 3]) -> Vec<u8> {
    // Field order: kind, freq, vol, duty, gate, attack, decay, sustain,
    // release, arp a, arp b, arp c, arp rate.
    let mut b = Vec::new();
    b.extend_from_slice(&kind.to_le_bytes());
    for f in &floats[0..3] {
        b.extend_from_slice(&f.to_le_bytes());
    }
    b.extend_from_slice(&gate.to_le_bytes());
    for f in &floats[3..7] {
        b.extend_from_slice(&f.to_le_bytes());
    }
    for a in arps {
        b.extend_from_slice(&a.to_le_bytes());
    }
    b.extend_from_slice(&floats[7].to_le_bytes());
    b
}

fn block() -> Vec<u8> {
    let mut b = record(2, [440.0, 0.5, 0.25, 10.0, 20.5, 0.75, -3.0, 8.0], 1, [12, -5, 0]);
    for i in 0..3u32 {
        b.extend(record(i, [100.0 * (i + 1) as f32, 1.0, 0.5, 0.0, 0.0, 1.0, 0.0, 0.0], 0, [0, 0, 0]));
    }
    b
}

#[test]
fn frame_read_past_memory_end_is_an_abi_error() {
    let mem: Vec<u8> = (0..100u8).collect();
    assert_eq!(read_frame(&mem, 90, 20), Err(AbiError::OutOfBounds));
    assert_eq!(read_frame(&mem, 101, 0), Err(AbiError::OutOfBounds));
    assert_eq!(read_frame(&mem, u32::MAX, 2), Err(AbiError::OutOfBounds));
    assert_eq!(read_frame(&mem, 0, u32::MAX), Err(AbiError::OutOfBounds));
}

#[test]
fn frame_read_copies_exactly_the_region() {
    let mem: Vec<u8> = (0..100u8).collect();
    assert_eq!(read_frame(&mem, 80, 20), Ok((80..100u8).collect::<Vec<u8>>()));
    assert_eq!(read_frame(&mem, 100, 0), Ok(vec![]));
    assert_eq!(read_frame(&mem, 3, 2), Ok(vec![3, 4]));
}

#[test]
fn short_audio_block_leaves_engine_parameters() {
    let mut mem = vec![0u8; 64];
    mem.extend(block());
    let mut e = AudioEngine::new(48_000);
    let mut c = ControlParams::silent();
    c.gate = true;
    c.volume = LEVEL_ONE;
    e.set_parameters(&[c, c, c, c]);
    let before = e.controls;
    assert_eq!(read_audio_block(&mem, Some((64, 100))), None);
    let update = audio_params_from_memory(&mem, Some((64, 100)));
    assert!(update.is_none());
    if let Some(p) = update {
        e.set_parameters(&p);
    }
    assert_eq!(e.controls, before);
}

#[test]
fn absent_or_out_of_bounds_audio_block_is_skipped() {
    let mem = block();
    assert_eq!(audio_params_from_memory(&mem, None), None);
    assert_eq!(audio_params_from_memory(&mem, Some((1, 208))), None);
    assert_eq!(read_audio_block(&mem, Some((0, 209))), None);
    assert_eq!(read_audio_block(&mem, Some((0, 208))).map(|b| b.len()), Some(AUDIO_BLOCK_BYTES));
}

#[test]
fn audio_block_decodes_in_wire_order() {
    let b = block();
    let w = decode_audio_block(&b);
    assert_eq!(w[0].kind, 2);
    assert_eq!(w[0].base_freq_bits, 440.0f32.to_bits());
    assert_eq!(w[0].gate, 1);
    assert_eq!(w[0].arp_a, 12);
    assert_eq!(w[0].arp_b, -5);
    assert_eq!(w[0].arp_rate_bits, 8.0f32.to_bits());
    assert_eq!(w[3].kind, 2);
    assert_eq!(w[3].base_freq_bits, 300.0f32.to_bits());
}

#[test]
fn audio_block_converts_to_fixed_point() {
    let mut mem = vec![0u8; 16];
    mem.extend(block());
    let p = audio_params_from_memory(&mem, Some((16, 208))).unwrap();
    let c = p[0];
    assert_eq!(c.kind, 2);
    assert_eq!(c.base_freq_mhz, 440_000);
    assert_eq!(c.volume, LEVEL_ONE / 2);
    assert_eq!(c.duty, LEVEL_ONE / 4);
    assert!(c.gate);
    assert_eq!(c.attack_us, 10_000);
    assert_eq!(c.decay_us, 20_500);
    assert_eq!(c.sustain_level, LEVEL_ONE / 4 * 3);
    assert_eq!(c.release_us, 0);
    assert_eq!((c.arp_a, c.arp_b, c.arp_c), (12, -5, 0));
    assert_eq!(c.arp_rate_mhz, 8_000);
    assert_eq!(p[1].base_freq_mhz, 100_000);
    assert!(!p[1].gate);
    assert_eq!(p[3].sustain_level, LEVEL_ONE);
    assert_eq!(control_of(&decode_audio_block(&mem[16..])[2]), p[2]);
}

#[test]
fn f32_bits_to_fixed_point() {
    assert_eq!(fixed_from_f32_bits(1.5f32.to_bits(), 1000), 1500);
    assert_eq!(fixed_from_f32_bits(0.1f32.to_bits(), 1000), 100);
    assert_eq!(fixed_from_f32_bits(0.001f32.to_bits(), 1000), 1);
    assert_eq!(fixed_from_f32_bits(1.0f32.to_bits(), LEVEL_ONE as u64), LEVEL_ONE);
    assert_eq!(fixed_from_f32_bits(0.0f32.to_bits(), 1000), 0);
    assert_eq!(fixed_from_f32_bits((-0.0f32).to_bits(), 1000), 0);
    assert_eq!(fixed_from_f32_bits((-2.0f32).to_bits(), 1000), 0);
    assert_eq!(fixed_from_f32_bits(f32::NAN.to_bits(), 1000), 0);
    assert_eq!(fixed_from_f32_bits(f32::INFINITY.to_bits(), 1000), u32::MAX);
    assert_eq!(fixed_from_f32_bits(1.0e30f32.to_bits(), 1000), u32::MAX);
    assert_eq!(fixed_from_f32_bits(4_294_967.0f32.to_bits(), 1000), 4_294_967_000);
    assert_eq!(fixed_from_f32_bits(f32::MIN_POSITIVE.to_bits(), LEVEL_ONE as u64), 0);
    assert_eq!(fixed_from_f32_bits(1.0e-40f32.to_bits(), 1000), 0);
}
