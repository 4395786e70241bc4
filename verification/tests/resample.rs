use focus_capture::capture::resampler_for;
use focus_capture::resample::{SincResampler, HALF, PHASES, TAPS};

/// Hann-windowed sinc coefficients, one row of taps per phase.
fn build_table() -> Vec<f32> {
    let mut t = vec![0.0f32; PHASES * TAPS];
    for p in 0..PHASES {
        let frac = p as f64 / PHASES as f64;
        for k in 0..TAPS {
            let x = frac - (k as f64 - (HALF - 1) as f64);
            let sinc = if x.abs() < 1e-9 {
                1.0
            } else {
                let px = std::f64::consts::PI * x;
                px.sin() / px
            };
            let w = 0.5 * (1.0 + (std::f64::consts::PI * x / HALF as f64).cos());
            t[p * TAPS + k] = (sinc * w) as f32;
        }
    }
    t
}

fn converter(from: u32, to: u32) -> SincResampler<f32> {
    SincResampler::new(from, to, 0.0, build_table())
}

fn process(r: &mut SincResampler<f32>, input: &[f32], out: &mut Vec<f32>) {
    r.process(
        input,
        out,
        0.0f64,
        &|a: f64, x: f32| a + x as f64,
        &|a: f64, n: u32| (a / n as f64) as f32,
        &|a: f32, p: (f32, f32)| a + p.0 * p.1,
    );
}

/// Sine at `freq` Hz, `rate` sample rate, `n` samples.
fn sine(freq: f64, rate: u32, n: usize) -> Vec<f32> {
    (0..n)
        .map(|i| (2.0 * std::f64::consts::PI * freq * i as f64 / rate as f64).sin() as f32)
        .collect()
}

fn rms(v: &[f32]) -> f64 {
    (v.iter().map(|&x| x as f64 * x as f64).sum::<f64>() / v.len().max(1) as f64).sqrt()
}

#[test]
fn identity_ratio_preserves_signal() {
    let mut r = converter(48000, 48000);
    assert!(r.is_passthrough());
    let input = sine(1000.0, 48000, 4800);
    let mut out = Vec::new();
    process(&mut r, &input, &mut out);
    // The 8-tap window holds the last HALF samples until the next call
    // (constant ~83 µs group delay); a one-shot run is HALF short.
    assert!((out.len() as i64 - input.len() as i64).abs() <= HALF as i64);
    // Allow the HALF-sample preroll shift: compare RMS, not phase.
    assert!((rms(&out) - rms(&input)).abs() < 0.01);
}

#[test]
fn upsample_441_to_480_keeps_tone_and_length() {
    let mut r = converter(44100, 48000);
    assert!(!r.is_passthrough());
    let input = sine(997.0, 44100, 4410); // 100 ms
    let mut out = Vec::new();
    process(&mut r, &input, &mut out);
    // ~100 ms at 48 kHz, minus filter edges.
    assert!((out.len() as i64 - 4800).abs() <= 16, "got {}", out.len());
    let target = rms(&input);
    assert!(
        (rms(&out[64..out.len() - 64]) - target).abs() / target < 0.02,
        "rms drift: {} vs {}",
        rms(&out),
        target
    );
}

#[test]
fn downsample_96k_to_48k_halves_length() {
    let mut r = converter(96000, 48000);
    let input = sine(1000.0, 96000, 9600);
    let mut out = Vec::new();
    process(&mut r, &input, &mut out);
    assert!((out.len() as i64 - 4800).abs() <= 4, "got {}", out.len());
    assert!((rms(&out[32..]) - rms(&input)).abs() / rms(&input) < 0.05);
}

#[test]
fn chunk_boundaries_are_continuous() {
    // Feeding the signal in small chunks must equal feeding it at once.
    let input = sine(1234.0, 44100, 8820);
    let mut whole = converter(44100, 48000);
    let mut out_whole = Vec::new();
    process(&mut whole, &input, &mut out_whole);

    let mut chunked = converter(44100, 48000);
    let mut out_chunked = Vec::new();
    let mut tmp = Vec::new();
    for c in input.chunks(147) {
        process(&mut chunked, c, &mut tmp);
        out_chunked.extend_from_slice(&tmp);
    }
    let n = out_whole.len().min(out_chunked.len());
    assert!(n > 100);
    let err = out_whole[..n]
        .iter()
        .zip(&out_chunked[..n])
        .map(|(a, b)| (a - b).abs() as f64)
        .fold(0.0f64, f64::max);
    assert!(err < 5e-4, "max boundary error {err}");
}

#[test]
fn chunks_give_exactly_what_the_whole_gives() {
    for (from, to) in [(44100u32, 48000u32), (96000, 48000), (176400, 48000), (48000, 48000), (8000, 48000)] {
        let input = sine(440.0, from, 5000);
        let mut whole = converter(from, to);
        let mut out_whole = Vec::new();
        process(&mut whole, &input, &mut out_whole);
        for size in [1usize, 7, 480] {
            let mut chunked = converter(from, to);
            let mut out_chunked = Vec::new();
            let mut tmp = Vec::new();
            for c in input.chunks(size) {
                process(&mut chunked, c, &mut tmp);
                out_chunked.extend_from_slice(&tmp);
            }
            assert_eq!(out_whole, out_chunked, "{from} -> {to} in chunks of {size}");
        }
    }
}

#[test]
fn lengths_follow_the_ratio() {
    // 44.1 kHz to 48 kHz: an output every 147/160 of a sample, while four
    // samples stand behind its centre.
    let mut r = converter(44100, 48000);
    let mut out = Vec::new();
    process(&mut r, &vec![0.0; 4410], &mut out);
    assert_eq!(out.len(), 4796);
    // 176.4 kHz: groups of three, then 58.8 kHz to 48 kHz.
    let mut r = converter(176_400, 48_000);
    process(&mut r, &vec![0.0; 17_640], &mut out);
    assert_eq!(out.len(), 4797);
    // 96 kHz: groups of two are all that is needed.
    let mut r = converter(96_000, 48_000);
    process(&mut r, &[0.0, 1.0, 2.0, 4.0, 9.0], &mut out);
    assert_eq!(out, vec![0.5, 3.0]);
    process(&mut r, &[1.0], &mut out);
    assert_eq!(out, vec![5.0]);
}

#[test]
fn only_equal_rates_pass_through() {
    assert!(converter(44_100, 44_100).is_passthrough());
    assert!(!converter(96_000, 48_000).is_passthrough());
    assert!(!converter(47_999, 48_000).is_passthrough());
}

#[test]
fn a_converter_is_made_only_where_rates_differ() {
    assert!(resampler_for(48_000, 0.0f32, build_table()).is_none());
    let mut r = resampler_for(96_000, 0.0f32, build_table()).unwrap();
    let mut out = Vec::new();
    process(&mut r, &[1.0, 3.0], &mut out);
    assert_eq!(out, vec![2.0]);
}
