//! Channel conversion and level metering.
use rptadv_portaudio_alsa_adapter::pcm::{
    canonical_output_to_device, device_input_to_canonical, fill, MeterAccumulator,
};

fn average(left: f32, right: f32) -> f32 {
    (left + right) * 0.5
}

fn add_square(sum: f64, sample: u32) -> f64 {
    let value = f64::from(f32::from_bits(sample));
    sum + value * value
}

fn root(sum: f64, count: u64) -> u32 {
    ((sum / count as f64).sqrt() as f32).to_bits()
}

fn bits(samples: &[f32]) -> Vec<u32> {
    samples.iter().map(|sample| sample.to_bits()).collect()
}

#[test]
fn mono_input_is_duplicated_without_format_conversion() {
    let device = [0.25, -0.5];
    let mut canonical = [0.0; 4];
    device_input_to_canonical(Some(&device), 1, &mut canonical, 0.0);
    assert_eq!(canonical, [0.25, 0.25, -0.5, -0.5]);
}

#[test]
fn absent_input_is_silence() {
    let mut canonical = [1.0; 4];
    device_input_to_canonical(None, 1, &mut canonical, 0.0);
    assert_eq!(canonical, [0.0; 4]);
}

#[test]
fn stereo_input_is_preserved() {
    let device = [0.25, -0.5, 0.75, -1.0];
    let mut canonical = [0.0; 4];
    device_input_to_canonical(Some(&device), 2, &mut canonical, 0.0);
    assert_eq!(canonical, device);
}

#[test]
fn mono_output_averages_stereo_program() {
    let canonical = [0.5, -0.25, 1.0, 0.0];
    let mut device = [0.0; 2];
    canonical_output_to_device(&canonical, 1, &mut device, &average);
    assert_eq!(device, [0.125, 0.5]);
}

#[test]
fn stereo_output_is_preserved() {
    let canonical = [0.25, -0.5, 0.75, -1.0];
    let mut device = [0.0; 4];
    canonical_output_to_device(&canonical, 2, &mut device, &average);
    assert_eq!(device, canonical);
}

#[test]
fn meter_tracks_peak_rms_and_clipping() {
    let mut meter = MeterAccumulator::new(0.0);
    meter.observe(&bits(&[0.0, -1.0, 0.5, 1.25]), &add_square);
    assert_eq!(f32::from_bits(meter.peak()), 1.25);
    assert_eq!(meter.clip_sample_count(), 2);
    assert!((f32::from_bits(meter.rms(&root)) - 0.838_525_5).abs() < 0.000_001);
}

#[test]
fn an_idle_meter_reads_silence() {
    let meter = MeterAccumulator::new(0.0);
    assert_eq!(f32::from_bits(meter.peak()), 0.0);
    assert_eq!(f32::from_bits(meter.rms(&root)), 0.0);
    assert_eq!(meter.clip_sample_count(), 0);
}

#[test]
fn metering_in_parts_reads_as_metering_at_once() {
    let samples = bits(&[0.25, -0.75, 0.5, -1.5, 0.125]);
    let mut whole = MeterAccumulator::new(0.0);
    whole.observe(&samples, &add_square);
    let mut parts = MeterAccumulator::new(0.0);
    parts.observe(&samples[..2], &add_square);
    parts.observe(&samples[2..], &add_square);
    assert_eq!(whole, parts);
}

#[test]
fn a_meter_never_takes_a_value_that_is_not_a_number_for_a_peak() {
    let mut meter = MeterAccumulator::new(0.0);
    meter.observe(&bits(&[f32::NAN, 0.5, -f32::NAN]), &add_square);
    assert_eq!(f32::from_bits(meter.peak()), 0.5);
    assert_eq!(meter.clip_sample_count(), 0);
}

#[test]
fn fill_writes_every_sample() {
    let mut samples = [1, 2, 3];
    fill(&mut samples, 9);
    assert_eq!(samples, [9; 3]);
    let mut nothing: [u32; 0] = [];
    fill(&mut nothing, 9);
}

#[test]
fn samples_survive_the_canonical_form() {
    let samples = [0.25, -0.5, 0.75, -1.0];
    for channels in [1, 2] {
        let mut canonical = vec![9.0; 8 / channels];
        device_input_to_canonical(Some(&samples), channels, &mut canonical, 0.0);
        let mut device = [9.0; 4];
        canonical_output_to_device(&canonical, channels, &mut device, &average);
        assert_eq!(device, samples);
    }
}
