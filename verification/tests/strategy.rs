use mqttaudio::cache::strategy::{decide, Probe, Strategy};
use mqttaudio::config::LoadMode;

const HUGE: usize = usize::MAX; // effectively-unlimited headroom for non-budget tests
const MAX_BYTES: u64 = 32 * 1024 * 1024;
const MAX_SECONDS: u32 = 60;
const RATE: u32 = 48000;

/// A probe with a decoded size and a duration, the duration held as frames at 48 kHz.
fn probe(bytes: Option<u64>, seconds: Option<f64>) -> Probe {
    Probe {
        est_decoded_bytes: bytes,
        est_frames: seconds.map(|s| (s * RATE as f64) as u64),
        sample_rate: RATE,
    }
}

#[test]
fn explicit_stream_always_windows() {
    let p = probe(Some(1024), Some(0.1));
    assert_eq!(
        decide(LoadMode::Stream, LoadMode::Auto, &p, MAX_BYTES, MAX_SECONDS, HUGE),
        Strategy::Windowed
    );
}

#[test]
fn explicit_full_within_budget_full_loads() {
    let p = probe(Some(64 * 1024 * 1024), Some(600.0));
    assert_eq!(
        decide(LoadMode::Full, LoadMode::Auto, &p, MAX_BYTES, MAX_SECONDS, HUGE),
        Strategy::FullLoad
    );
}

#[test]
fn explicit_full_over_budget_is_downgraded_to_windowed() {
    let p = probe(Some(2 * 1024 * 1024 * 1024), None);
    let headroom = 512 * 1024 * 1024;
    assert_eq!(
        decide(LoadMode::Full, LoadMode::Auto, &p, MAX_BYTES, MAX_SECONDS, headroom),
        Strategy::Windowed
    );
}

#[test]
fn auto_small_asset_full_loads() {
    let p = probe(Some(4 * 1024 * 1024), Some(10.0));
    assert_eq!(
        decide(LoadMode::Auto, LoadMode::Auto, &p, MAX_BYTES, MAX_SECONDS, HUGE),
        Strategy::FullLoad
    );
}

#[test]
fn auto_windows_when_too_big() {
    let p = probe(Some(64 * 1024 * 1024), Some(10.0));
    assert_eq!(
        decide(LoadMode::Auto, LoadMode::Auto, &p, MAX_BYTES, MAX_SECONDS, HUGE),
        Strategy::Windowed
    );
}

#[test]
fn auto_windows_when_too_long() {
    let p = probe(Some(4 * 1024 * 1024), Some(120.0));
    assert_eq!(
        decide(LoadMode::Auto, LoadMode::Auto, &p, MAX_BYTES, MAX_SECONDS, HUGE),
        Strategy::Windowed
    );
}

#[test]
fn auto_windows_when_over_budget_even_if_under_thresholds() {
    let p = probe(Some(20 * 1024 * 1024), Some(30.0));
    let headroom = 8 * 1024 * 1024;
    assert_eq!(
        decide(LoadMode::Auto, LoadMode::Auto, &p, MAX_BYTES, MAX_SECONDS, headroom),
        Strategy::Windowed
    );
}

#[test]
fn config_mode_applies_when_per_play_is_auto() {
    let small = probe(Some(1024), Some(0.1));
    assert_eq!(
        decide(LoadMode::Auto, LoadMode::Stream, &small, MAX_BYTES, MAX_SECONDS, HUGE),
        Strategy::Windowed
    );
    assert_eq!(
        decide(LoadMode::Full, LoadMode::Stream, &small, MAX_BYTES, MAX_SECONDS, HUGE),
        Strategy::FullLoad
    );
}

#[test]
fn unknown_estimate_under_auto_full_loads() {
    let p = probe(None, None);
    assert_eq!(
        decide(LoadMode::Auto, LoadMode::Auto, &p, MAX_BYTES, MAX_SECONDS, 1),
        Strategy::FullLoad
    );
}

#[test]
fn exactly_at_the_limits_still_full_loads() {
    let p = probe(Some(MAX_BYTES), Some(60.0));
    assert_eq!(
        decide(LoadMode::Auto, LoadMode::Auto, &p, MAX_BYTES, MAX_SECONDS, MAX_BYTES as usize),
        Strategy::FullLoad
    );
    let over = probe(Some(MAX_BYTES), Some(60.0));
    assert_eq!(
        decide(LoadMode::Auto, LoadMode::Auto, &over, MAX_BYTES, MAX_SECONDS, MAX_BYTES as usize - 1),
        Strategy::Windowed
    );
}

#[test]
fn probe_from_estimate_counts_four_bytes_per_sample() {
    let p = Probe::from_estimate(Some(1000), 2, 48000);
    assert_eq!(p.est_decoded_bytes, Some(8000));
    assert_eq!(p.est_frames, Some(1000));
    let mono = Probe::from_estimate(Some(1000), 0, 44100);
    assert_eq!(mono.est_decoded_bytes, Some(4000));
    assert_eq!(Probe::from_estimate(None, 2, 48000).est_decoded_bytes, None);
}
