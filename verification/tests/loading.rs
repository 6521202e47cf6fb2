use mqttaudio::cache::strategy::Probe;
use mqttaudio::config::{LoadMode, ResamplerQuality};
use mqttaudio::loading::{
    after_prebuffer_deadline, decides_windowed, keeps_response, precache_after_examine,
    precache_after_open, precache_after_probe, precache_window, start_frame, step_after_examine,
    step_after_open, step_after_probe, wav_frames, window_plan, LoadLimits, PlayStep, PrecacheStep,
};
use mqttaudio::loading::{refusal, Refusal};

fn limits() -> LoadLimits {
    LoadLimits { config_mode: LoadMode::Auto, full_load_max_bytes: 1000, full_load_max_seconds: 10 }
}

fn probe(bytes: u64) -> Probe {
    Probe { est_decoded_bytes: Some(bytes), est_frames: Some(10), sample_rate: 48000 }
}

#[test]
fn window_plan_uses_the_play_values_first() {
    let p = window_plan(Some(2000), Some(500), 4000, 1000, 250, 48000, ResamplerQuality::High);
    assert_eq!(p.frames, 96000);
    assert_eq!(p.prebuffer_frames, 24000);
    assert_eq!(p.deadline_ms, 500);
    assert_eq!(p.rate, 48000);
    assert_eq!(p.quality, ResamplerQuality::High);
}

#[test]
fn a_prebuffer_longer_than_the_window_is_cut_to_it() {
    let p = window_plan(None, None, 100, 5000, 3000, 48000, ResamplerQuality::Fast);
    assert_eq!(p.frames, 4800);
    assert_eq!(p.prebuffer_frames, 4800);
    assert_eq!(p.deadline_ms, 3000);
}

#[test]
fn a_window_is_at_least_one_frame() {
    let p = window_plan(Some(0), Some(0), 100, 0, 0, 48000, ResamplerQuality::Fast);
    assert_eq!(p.frames, 1);
    assert_eq!(p.prebuffer_frames, 0);
    let q = precache_window(44100, ResamplerQuality::Medium);
    assert_eq!((q.frames, q.prebuffer_frames, q.deadline_ms), (1, 0, 0));
}

#[test]
fn wav_frames_only_for_wav_paths() {
    assert_eq!(wav_frames("http://x/a.wav", Some(4000)), Some(1000));
    assert_eq!(wav_frames("http://x/A.WAV?sig=1.mp3", Some(4003)), Some(1000));
    assert_eq!(wav_frames("http://x/a.mp3", Some(4000)), None);
    assert_eq!(wav_frames("http://x/a.mp3#b.wav", Some(4000)), None);
    assert_eq!(wav_frames("http://x/a.wav", None), None);
}

#[test]
fn decides_windowed_follows_the_strategy() {
    assert!(!decides_windowed(LoadMode::Auto, &limits(), &probe(500), 10_000));
    assert!(decides_windowed(LoadMode::Auto, &limits(), &probe(5000), 10_000));
    assert!(decides_windowed(LoadMode::Full, &limits(), &probe(500), 100));
    assert!(decides_windowed(LoadMode::Stream, &limits(), &probe(1), 10_000));
}

#[test]
fn play_steps() {
    assert_eq!(step_after_examine(false, true, false, true), PlayStep::LoadFull);
    assert_eq!(step_after_examine(true, true, false, true), PlayStep::StreamFile);
    assert_eq!(step_after_examine(false, false, false, true), PlayStep::ProbeFile);
    assert_eq!(step_after_examine(false, false, false, false), PlayStep::OpenUrl);
    assert_eq!(step_after_probe(false, false, Some(probe(5000)), LoadMode::Auto, &limits(), 10_000), PlayStep::StreamFile);
    assert_eq!(step_after_probe(false, false, None, LoadMode::Auto, &limits(), 10_000), PlayStep::LoadFull);
    assert_eq!(step_after_probe(false, true, Some(probe(5000)), LoadMode::Auto, &limits(), 10_000), PlayStep::LoadFull);
    assert_eq!(step_after_open(false, false, false, None, &probe(1), LoadMode::Auto, &limits(), 10_000), PlayStep::StreamResponse);
    assert_eq!(step_after_open(false, false, false, Some(4), &probe(1), LoadMode::Auto, &limits(), 10_000), PlayStep::DecodeResponse);
    assert_eq!(step_after_open(true, true, true, Some(4), &probe(1), LoadMode::Auto, &limits(), 10_000), PlayStep::StreamResponse);
}

#[test]
fn precache_steps() {
    assert_eq!(precache_after_examine(true, true, true), PrecacheStep::Nothing);
    assert_eq!(precache_after_examine(false, true, true), PrecacheStep::LoadFull);
    assert_eq!(precache_after_examine(false, false, true), PrecacheStep::ProbeFile);
    assert_eq!(precache_after_examine(false, false, false), PrecacheStep::OpenUrl);
    assert_eq!(precache_after_probe(Some(probe(5000)), &limits(), 10_000), PrecacheStep::Nothing);
    assert_eq!(precache_after_probe(Some(probe(50)), &limits(), 10_000), PrecacheStep::LoadFull);
    assert_eq!(precache_after_open(false, false, Some(50), &probe(50), &limits(), 10_000, true), PrecacheStep::DecodeResponse);
    assert_eq!(precache_after_open(false, false, None, &probe(50), &limits(), 10_000, true), PrecacheStep::Download);
    assert_eq!(precache_after_open(false, false, Some(5000), &probe(5000), &limits(), 10_000, false), PrecacheStep::Nothing);
    assert_eq!(precache_after_open(true, false, None, &probe(5000), &limits(), 10_000, false), PrecacheStep::LoadFull);
}

#[test]
fn responses_kept_on_disk() {
    assert!(keeps_response(Some(10), None));
    assert!(keeps_response(Some(10), Some(true)));
    assert!(!keeps_response(Some(10), Some(false)));
    assert!(!keeps_response(None, Some(true)));
}

#[test]
fn full_load_start() {
    assert_eq!(start_frame(1500, 48000), 72000);
    assert_eq!(start_frame(0, 44100), 0);
    assert!(after_prebuffer_deadline(1).is_ok());
    assert_eq!(
        after_prebuffer_deadline(0),
        Err("No audio decoded before the prebuffer deadline".to_string())
    );
}

#[test]
fn a_missing_file_in_an_allowed_directory_is_not_found() {
    assert_eq!(refusal("/sounds/missing.wav", false, true), Refusal::NotFound);
    assert_eq!(refusal("/sounds/there.wav", true, true), Refusal::Forbidden);
    assert_eq!(refusal("/etc/missing.wav", false, false), Refusal::Forbidden);
    assert_eq!(refusal("http-cache/missing.wav", false, true), Refusal::Forbidden);
}
