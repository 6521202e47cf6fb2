//! Load-strategy decision: full in-memory load versus windowed streaming.
//!
//! A small effect or voiceover is decoded fully into memory (all features,
//! instant replay); a big or long cue is streamed through a bounded window. The
//! choice is made from a cheap header estimate and the memory cache's live
//! headroom, so a full load can never blow the memory cap: an estimate larger
//! than the headroom is always windowed, whatever mode was asked for.

use crate::cache::memory::{headroom, refuses, ResidentEntry};
use crate::config::LoadMode;
use vstd::prelude::*;

verus! {

/// A cheap, decode-free estimate of an asset, used to pick a load strategy.
#[derive(Debug, Clone, Copy, PartialEq, Eq)]
pub struct Probe {
    /// Estimated decoded size in bytes at the output rate, if the header
    /// carried a frame count.
    pub est_decoded_bytes: Option<u64>,
    /// Estimated number of frames at the output rate, if known.
    pub est_frames: Option<u64>,
    /// The output rate the estimate is for, in Hz.
    pub sample_rate: u32,
}

/// The chosen load strategy for a play.
#[derive(Debug, Clone, Copy, PartialEq, Eq, Structural)]
pub enum Strategy {
    /// Decode fully into memory: all features, instant replay.
    FullLoad,
    /// Stream through a bounded window: low latency, bounded memory, forward only.
    Windowed,
}

/// The mode in force: a non-`Auto` per-play mode wins over the configured one.
pub open spec fn effective_mode(per_play: LoadMode, config_mode: LoadMode) -> LoadMode {
    if per_play != LoadMode::Auto {
        per_play
    } else {
        config_mode
    }
}

/// The estimate is known and larger than the budget headroom.
pub open spec fn over_budget(probe: Probe, headroom_bytes: usize) -> bool {
    probe.est_decoded_bytes matches Some(b) && b > headroom_bytes
}

/// The estimate is known and larger than the full-load size limit.
pub open spec fn too_big(probe: Probe, full_load_max_bytes: u64) -> bool {
    probe.est_decoded_bytes matches Some(b) && b > full_load_max_bytes
}

/// The estimated duration is known and longer than the full-load limit:
/// `frames / rate > seconds`, with a rate of zero read as one.
pub open spec fn too_long(probe: Probe, full_load_max_seconds: u32) -> bool {
    let rate: int = if probe.sample_rate == 0 {
        1
    } else {
        probe.sample_rate as int
    };
    probe.est_frames matches Some(f) && f > full_load_max_seconds as int * rate
}

/// The load strategy for a play.
pub open spec fn spec_decide(
    per_play: LoadMode,
    config_mode: LoadMode,
    probe: Probe,
    full_load_max_bytes: u64,
    full_load_max_seconds: u32,
    headroom_bytes: usize,
) -> Strategy {
    match effective_mode(per_play, config_mode) {
        LoadMode::Stream => Strategy::Windowed,
        LoadMode::Full => if over_budget(probe, headroom_bytes) {
            Strategy::Windowed
        } else {
            Strategy::FullLoad
        },
        LoadMode::Auto => if over_budget(probe, headroom_bytes) || too_big(probe, full_load_max_bytes)
            || too_long(probe, full_load_max_seconds) {
            Strategy::Windowed
        } else {
            Strategy::FullLoad
        },
    }
}

impl Probe {
    /// The estimate for an asset of `est_frames` frames (at the output rate) and
    /// `channels` channels: four bytes per sample, at least one channel.
    pub fn from_estimate(est_frames: Option<u64>, channels: u32, sample_rate: u32) -> (p: Probe)
        requires
            est_frames matches Some(f) ==> f * (if channels == 0 {
                1
            } else {
                channels as int
            }) * 4 <= u64::MAX,
        ensures
            p.est_frames == est_frames,
            p.sample_rate == sample_rate,
            p.est_decoded_bytes == (match est_frames {
                Some(f) => Some((f * (if channels == 0 {
                    1
                } else {
                    channels as int
                }) * 4) as u64),
                None => None,
            }),
    {
        let ch: u64 = if channels == 0 {
            1
        } else {
            channels as u64
        };
        let bytes = match est_frames {
            Some(f) => {
                proof {
                    assert(f * ch * 4 <= u64::MAX);
                    assert(f * ch <= u64::MAX) by (nonlinear_arith)
                        requires
                            f * ch * 4 <= u64::MAX,
                    ;
                }
                Some(f * ch * 4)
            },
            None => None,
        };
        Probe { est_decoded_bytes: bytes, est_frames, sample_rate }
    }
}

/// Decide full-load versus windowed for an asset.
///
/// Precedence: a non-`Auto` `per_play` mode wins; else a non-`Auto`
/// `config_mode`; else the `Auto` heuristic (the size and duration limits).
/// The memory budget overrides all of them: an estimate larger than
/// `headroom_bytes` is always windowed, even when `Full` was asked for.
pub fn decide(
    per_play: LoadMode,
    config_mode: LoadMode,
    probe: &Probe,
    full_load_max_bytes: u64,
    full_load_max_seconds: u32,
    headroom_bytes: usize,
) -> (r: Strategy)
    ensures
        r == spec_decide(
            per_play,
            config_mode,
            *probe,
            full_load_max_bytes,
            full_load_max_seconds,
            headroom_bytes,
        ),
{
    let effective = match per_play {
        LoadMode::Auto => config_mode,
        _ => per_play,
    };
    let over_budget = match probe.est_decoded_bytes {
        Some(b) => b > headroom_bytes as u64,
        None => false,
    };
    match effective {
        LoadMode::Stream => Strategy::Windowed,
        LoadMode::Full => {
            if over_budget {
                Strategy::Windowed
            } else {
                Strategy::FullLoad
            }
        },
        LoadMode::Auto => {
            let too_big = match probe.est_decoded_bytes {
                Some(b) => b > full_load_max_bytes,
                None => false,
            };
            let rate: u64 = if probe.sample_rate == 0 {
                1
            } else {
                probe.sample_rate as u64
            };
            let too_long = match probe.est_frames {
                Some(f) => {
                    proof {
                        assert(full_load_max_seconds as int * rate <= u32::MAX as int * u32::MAX as int)
                            by (nonlinear_arith)
                            requires
                                full_load_max_seconds <= u32::MAX,
                                rate <= u32::MAX,
                        ;
                    }
                    f > full_load_max_seconds as u64 * rate
                },
                None => false,
            };
            if over_budget || too_big || too_long {
                Strategy::Windowed
            } else {
                Strategy::FullLoad
            }
        },
    }
}

// ---------------------------------------------------------------------------
// Laws
// ---------------------------------------------------------------------------

/// The never-out-of-memory guarantee: a full load is only chosen when the
/// estimate is unknown or fits in the headroom.
pub proof fn law_full_load_fits_headroom(
    per_play: LoadMode,
    config_mode: LoadMode,
    probe: Probe,
    full_load_max_bytes: u64,
    full_load_max_seconds: u32,
    headroom_bytes: usize,
)
    requires
        spec_decide(
            per_play,
            config_mode,
            probe,
            full_load_max_bytes,
            full_load_max_seconds,
            headroom_bytes,
        ) == Strategy::FullLoad,
    ensures
        probe.est_decoded_bytes matches Some(b) ==> b <= headroom_bytes,
{
}

/// Asking to stream, per play or (with an `Auto` play) in the configuration,
/// always streams.
pub proof fn law_stream_always_windows(
    per_play: LoadMode,
    config_mode: LoadMode,
    probe: Probe,
    full_load_max_bytes: u64,
    full_load_max_seconds: u32,
    headroom_bytes: usize,
)
    requires
        effective_mode(per_play, config_mode) == LoadMode::Stream,
    ensures
        spec_decide(
            per_play,
            config_mode,
            probe,
            full_load_max_bytes,
            full_load_max_seconds,
            headroom_bytes,
        ) == Strategy::Windowed,
{
}

/// A play that asks for nothing (`Auto`) follows the configured mode: it is
/// decided exactly as a play asking for the configured mode itself.
pub proof fn law_auto_play_follows_config(
    config_mode: LoadMode,
    probe: Probe,
    full_load_max_bytes: u64,
    full_load_max_seconds: u32,
    headroom_bytes: usize,
)
    ensures
        spec_decide(LoadMode::Auto, config_mode, probe, full_load_max_bytes, full_load_max_seconds, headroom_bytes)
            == spec_decide(
            config_mode,
            config_mode,
            probe,
            full_load_max_bytes,
            full_load_max_seconds,
            headroom_bytes,
        ),
{
}

/// Full mode, asked for by the play or (for a play asking for nothing)
/// configured, loads in full exactly when the estimate is unknown or fits
/// the headroom, whatever the size and duration limits.
pub proof fn law_full_mode_ignores_limits(
    per_play: LoadMode,
    config_mode: LoadMode,
    probe: Probe,
    full_load_max_bytes: u64,
    full_load_max_seconds: u32,
    headroom_bytes: usize,
)
    requires
        per_play == LoadMode::Full || (per_play == LoadMode::Auto && config_mode == LoadMode::Full),
    ensures
        (spec_decide(per_play, config_mode, probe, full_load_max_bytes, full_load_max_seconds, headroom_bytes)
            == Strategy::FullLoad) <==> (match probe.est_decoded_bytes {
            Some(b) => b <= headroom_bytes,
            None => true,
        }),
{
}

/// Stream mode, asked for by the play or (for a play asking for nothing)
/// configured, always windows.
pub proof fn law_stream_mode_windows(
    per_play: LoadMode,
    config_mode: LoadMode,
    probe: Probe,
    full_load_max_bytes: u64,
    full_load_max_seconds: u32,
    headroom_bytes: usize,
)
    requires
        per_play == LoadMode::Stream || (per_play == LoadMode::Auto && config_mode == LoadMode::Stream),
    ensures
        spec_decide(per_play, config_mode, probe, full_load_max_bytes, full_load_max_seconds, headroom_bytes)
            == Strategy::Windowed,
{
}

/// A non-`Auto` per-play mode makes the configured mode irrelevant.
pub proof fn law_per_play_wins(
    per_play: LoadMode,
    config_a: LoadMode,
    config_b: LoadMode,
    probe: Probe,
    full_load_max_bytes: u64,
    full_load_max_seconds: u32,
    headroom_bytes: usize,
)
    requires
        per_play != LoadMode::Auto,
    ensures
        spec_decide(per_play, config_a, probe, full_load_max_bytes, full_load_max_seconds, headroom_bytes)
            == spec_decide(
            per_play,
            config_b,
            probe,
            full_load_max_bytes,
            full_load_max_seconds,
            headroom_bytes,
        ),
{
}

/// A full load decided against a memory cache's headroom fits in that cache:
/// when the decoded buffer is as large as the estimate, storing it is not
/// refused (whatever key it goes under), so full loads never overrun the cap.
pub proof fn law_full_load_is_admitted(
    s: Seq<ResidentEntry>,
    prot: Seq<bool>,
    cap: Option<usize>,
    key: Seq<char>,
    per_play: LoadMode,
    config_mode: LoadMode,
    probe: Probe,
    full_load_max_bytes: u64,
    full_load_max_seconds: u32,
    decoded_bytes: u64,
)
    requires
        0 <= headroom(s, prot, cap) <= usize::MAX,
        probe.est_decoded_bytes == Some(decoded_bytes),
        spec_decide(
            per_play,
            config_mode,
            probe,
            full_load_max_bytes,
            full_load_max_seconds,
            headroom(s, prot, cap) as usize,
        ) == Strategy::FullLoad,
    ensures
        !refuses(s, prot, cap, key, decoded_bytes as int),
{
    crate::cache::memory::law_headroom_admits(s, prot, cap, key, decoded_bytes as int);
}

} // verus!
