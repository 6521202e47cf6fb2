//! The decisions taken while a play or a precache is prepared: how a windowed
//! play buffers, whether a file is loaded in full or streamed, and which step
//! comes next once the caches, the file's header or a URL's response have been
//! looked at. The waiting itself (locks, probes, downloads) happens around them.

use crate::cache::strategy::{spec_decide, Probe, Strategy};
use crate::config::{LoadMode, ResamplerQuality};
use crate::text::has_prefix;
use vstd::prelude::*;

verus! {

// ---------------------------------------------------------------------------
// Refused files
// ---------------------------------------------------------------------------

/// How a play of a file outside the allowed directories is answered.
#[derive(Clone, Copy, Debug, PartialEq, Eq, Structural)]
pub enum Refusal {
    /// The file does not exist, though its directory is allowed.
    NotFound,
    /// The file is outside every allowed directory.
    Forbidden,
}

/// A refused file is reported missing when it is a local path (not starting
/// with `http`) that does not exist in a directory that is allowed;
/// otherwise it is forbidden.
pub open spec fn spec_refusal(file: Seq<char>, exists: bool, parent_allowed: bool) -> Refusal {
    if !"http"@.is_prefix_of(file) && !exists && parent_allowed {
        Refusal::NotFound
    } else {
        Refusal::Forbidden
    }
}

/// How a file the path check refused is answered, given whether it exists
/// and whether the directory holding it is allowed.
pub fn refusal(file: &str, exists: bool, parent_allowed: bool) -> (r: Refusal)
    ensures
        r == spec_refusal(file@, exists, parent_allowed),
{
    if !has_prefix(file, "http") && !exists && parent_allowed {
        Refusal::NotFound
    } else {
        Refusal::Forbidden
    }
}

// ---------------------------------------------------------------------------
// Window of a streamed play
// ---------------------------------------------------------------------------

/// How a windowed play buffers: its window and prebuffer in frames, how long
/// it waits for the prebuffer, and how it decodes.
pub struct WindowPlan {
    pub frames: usize,
    pub prebuffer_frames: usize,
    pub deadline_ms: u32,
    pub rate: u32,
    pub quality: ResamplerQuality,
}

/// Milliseconds at `rate` in frames, rounded down.
pub open spec fn ms_frames(ms: u32, rate: u32) -> int {
    ms as int * rate as int / 1000
}

/// The window of a play: the play's own window and prebuffer when given, the
/// configured ones otherwise. The prebuffer is cut to the window (the window
/// holds all the audio buffered ahead, so a longer prebuffer could never
/// fill), the window is at least one frame, and the deadline is never shorter
/// than the prebuffer.
pub fn window_plan(
    window_ms: Option<u32>,
    prebuffer_ms: Option<u32>,
    default_window_ms: u32,
    default_prebuffer_ms: u32,
    prebuffer_deadline_ms: u32,
    rate: u32,
    quality: ResamplerQuality,
) -> (p: WindowPlan)
    requires
        ms_frames(
            match window_ms {
                Some(w) => w,
                None => default_window_ms,
            },
            rate,
        ) <= usize::MAX,
    ensures
        ({
            let w = match window_ms {
                Some(w) => w,
                None => default_window_ms,
            };
            let asked = match prebuffer_ms {
                Some(b) => b,
                None => default_prebuffer_ms,
            };
            let pre = if asked < w {
                asked
            } else {
                w
            };
            &&& p.frames == (if ms_frames(w, rate) < 1 {
                1
            } else {
                ms_frames(w, rate)
            })
            &&& p.prebuffer_frames == ms_frames(pre, rate)
            &&& p.deadline_ms == (if prebuffer_deadline_ms < pre {
                pre
            } else {
                prebuffer_deadline_ms
            })
        }),
        p.rate == rate,
        p.quality == quality,
        p.prebuffer_frames <= p.frames,
{
    let w = match window_ms {
        Some(w) => w,
        None => default_window_ms,
    };
    let asked = match prebuffer_ms {
        Some(b) => b,
        None => default_prebuffer_ms,
    };
    let pre = if asked < w {
        asked
    } else {
        w
    };
    proof {
        assert(w as int * rate as int <= 0xFFFF_FFFF * 0xFFFF_FFFF) by (nonlinear_arith)
            requires
                w <= 0xFFFF_FFFF,
                rate <= 0xFFFF_FFFF,
        ;
        assert(pre as int * rate as int <= w as int * rate as int) by (nonlinear_arith)
            requires
                pre <= w,
        ;
        assert(pre as int * rate as int / 1000 <= w as int * rate as int / 1000) by (nonlinear_arith)
            requires
                pre as int * rate as int <= w as int * rate as int,
                pre as int * rate as int >= 0,
        ;
    }
    let window_frames = (w as u64) * (rate as u64) / 1000;
    let prebuffer_frames = (pre as u64) * (rate as u64) / 1000;
    let frames: usize = if window_frames < 1 {
        1
    } else {
        window_frames as usize
    };
    let deadline_ms = if prebuffer_deadline_ms < pre {
        pre
    } else {
        prebuffer_deadline_ms
    };
    WindowPlan { frames, prebuffer_frames: prebuffer_frames as usize, deadline_ms, rate, quality }
}

/// The window a precache decides with: one frame, no prebuffer, no deadline.
pub fn precache_window(rate: u32, quality: ResamplerQuality) -> (p: WindowPlan)
    ensures
        p.frames == 1,
        p.prebuffer_frames == 0,
        p.deadline_ms == 0,
        p.rate == rate,
        p.quality == quality,
{
    WindowPlan { frames: 1, prebuffer_frames: 0, deadline_ms: 0, rate, quality }
}

// ---------------------------------------------------------------------------
// Full load or window
// ---------------------------------------------------------------------------

/// The configured load-strategy settings.
pub struct LoadLimits {
    /// The configured load mode, in force when a play asks for `Auto`.
    pub config_mode: LoadMode,
    /// Largest estimated decoded size loaded in full under `Auto`.
    pub full_load_max_bytes: u64,
    /// Longest estimated duration loaded in full under `Auto`.
    pub full_load_max_seconds: u32,
}

/// Whether the load-strategy decision windows an asset with this probe.
pub open spec fn spec_windowed(mode: LoadMode, limits: LoadLimits, probe: Probe, headroom: usize) -> bool {
    spec_decide(
        mode,
        limits.config_mode,
        probe,
        limits.full_load_max_bytes,
        limits.full_load_max_seconds,
        headroom,
    ) == Strategy::Windowed
}

/// Whether the load-strategy decision windows an asset with this probe, given
/// the memory cache's headroom.
pub fn decides_windowed(mode: LoadMode, limits: &LoadLimits, probe: &Probe, headroom: usize) -> (r: bool)
    ensures
        r == spec_windowed(mode, *limits, *probe, headroom),
{
    crate::cache::strategy::decide(
        mode,
        limits.config_mode,
        probe,
        limits.full_load_max_bytes,
        limits.full_load_max_seconds,
        headroom,
    ) == Strategy::Windowed
}

/// The path part of a URL: everything before the first `?` or `#`.
pub open spec fn url_path_len(url: Seq<char>, i: int) -> int
    decreases url.len() - i,
{
    if i < 0 || i >= url.len() {
        url.len() as int
    } else if url[i] == '?' || url[i] == '#' {
        i
    } else {
        url_path_len(url, i + 1)
    }
}

/// Whether `c` is `lower` or its ASCII upper case.
pub open spec fn same_letter(c: char, lower: char) -> bool {
    c == lower || c as int == lower as int - 32
}

/// Whether a path ends in `.wav`, in any case.
pub open spec fn ends_with_wav(p: Seq<char>) -> bool {
    p.len() >= 4 && p[p.len() - 4] == '.' && same_letter(p[p.len() - 3], 'w') && same_letter(
        p[p.len() - 2],
        'a',
    ) && same_letter(p[p.len() - 1], 'v')
}

/// Frames estimated from a URL's `Content-Length`: only an uncompressed WAV
/// (by its path, query and fragment left out) maps bytes to frames, at about
/// four bytes per 16-bit stereo frame.
pub open spec fn spec_wav_frames(url: Seq<char>, length: Option<u64>) -> Option<usize> {
    match length {
        Some(n) => if ends_with_wav(url.take(url_path_len(url, 0))) {
            Some((n / 4) as usize)
        } else {
            None
        },
        None => None,
    }
}

/// Frames estimated from a URL's `Content-Length` (see [`spec_wav_frames`]).
pub fn wav_frames(url: &str, length: Option<u64>) -> (r: Option<usize>)
    ensures
        r == spec_wav_frames(url@, length),
{
    let n = url.unicode_len();
    let mut end: usize = 0;
    while end < n
        invariant
            n == url@.len(),
            end <= n,
            url_path_len(url@, 0) == url_path_len(url@, end as int),
        ensures
            end <= n,
            url_path_len(url@, 0) == end as int,
        decreases n - end,
    {
        let c = url.get_char(end);
        if c == '?' || c == '#' {
            break;
        }
        end += 1;
    }
    let count = match length {
        Some(v) => v,
        None => return None,
    };
    let path = url.substring_char(0, end);
    proof {
        assert(path@ =~= url@.take(end as int));
    }
    if end < 4 {
        return None;
    }
    let dot = path.get_char(end - 4);
    let w = path.get_char(end - 3);
    let a = path.get_char(end - 2);
    let v = path.get_char(end - 1);
    let wav = dot == '.' && (w == 'w' || w == 'W') && (a == 'a' || a == 'A') && (v == 'v' || v == 'V');
    if wav {
        Some((count / 4) as usize)
    } else {
        None
    }
}

// ---------------------------------------------------------------------------
// Steps of preparing a play
// ---------------------------------------------------------------------------

/// What preparing a play does next.
#[derive(Debug, Clone, Copy, PartialEq, Eq, Structural)]
pub enum PlayStep {
    /// Load the file in full: from memory, by joining a load in progress, or by
    /// starting a progressive decode.
    LoadFull,
    /// Read the header of the local file (or of a URL's disk copy) to decide.
    ProbeFile,
    /// Stream the local file (or the URL's disk copy) through a window; it can loop.
    StreamFile,
    /// Open the URL and decide on its response.
    OpenUrl,
    /// Decode the opened response in full into the memory cache.
    DecodeResponse,
    /// Stream the opened response through a window; it cannot loop.
    StreamResponse,
}

/// The step after the caches were looked at: a decode already in memory or in
/// progress is shared unless the play asks to stream; a file on disk (a local
/// file, or a URL's disk copy) is probed, or streamed when the play asks to;
/// otherwise the URL is opened.
pub open spec fn spec_step_after_examine(stream_asked: bool, resident: bool, loading: bool, on_disk: bool) -> PlayStep {
    if !stream_asked && (resident || loading) {
        PlayStep::LoadFull
    } else if on_disk {
        if stream_asked {
            PlayStep::StreamFile
        } else {
            PlayStep::ProbeFile
        }
    } else {
        PlayStep::OpenUrl
    }
}

/// The step after the caches were looked at (see [`spec_step_after_examine`]).
pub fn step_after_examine(stream_asked: bool, resident: bool, loading: bool, on_disk: bool) -> (s: PlayStep)
    ensures
        s == spec_step_after_examine(stream_asked, resident, loading, on_disk),
{
    if !stream_asked && (resident || loading) {
        PlayStep::LoadFull
    } else if on_disk {
        if stream_asked {
            PlayStep::StreamFile
        } else {
            PlayStep::ProbeFile
        }
    } else {
        PlayStep::OpenUrl
    }
}

/// The step after a file on disk was probed (for a play that did not ask to
/// stream): a decode that became resident or started meanwhile is shared; a
/// probe that the strategy windows streams the file; anything else, an
/// unreadable header included, loads in full.
pub open spec fn spec_step_after_probe(
    resident: bool,
    loading: bool,
    probe: Option<Probe>,
    mode: LoadMode,
    limits: LoadLimits,
    headroom: usize,
) -> PlayStep {
    if resident || loading {
        PlayStep::LoadFull
    } else if probe matches Some(p) && spec_windowed(mode, limits, p, headroom) {
        PlayStep::StreamFile
    } else {
        PlayStep::LoadFull
    }
}

/// The step after a file on disk was probed (see [`spec_step_after_probe`]).
pub fn step_after_probe(
    resident: bool,
    loading: bool,
    probe: Option<Probe>,
    mode: LoadMode,
    limits: &LoadLimits,
    headroom: usize,
) -> (s: PlayStep)
    ensures
        s == spec_step_after_probe(resident, loading, probe, mode, *limits, headroom),
{
    if resident || loading {
        return PlayStep::LoadFull;
    }
    match probe {
        Some(p) => if decides_windowed(mode, limits, &p, headroom) {
            PlayStep::StreamFile
        } else {
            PlayStep::LoadFull
        },
        None => PlayStep::LoadFull,
    }
}

/// The step after a URL's response arrived: a decode that became resident or
/// started meanwhile is shared unless the play asks to stream; a play that
/// asks to stream, a response without a length, or one the strategy windows
/// (with the probe made from its length) streams; anything else is decoded.
pub open spec fn spec_step_after_open(
    stream_asked: bool,
    resident: bool,
    loading: bool,
    length: Option<u64>,
    probe: Probe,
    mode: LoadMode,
    limits: LoadLimits,
    headroom: usize,
) -> PlayStep {
    if !stream_asked && (loading || resident) {
        PlayStep::LoadFull
    } else if stream_asked || length is None || spec_windowed(mode, limits, probe, headroom) {
        PlayStep::StreamResponse
    } else {
        PlayStep::DecodeResponse
    }
}

/// The step after a URL's response arrived (see [`spec_step_after_open`]).
pub fn step_after_open(
    stream_asked: bool,
    resident: bool,
    loading: bool,
    length: Option<u64>,
    probe: &Probe,
    mode: LoadMode,
    limits: &LoadLimits,
    headroom: usize,
) -> (s: PlayStep)
    ensures
        s == spec_step_after_open(stream_asked, resident, loading, length, *probe, mode, *limits, headroom),
{
    if !stream_asked && (loading || resident) {
        PlayStep::LoadFull
    } else if stream_asked || length.is_none() || decides_windowed(mode, limits, probe, headroom) {
        PlayStep::StreamResponse
    } else {
        PlayStep::DecodeResponse
    }
}

/// Whether a prepared stream can loop: one reading a file can, one reading a
/// download cannot.
pub open spec fn step_loops(s: PlayStep) -> bool {
    s == PlayStep::StreamFile
}

// ---------------------------------------------------------------------------
// Steps of a precache
// ---------------------------------------------------------------------------

/// What a precache does next.
#[derive(Debug, Clone, Copy, PartialEq, Eq, Structural)]
pub enum PrecacheStep {
    /// Nothing to do: already in memory, or over the limits and not kept.
    Nothing,
    /// Decode in full into the memory cache (or join the load in progress).
    LoadFull,
    /// Read the header of the file on disk to decide.
    ProbeFile,
    /// Open the URL and decide on its response.
    OpenUrl,
    /// Decode the opened response in full into the memory cache.
    DecodeResponse,
    /// Download the opened response into the disk cache without decoding it.
    Download,
}

/// The step after the caches were looked at: a file in memory needs nothing,
/// a load in progress is joined, a file on disk is probed, a URL is opened.
pub open spec fn spec_precache_after_examine(resident: bool, loading: bool, on_disk: bool) -> PrecacheStep {
    if resident {
        PrecacheStep::Nothing
    } else if loading {
        PrecacheStep::LoadFull
    } else if on_disk {
        PrecacheStep::ProbeFile
    } else {
        PrecacheStep::OpenUrl
    }
}

/// The step after the caches were looked at (see [`spec_precache_after_examine`]).
pub fn precache_after_examine(resident: bool, loading: bool, on_disk: bool) -> (s: PrecacheStep)
    ensures
        s == spec_precache_after_examine(resident, loading, on_disk),
{
    if resident {
        PrecacheStep::Nothing
    } else if loading {
        PrecacheStep::LoadFull
    } else if on_disk {
        PrecacheStep::ProbeFile
    } else {
        PrecacheStep::OpenUrl
    }
}

/// The step after a file on disk was probed: a file a play would window (under
/// `Auto`) is not decoded ahead; any other is decoded in full.
pub open spec fn spec_precache_after_probe(probe: Option<Probe>, limits: LoadLimits, headroom: usize) -> PrecacheStep {
    if probe matches Some(p) && spec_windowed(LoadMode::Auto, limits, p, headroom) {
        PrecacheStep::Nothing
    } else {
        PrecacheStep::LoadFull
    }
}

/// The step after a file on disk was probed (see [`spec_precache_after_probe`]).
pub fn precache_after_probe(probe: Option<Probe>, limits: &LoadLimits, headroom: usize) -> (s: PrecacheStep)
    ensures
        s == spec_precache_after_probe(probe, *limits, headroom),
{
    match probe {
        Some(p) => if decides_windowed(LoadMode::Auto, limits, &p, headroom) {
            PrecacheStep::Nothing
        } else {
            PrecacheStep::LoadFull
        },
        None => PrecacheStep::LoadFull,
    }
}

/// The step after a URL's response arrived: a decode resident or in progress
/// meanwhile is joined; a response within the limits (under `Auto`, with a
/// length) is decoded; one over them is downloaded to the disk cache when it
/// can be kept there (`can_persist`), and otherwise nothing is precached.
pub open spec fn spec_precache_after_open(
    resident: bool,
    loading: bool,
    length: Option<u64>,
    probe: Probe,
    limits: LoadLimits,
    headroom: usize,
    can_persist: bool,
) -> PrecacheStep {
    if resident || loading {
        PrecacheStep::LoadFull
    } else if !(length is None || spec_windowed(LoadMode::Auto, limits, probe, headroom)) {
        PrecacheStep::DecodeResponse
    } else if can_persist {
        PrecacheStep::Download
    } else {
        PrecacheStep::Nothing
    }
}

/// The step after a URL's response arrived (see [`spec_precache_after_open`]).
pub fn precache_after_open(
    resident: bool,
    loading: bool,
    length: Option<u64>,
    probe: &Probe,
    limits: &LoadLimits,
    headroom: usize,
    can_persist: bool,
) -> (s: PrecacheStep)
    ensures
        s == spec_precache_after_open(resident, loading, length, *probe, *limits, headroom, can_persist),
{
    if resident || loading {
        return PrecacheStep::LoadFull;
    }
    let windowed = length.is_none() || decides_windowed(LoadMode::Auto, limits, probe, headroom);
    if !windowed {
        PrecacheStep::DecodeResponse
    } else if can_persist {
        PrecacheStep::Download
    } else {
        PrecacheStep::Nothing
    }
}

/// An opened response is decoded in full only as the load strategy decides:
/// for a play that does not ask to stream, with nothing of it in memory or
/// loading, a response with a length is decoded exactly when the strategy
/// for its probe is a full load, and streamed exactly when it is windowed;
/// and whatever the inputs, a response is decoded only then.
pub proof fn law_response_follows_strategy(
    stream_asked: bool,
    resident: bool,
    loading: bool,
    length: Option<u64>,
    probe: Probe,
    mode: LoadMode,
    limits: LoadLimits,
    headroom: usize,
)
    ensures
        ({
            let step = spec_step_after_open(
                stream_asked,
                resident,
                loading,
                length,
                probe,
                mode,
                limits,
                headroom,
            );
            let strategy = spec_decide(
                mode,
                limits.config_mode,
                probe,
                limits.full_load_max_bytes,
                limits.full_load_max_seconds,
                headroom,
            );
            &&& step == PlayStep::DecodeResponse ==> !stream_asked && length is Some
                && strategy == Strategy::FullLoad
            &&& (!stream_asked && !resident && !loading && length is Some) ==> (step
                == PlayStep::DecodeResponse <==> strategy == Strategy::FullLoad)
            &&& (!stream_asked && !resident && !loading && length is Some) ==> (step
                == PlayStep::StreamResponse <==> strategy == Strategy::Windowed)
        }),
{
}

/// A precache loads a file on disk the way a play of it would: it decodes
/// ahead exactly the files a play (not asking to stream, with nothing in
/// memory or loading) would load in full, and skips those it would window.
pub proof fn law_precache_decides_like_play(probe: Option<Probe>, limits: LoadLimits, headroom: usize)
    ensures
        (spec_precache_after_probe(probe, limits, headroom) == PrecacheStep::Nothing) == (
        spec_step_after_probe(false, false, probe, LoadMode::Auto, limits, headroom)
            == PlayStep::StreamFile),
        (spec_precache_after_probe(probe, limits, headroom) == PrecacheStep::LoadFull) == (
        spec_step_after_probe(false, false, probe, LoadMode::Auto, limits, headroom)
            == PlayStep::LoadFull),
{
}

/// A response that would play windowed is kept on disk only when it has a
/// length and the play (or the cache) does not forbid keeping it.
pub open spec fn spec_keeps_response(length: Option<u64>, cacheable: Option<bool>) -> bool {
    length is Some && cacheable != Some(false)
}

/// Whether a streamed response is written through to the disk cache.
pub fn keeps_response(length: Option<u64>, cacheable: Option<bool>) -> (r: bool)
    ensures
        r == spec_keeps_response(length, cacheable),
{
    length.is_some() && !matches!(cacheable, Some(false))
}

// ---------------------------------------------------------------------------
// A full load ready to start
// ---------------------------------------------------------------------------

/// The frame a play starting at `start_ms` needs first.
pub open spec fn spec_start_frame(start_ms: u64, sample_rate: u32) -> int {
    start_ms as int * sample_rate as int / 1000
}

/// The frame a play starting at `start_ms` needs first, at `sample_rate`.
pub fn start_frame(start_ms: u64, sample_rate: u32) -> (r: u64)
    requires
        start_ms as int * sample_rate as int <= u64::MAX,
    ensures
        r == spec_start_frame(start_ms, sample_rate),
{
    start_ms * (sample_rate as u64) / 1000
}

/// What waiting on a full load gives once its deadline passed: the play starts
/// with what is decoded, unless nothing is.
pub fn after_prebuffer_deadline(frames_decoded: usize) -> (r: Result<(), String>)
    ensures
        r is Ok <==> frames_decoded > 0,
        r matches Err(e) ==> e@ == "No audio decoded before the prebuffer deadline"@,
{
    if frames_decoded == 0 {
        Err("No audio decoded before the prebuffer deadline".to_owned())
    } else {
        Ok(())
    }
}

} // verus!
