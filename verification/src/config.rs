//! Configuration: the settings the daemon reads, their defaults and checks.

use crate::keyed::KeyedVec;
use crate::text::{has_prefix, parse_usize, spec_parse_usize};
use vstd::prelude::*;

verus! {

/// The resolved hard cap on decoded-audio memory.
#[derive(Clone, Copy, Debug, PartialEq, Eq, Structural)]
pub enum MemoryCap {
    /// No cap at all.
    Unlimited,
    /// A hard cap of this many bytes (`Bytes(0)` caches nothing).
    Bytes(usize),
}

/// How a play asks for its audio to be loaded.
#[derive(Clone, Copy, Debug, PartialEq, Eq, Structural)]
pub enum LoadMode {
    /// Let the size/duration thresholds and the memory budget decide.
    Auto,
    /// Decode fully into memory (still subject to the memory budget).
    Full,
    /// Always stream through a bounded window.
    Stream,
}

/// How eagerly cached copies are checked against their source.
#[derive(Clone, Copy, Debug, PartialEq, Eq, Structural)]
pub enum FreshnessMode {
    /// Serve the cache, and notice edits of local files.
    Trusting,
    /// Re-check on every load.
    Dev,
    /// Never check: serve whatever is cached.
    Pinned,
}

/// Resampler quality preset.
#[derive(Clone, Copy, Debug, PartialEq, Eq, Structural)]
pub enum ResamplerQuality {
    /// Fastest resampling, acceptable quality for most content
    /// (sinc length 64, oversampling 64).
    Fast,
    /// Balanced quality and speed (sinc length 128, oversampling 128).
    Medium,
    /// High quality, slower (sinc length 256, oversampling 128).
    High,
    /// Maximum quality, slowest (sinc length 256, oversampling 256).
    Maximum,
}

impl Default for ResamplerQuality {
    fn default() -> (q: Self)
        ensures
            q == ResamplerQuality::Fast,
    {
        ResamplerQuality::Fast
    }
}

impl ResamplerQuality {
    /// The sinc filter length for this quality setting.
    pub fn sinc_len(&self) -> (r: usize)
        ensures
            r == match *self {
                ResamplerQuality::Fast => 64usize,
                ResamplerQuality::Medium => 128usize,
                ResamplerQuality::High => 256usize,
                ResamplerQuality::Maximum => 256usize,
            },
    {
        match self {
            ResamplerQuality::Fast => 64,
            ResamplerQuality::Medium => 128,
            ResamplerQuality::High => 256,
            ResamplerQuality::Maximum => 256,
        }
    }

    /// The oversampling factor for this quality setting.
    pub fn oversampling_factor(&self) -> (r: usize)
        ensures
            r == match *self {
                ResamplerQuality::Fast => 64usize,
                ResamplerQuality::Medium => 128usize,
                ResamplerQuality::High => 128usize,
                ResamplerQuality::Maximum => 256usize,
            },
    {
        match self {
            ResamplerQuality::Fast => 64,
            ResamplerQuality::Medium => 128,
            ResamplerQuality::High => 128,
            ResamplerQuality::Maximum => 256,
        }
    }
}


// ---------------------------------------------------------------------------
// Numeric settings held as 32-bit float bit patterns
// ---------------------------------------------------------------------------

/// A 32-bit floating-point setting (a gain, a level, a frequency), kept as its
/// IEEE-754 bit pattern. The checks below compare it with fixed non-negative
/// bounds exactly as the float comparison would: NaN compares false either way,
/// and `-0.0` equals `0.0`.
#[derive(Clone, Copy, Debug, PartialEq, Eq, Structural)]
pub struct FloatBits(pub u32);

/// Bit pattern of `0.0`.
pub const ZERO_BITS: u32 = 0x0000_0000;
/// Bit pattern of `1.0`.
pub const ONE_BITS: u32 = 0x3F80_0000;
/// Bit pattern of `4.0`, the highest gain any volume control accepts (+12 dB).
pub const MAX_GAIN_BITS: u32 = 0x4080_0000;
/// Bit pattern of `10.0`.
pub const TEN_BITS: u32 = 0x4120_0000;
/// Bit pattern of `80.0`.
pub const EIGHTY_BITS: u32 = 0x42A0_0000;
/// Bit pattern of `200.0`.
pub const TWO_HUNDRED_BITS: u32 = 0x4348_0000;

/// The magnitude bits (sign cleared).
pub open spec fn magnitude(b: u32) -> u32 {
    b % 0x8000_0000
}

/// Whether the pattern is a NaN.
pub open spec fn is_nan(b: u32) -> bool {
    magnitude(b) > 0x7F80_0000
}

/// Whether `v < c` as floats, for a non-negative finite bound `c`.
pub open spec fn float_below(v: u32, c: u32) -> bool {
    !is_nan(v) && if v >= 0x8000_0000 {
        magnitude(v) != 0 || c != 0
    } else {
        v < c
    }
}

/// Whether `v > c` as floats, for a non-negative finite bound `c`.
pub open spec fn float_above(v: u32, c: u32) -> bool {
    !is_nan(v) && v < 0x8000_0000 && v > c
}

/// Whether `v <= c` as floats, for a non-negative finite bound `c`.
pub open spec fn float_at_most(v: u32, c: u32) -> bool {
    !is_nan(v) && (v >= 0x8000_0000 || v <= c)
}

/// Whether `v` lies outside `[lo, hi]` as floats (NaN lies nowhere outside).
pub open spec fn float_outside(v: u32, lo: u32, hi: u32) -> bool {
    float_below(v, lo) || float_above(v, hi)
}

impl FloatBits {
    /// Whether this value is below the non-negative finite bound `c` (`v < c`).
    pub fn below(&self, c: u32) -> (r: bool)
        requires
            c < 0x7F80_0000,
        ensures
            r == float_below(self.0, c),
    {
        let v = self.0;
        let mag = v % 0x8000_0000;
        if mag > 0x7F80_0000 {
            false
        } else if v >= 0x8000_0000 {
            mag != 0 || c != 0
        } else {
            v < c
        }
    }

    /// Whether this value is at most the non-negative finite bound `c` (`v <= c`).
    pub fn at_most(&self, c: u32) -> (r: bool)
        requires
            c < 0x7F80_0000,
        ensures
            r == float_at_most(self.0, c),
    {
        let v = self.0;
        v % 0x8000_0000 <= 0x7F80_0000 && (v >= 0x8000_0000 || v <= c)
    }

    /// Whether this value is above the non-negative finite bound `c` (`v > c`).
    pub fn above(&self, c: u32) -> (r: bool)
        requires
            c < 0x7F80_0000,
        ensures
            r == float_above(self.0, c),
    {
        let v = self.0;
        v % 0x8000_0000 <= 0x7F80_0000 && v < 0x8000_0000 && v > c
    }
}

// ---------------------------------------------------------------------------
// Channel references
// ---------------------------------------------------------------------------

/// A channel reference: a numeric index or a name from `audio.channel_aliases`.
#[derive(Debug, Clone, PartialEq)]
pub enum ChannelRef {
    Index(usize),
    Alias(String),
}

/// Channel aliases: name to channel number.
pub type ChannelAliases = KeyedVec<usize>;

/// The message for a channel name that no alias defines.
pub open spec fn unknown_channel_message(name: Seq<char>) -> Seq<char> {
    "Unknown channel '"@ + name + "': define it in audio.channel_aliases as \""@ + name
        + "\": <channel number>"@
}

/// What resolving a channel reference against an alias map gives.
pub open spec fn spec_resolve(c: ChannelRef, aliases: Map<Seq<char>, usize>) -> Result<usize, Seq<char>> {
    match c {
        ChannelRef::Index(i) => Ok(i),
        ChannelRef::Alias(name) => if aliases.contains_key(name@) {
            Ok(aliases[name@])
        } else {
            Err(unknown_channel_message(name@))
        },
    }
}

/// The text view of a result whose error is a string.
pub open spec fn result_view<T>(r: Result<T, String>) -> Result<T, Seq<char>> {
    match r {
        Ok(v) => Ok(v),
        Err(e) => Err(e@),
    }
}

impl ChannelRef {
    /// Resolve this reference to a channel number with the alias map; an alias
    /// that the map does not define is an error naming the map to add it to.
    pub fn resolve(&self, aliases: &ChannelAliases) -> (r: Result<usize, String>)
        requires
            aliases.wf(),
        ensures
            result_view(r) == spec_resolve(*self, aliases@),
    {
        match self {
            ChannelRef::Index(idx) => Ok(*idx),
            ChannelRef::Alias(name) => match aliases.get(name.as_str()) {
                Some(idx) => Ok(*idx),
                None => {
                    let mut msg = "Unknown channel '".to_owned();
                    msg.append(name.as_str());
                    msg.append("': define it in audio.channel_aliases as \"");
                    msg.append(name.as_str());
                    msg.append("\": <channel number>");
                    Err(msg)
                },
            },
        }
    }
}

// ---------------------------------------------------------------------------
// Settings sections
// ---------------------------------------------------------------------------

/// MQTT broker connection.
pub struct MqttConfig {
    pub server: String,
    pub port: u16,
    pub topic: Option<String>,
    pub client_id: Option<String>,
    pub reconnect_delay_seconds: u64,
    /// Broker username for authentication.
    pub username: Option<String>,
    /// Broker password for authentication.
    pub password: Option<String>,
}

impl Default for MqttConfig {
    fn default() -> (c: Self)
        ensures
            c.server@ == "localhost"@,
            c.port == 1883,
            c.topic is None,
            c.client_id is None,
            c.reconnect_delay_seconds == 10,
            c.username is None,
            c.password is None,
    {
        MqttConfig {
            server: "localhost".to_owned(),
            port: 1883,
            topic: None,
            client_id: None,
            reconnect_delay_seconds: 10,
            username: None,
            password: None,
        }
    }
}

/// Caching of downloads and decoded audio.
pub struct CacheConfig {
    pub enabled: bool,
    pub directory: String,
    pub revalidate_after_seconds: u64,
    /// Files to precache on startup.
    pub precache: Vec<String>,
    /// Maximum memory cache size in megabytes; 0 means unlimited.
    pub max_memory_mb: u32,
    /// Block startup until all precache files are loaded.
    pub precache_blocking: bool,
}

impl Default for CacheConfig {
    fn default() -> (c: Self)
        ensures
            c.enabled,
            c.directory@ == "~/.mqttaudio/cache"@,
            c.revalidate_after_seconds == 300,
            c.precache@.len() == 0,
            c.max_memory_mb == 512,
            c.precache_blocking,
    {
        CacheConfig {
            enabled: true,
            directory: "~/.mqttaudio/cache".to_owned(),
            revalidate_after_seconds: 300,
            precache: Vec::new(),
            max_memory_mb: 512,
            precache_blocking: true,
        }
    }
}

/// Which local files commands may play.
pub struct SecurityConfig {
    pub allowed_directories: Vec<String>,
}

impl Default for SecurityConfig {
    fn default() -> (c: Self)
        ensures
            c.allowed_directories@.len() == 0,
    {
        SecurityConfig { allowed_directories: Vec::new() }
    }
}

/// Logging.
pub struct LoggingConfig {
    pub level: String,
    pub verbose: bool,
    /// MQTT topic to publish log messages to.
    pub mqtt_topic: Option<String>,
}

impl Default for LoggingConfig {
    fn default() -> (c: Self)
        ensures
            c.level@ == "info"@,
            !c.verbose,
            c.mqtt_topic is None,
    {
        LoggingConfig { level: "info".to_owned(), verbose: false, mqtt_topic: None }
    }
}

/// Advanced settings.
pub struct AdvancedConfig {
    /// Quality of sample-rate conversion.
    pub resampler_quality: ResamplerQuality,
}

impl Default for AdvancedConfig {
    fn default() -> (c: Self)
        ensures
            c.resampler_quality == ResamplerQuality::Fast,
    {
        AdvancedConfig { resampler_quality: ResamplerQuality::Fast }
    }
}

/// The optional HTTP server.
pub struct HttpConfig {
    pub enabled: bool,
    /// Port to listen on (0 = pick a free port).
    pub port: u16,
    pub bind_address: String,
    /// Bearer token every request must carry, if set.
    pub auth_token: Option<String>,
    pub websocket_enabled: bool,
    pub cors_permissive: bool,
}

impl Default for HttpConfig {
    fn default() -> (c: Self)
        ensures
            !c.enabled,
            c.port == 0,
            c.bind_address@ == "127.0.0.1"@,
            c.auth_token is None,
            c.websocket_enabled,
            !c.cors_permissive,
    {
        HttpConfig {
            enabled: false,
            port: 0,
            bind_address: "127.0.0.1".to_owned(),
            auth_token: None,
            websocket_enabled: true,
            cors_permissive: false,
        }
    }
}

/// One input-to-output route.
pub struct InputRouteConfig {
    /// Source channel on the input device.
    pub source_channel: ChannelRef,
    /// Destination channel on the output device.
    pub dest_channel: ChannelRef,
}

/// Errors loading a configuration file.
pub enum ConfigError {
    IoError(String),
    ParseError(String),
}

impl ConfigError {
    /// The error as text: `IO error: ...` or `Parse error: ...`.
    pub fn message(&self) -> (r: String)
        ensures
            r@ == match *self {
                ConfigError::IoError(e) => "IO error: "@ + e@,
                ConfigError::ParseError(e) => "Parse error: "@ + e@,
            },
    {
        match self {
            ConfigError::IoError(e) => {
                let mut m = "IO error: ".to_owned();
                m.append(e.as_str());
                m
            },
            ConfigError::ParseError(e) => {
                let mut m = "Parse error: ".to_owned();
                m.append(e.as_str());
                m
            },
        }
    }
}

/// Audio output.
pub struct AudioConfig {
    pub device: Option<String>,
    pub sample_rate: u32,
    pub channels: Option<usize>,
    pub buffer_size: u32,
    /// Display names by channel number (the key is the number as text).
    pub channel_names: KeyedVec<String>,
    /// Output gain by channel (number, alias, or display name).
    pub channel_volumes: KeyedVec<FloatBits>,
    /// Alias name to channel number, what routing resolves against.
    pub channel_aliases: KeyedVec<usize>,
}

impl Default for AudioConfig {
    fn default() -> (c: Self)
        ensures
            c.device is None,
            c.sample_rate == 48000,
            c.channels is None,
            c.buffer_size == 512,
            c.channel_names.wf() && c.channel_names@.len() == 0,
            c.channel_volumes.wf() && c.channel_volumes@.len() == 0,
            c.channel_aliases.wf() && c.channel_aliases@.len() == 0,
    {
        AudioConfig {
            device: None,
            sample_rate: 48000,
            channels: None,
            buffer_size: 512,
            channel_names: KeyedVec::new(),
            channel_volumes: KeyedVec::new(),
            channel_aliases: KeyedVec::new(),
        }
    }
}

/// Bass management: a crossover sending the bass of chosen channels to a
/// subwoofer channel.
pub struct BassManagementConfig {
    pub enabled: bool,
    pub lfe_channel: ChannelRef,
    pub crossover_frequency_hz: FloatBits,
    pub source_channels: Vec<ChannelRef>,
    pub remove_bass_from_sources: bool,
}

impl Default for BassManagementConfig {
    fn default() -> (c: Self)
        ensures
            !c.enabled,
            c.lfe_channel == ChannelRef::Index(3),
            c.crossover_frequency_hz == FloatBits(EIGHTY_BITS),
            c.source_channels@.len() == 0,
            !c.remove_bass_from_sources,
    {
        BassManagementConfig {
            enabled: false,
            lfe_channel: ChannelRef::Index(3),
            crossover_frequency_hz: FloatBits(EIGHTY_BITS),
            source_channels: Vec::new(),
            remove_bass_from_sources: false,
        }
    }
}

/// Bass management with its channel references resolved to numbers.
pub struct ResolvedBassManagement {
    pub enabled: bool,
    pub lfe_channel: usize,
    pub crossover_frequency_hz: FloatBits,
    pub source_channels: Vec<usize>,
    pub remove_bass_from_sources: bool,
}

/// One live input (microphone, line-in).
pub struct InputConfig {
    /// Device name (`None` = the default input device).
    pub device: Option<String>,
    /// Input gain.
    pub volume: FloatBits,
    /// Voice name for ducking.
    pub voice_id: String,
    /// Channel routing from input to output.
    pub routes: Vec<InputRouteConfig>,
    /// Buffer latency in milliseconds.
    pub latency_ms: u32,
    /// Capture channel count to open (`None` = the smallest the routes need).
    pub channels: Option<usize>,
    /// Capture sample rate (`None` = the output rate).
    pub sample_rate: Option<u32>,
    /// Peak level (0..1] above which the input counts as speaking for ducking.
    pub activity_threshold: Option<FloatBits>,
    /// How long activity persists after the level drops, in milliseconds.
    pub activity_hold_ms: u32,
}

impl Default for InputConfig {
    fn default() -> (c: Self)
        ensures
            c.device is None,
            c.volume == FloatBits(ONE_BITS),
            c.voice_id@ == "mic"@,
            c.routes@.len() == 0,
            c.latency_ms == 20,
            c.channels is None,
            c.sample_rate is None,
            c.activity_threshold is None,
            c.activity_hold_ms == 750,
    {
        InputConfig {
            device: None,
            volume: FloatBits(ONE_BITS),
            voice_id: "mic".to_owned(),
            routes: Vec::new(),
            latency_ms: 20,
            channels: None,
            sample_rate: None,
            activity_threshold: None,
            activity_hold_ms: 750,
        }
    }
}

/// A ducking rule: while the primary voice plays, the ducked voices are
/// lowered to the target volume.
pub struct DuckingRule {
    pub primary_voice: String,
    pub ducked_voices: Vec<String>,
    pub target_volume: FloatBits,
    pub fade_duration_ms: u64,
}

/// The whole configuration.
pub struct Config {
    pub mqtt: MqttConfig,
    pub audio: AudioConfig,
    pub cache: CacheConfig,
    pub security: SecurityConfig,
    pub logging: LoggingConfig,
    pub http: HttpConfig,
    pub ducking_rules: Vec<DuckingRule>,
    pub bass_management: BassManagementConfig,
    pub inputs: Vec<InputConfig>,
    pub advanced: AdvancedConfig,
    /// Command macros: name to a JSON object of default parameters, kept as JSON text.
    pub macros: KeyedVec<String>,
}

impl Config {
    /// Well-formedness of the name tables.
    pub open spec fn wf(&self) -> bool {
        &&& self.audio.channel_names.wf()
        &&& self.audio.channel_volumes.wf()
        &&& self.audio.channel_aliases.wf()
        &&& self.macros.wf()
    }
}

impl Default for Config {
    fn default() -> (c: Self)
        ensures
            c.wf(),
            c.mqtt.topic is None,
            c.mqtt.server@ == "localhost"@,
            c.mqtt.port == 1883,
            c.audio.sample_rate == 48000,
            c.audio.buffer_size == 512,
            c.audio.channel_volumes@.len() == 0,
            c.audio.channel_aliases@.len() == 0,
            c.audio.channel_names@.len() == 0,
            !c.http.enabled,
            c.http.bind_address@ == "127.0.0.1"@,
            c.http.auth_token is None,
            c.logging.level@ == "info"@,
            c.cache.max_memory_mb == 512,
            c.ducking_rules@.len() == 0,
            !c.bass_management.enabled,
            c.bass_management.lfe_channel == ChannelRef::Index(3),
            c.inputs@.len() == 0,
            c.advanced.resampler_quality == ResamplerQuality::Fast,
            c.macros@.len() == 0,
    {
        Config {
            mqtt: MqttConfig::default(),
            audio: AudioConfig::default(),
            cache: CacheConfig::default(),
            security: SecurityConfig::default(),
            logging: LoggingConfig::default(),
            http: HttpConfig::default(),
            ducking_rules: Vec::new(),
            bass_management: BassManagementConfig::default(),
            inputs: Vec::new(),
            advanced: AdvancedConfig::default(),
            macros: KeyedVec::new(),
        }
    }
}

/// The position of the first display name equal to `label`, or -1.
pub open spec fn first_with_label(items: Seq<(String, String)>, label: Seq<char>, i: int) -> int
    decreases items.len() - i,
{
    if i < 0 || i >= items.len() {
        -1
    } else if items[i].1@ == label {
        i
    } else {
        first_with_label(items, label, i + 1)
    }
}

proof fn lemma_first_with_label(items: Seq<(String, String)>, label: Seq<char>, i: int)
    requires
        0 <= i,
    ensures
        first_with_label(items, label, i) == -1 || (i <= first_with_label(items, label, i) < items.len()
            && items[first_with_label(items, label, i)].1@ == label),
    decreases items.len() - i,
{
    if i < items.len() && items[i].1@ != label {
        lemma_first_with_label(items, label, i + 1);
    }
}

/// The message for a name found only among the display names.
pub open spec fn names_hint_message(name: Seq<char>, index: Seq<char>) -> Seq<char> {
    "Unknown channel '"@ + name + "': audio.channel_names labels channel "@ + index + " as '"@
        + name + "', but routing resolves against audio.channel_aliases - add \""@ + name
        + "\": "@ + index + " there"@
}

/// What resolving a channel reference against a configuration gives: as
/// against the alias map, but an unknown name that labels a channel in
/// `channel_names` gets a message saying which entry to add.
pub open spec fn spec_resolve_channel(cfg: Config, c: ChannelRef) -> Result<usize, Seq<char>> {
    match spec_resolve(c, cfg.audio.channel_aliases@) {
        Ok(i) => Ok(i),
        Err(e) => match c {
            ChannelRef::Alias(name) => {
                let items = cfg.audio.channel_names.items();
                let j = first_with_label(items, name@, 0);
                if j >= 0 {
                    Err(names_hint_message(name@, items[j].0@))
                } else {
                    Err(e)
                }
            },
            ChannelRef::Index(_) => Err(e),
        },
    }
}

/// What resolving a `channel_volumes` key gives: a channel number, an alias,
/// or a display name whose key is a channel number.
pub open spec fn spec_resolve_volume_key(cfg: Config, key: Seq<char>) -> Result<usize, Seq<char>> {
    match spec_parse_usize(key) {
        Some(i) => Ok(i),
        None => if cfg.audio.channel_aliases@.contains_key(key) {
            Ok(cfg.audio.channel_aliases@[key])
        } else {
            let items = cfg.audio.channel_names.items();
            let j = first_with_label(items, key, 0);
            if j >= 0 {
                match spec_parse_usize(items[j].0@) {
                    Some(i) => Ok(i),
                    None => Err("channel_names key '"@ + items[j].0@ + "' is not a channel number"@),
                }
            } else {
                Err("'"@ + key
                    + "' is not a channel number, an audio.channel_aliases entry, or an audio.channel_names value"@)
            }
        },
    }
}

impl Config {
    /// The first display name equal to `label`.
    fn find_label(&self, label: &str) -> (r: Option<usize>)
        requires
            self.wf(),
        ensures
            match r {
                Some(j) => j == first_with_label(self.audio.channel_names.items(), label@, 0) && j
                    < self.audio.channel_names.items().len(),
                None => first_with_label(self.audio.channel_names.items(), label@, 0) == -1,
            },
    {
        let n = self.audio.channel_names.len();
        let mut j: usize = 0;
        while j < n
            invariant
                self.wf(),
                n == self.audio.channel_names.items().len(),
                j <= n,
                first_with_label(self.audio.channel_names.items(), label@, 0) == first_with_label(
                    self.audio.channel_names.items(),
                    label@,
                    j as int,
                ),
            decreases n - j,
        {
            let item = self.audio.channel_names.item(j);
            if crate::keyed::same_text(item.1.as_str(), label) {
                return Some(j);
            }
            j += 1;
        }
        None
    }

    /// Resolve a channel reference with this configuration's aliases. A name
    /// found only among the display names (`audio.channel_names`) is reported
    /// with the alias entry that would fix it.
    pub fn resolve_channel(&self, channel: &ChannelRef) -> (r: Result<usize, String>)
        requires
            self.wf(),
        ensures
            result_view(r) == spec_resolve_channel(*self, *channel),
    {
        match channel.resolve(&self.audio.channel_aliases) {
            Ok(i) => Ok(i),
            Err(e) => match channel {
                ChannelRef::Alias(name) => match self.find_label(name.as_str()) {
                    Some(j) => {
                        proof {
                            lemma_first_with_label(self.audio.channel_names.items(), name@, 0);
                        }
                        let index = &self.audio.channel_names.item(j).0;
                        let mut m = "Unknown channel '".to_owned();
                        m.append(name.as_str());
                        m.append("': audio.channel_names labels channel ");
                        m.append(index.as_str());
                        m.append(" as '");
                        m.append(name.as_str());
                        m.append("', but routing resolves against audio.channel_aliases - add \"");
                        m.append(name.as_str());
                        m.append("\": ");
                        m.append(index.as_str());
                        m.append(" there");
                        Err(m)
                    },
                    None => Err(e),
                },
                ChannelRef::Index(_) => Err(e),
            },
        }
    }

    /// Resolve a `channel_volumes` key to a channel number: a number, an alias
    /// from `audio.channel_aliases`, or a name from `audio.channel_names`.
    pub fn resolve_channel_volume_key(&self, key: &str) -> (r: Result<usize, String>)
        requires
            self.wf(),
        ensures
            result_view(r) == spec_resolve_volume_key(*self, key@),
    {
        match parse_usize(key) {
            Some(index) => return Ok(index),
            None => {},
        }
        match self.audio.channel_aliases.get(key) {
            Some(index) => return Ok(*index),
            None => {},
        }
        match self.find_label(key) {
            Some(j) => {
                proof {
                    lemma_first_with_label(self.audio.channel_names.items(), key@, 0);
                }
                let index = &self.audio.channel_names.item(j).0;
                match parse_usize(index.as_str()) {
                    Some(i) => Ok(i),
                    None => {
                        let mut m = "channel_names key '".to_owned();
                        m.append(index.as_str());
                        m.append("' is not a channel number");
                        Err(m)
                    },
                }
            },
            None => {
                let mut m = "'".to_owned();
                m.append(key);
                m.append(
                    "' is not a channel number, an audio.channel_aliases entry, or an audio.channel_names value",
                );
                Err(m)
            },
        }
    }

    /// Resolve the bass management channel references to numbers.
    pub fn resolve_bass_management(&self) -> (r: Result<ResolvedBassManagement, String>)
        requires
            self.wf(),
        ensures
            match r {
                Ok(b) => {
                    &&& spec_resolve_channel(*self, self.bass_management.lfe_channel) == Ok::<
                        usize,
                        Seq<char>,
                    >(b.lfe_channel)
                    &&& b.source_channels@.len() == self.bass_management.source_channels@.len()
                    &&& forall|i: int|
                        0 <= i < b.source_channels@.len() ==> spec_resolve_channel(
                            *self,
                            self.bass_management.source_channels@[i],
                        ) == Ok::<usize, Seq<char>>(#[trigger] b.source_channels@[i])
                    &&& b.enabled == self.bass_management.enabled
                    &&& b.crossover_frequency_hz == self.bass_management.crossover_frequency_hz
                    &&& b.remove_bass_from_sources == self.bass_management.remove_bass_from_sources
                },
                Err(e) => spec_resolve_channel(*self, self.bass_management.lfe_channel) == Err::<
                    usize,
                    Seq<char>,
                >(e@) || exists|i: int|
                    0 <= i < self.bass_management.source_channels@.len() && spec_resolve_channel(
                        *self,
                        self.bass_management.source_channels@[i],
                    ) == Err::<usize, Seq<char>>(e@) && forall|k: int|
                        0 <= k < i ==> #[trigger] spec_resolve_channel(
                            *self,
                            self.bass_management.source_channels@[k],
                        ) is Ok,
            },
    {
        let lfe = match self.resolve_channel(&self.bass_management.lfe_channel) {
            Ok(v) => v,
            Err(e) => return Err(e),
        };
        let mut sources: Vec<usize> = Vec::new();
        let n = self.bass_management.source_channels.len();
        let mut i: usize = 0;
        while i < n
            invariant
                self.wf(),
                n == self.bass_management.source_channels@.len(),
                i <= n,
                sources@.len() == i,
                forall|k: int|
                    0 <= k < i ==> spec_resolve_channel(
                        *self,
                        self.bass_management.source_channels@[k],
                    ) == Ok::<usize, Seq<char>>(#[trigger] sources@[k]),
            decreases n - i,
        {
            match self.resolve_channel(&self.bass_management.source_channels[i]) {
                Ok(v) => sources.push(v),
                Err(e) => {
                    proof {
                        assert forall|k: int| 0 <= k < i implies #[trigger] spec_resolve_channel(
                            *self,
                            self.bass_management.source_channels@[k],
                        ) is Ok by {
                            assert(spec_resolve_channel(*self, self.bass_management.source_channels@[k])
                                == Ok::<usize, Seq<char>>(sources@[k]));
                        }
                    }
                    return Err(e);
                },
            }
            i += 1;
        }
        Ok(
            ResolvedBassManagement {
                enabled: self.bass_management.enabled,
                lfe_channel: lfe,
                crossover_frequency_hz: self.bass_management.crossover_frequency_hz,
                source_channels: sources,
                remove_bass_from_sources: self.bass_management.remove_bass_from_sources,
            },
        )
    }

    /// Resolve input routes to `(source, destination)` channel numbers; the
    /// first route that does not resolve gives the error.
    pub fn resolve_input_routes(&self, routes: &Vec<InputRouteConfig>) -> (r: Result<
        Vec<(usize, usize)>,
        String,
    >)
        requires
            self.wf(),
        ensures
            match r {
                Ok(v) => v@.len() == routes@.len() && forall|i: int|
                    0 <= i < v@.len() ==> spec_resolve_channel(*self, routes@[i].source_channel)
                        == Ok::<usize, Seq<char>>((#[trigger] v@[i]).0) && spec_resolve_channel(
                        *self,
                        routes@[i].dest_channel,
                    ) == Ok::<usize, Seq<char>>(v@[i].1),
                Err(e) => exists|i: int|
                    0 <= i < routes@.len() && (spec_resolve_channel(*self, routes@[i].source_channel)
                        == Err::<usize, Seq<char>>(e@) || (spec_resolve_channel(
                        *self,
                        routes@[i].source_channel,
                    ) is Ok && spec_resolve_channel(*self, routes@[i].dest_channel) == Err::<
                        usize,
                        Seq<char>,
                    >(e@))),
            },
    {
        let mut out: Vec<(usize, usize)> = Vec::new();
        let n = routes.len();
        let mut i: usize = 0;
        while i < n
            invariant
                self.wf(),
                n == routes@.len(),
                i <= n,
                out@.len() == i,
                forall|k: int|
                    0 <= k < i ==> spec_resolve_channel(*self, routes@[k].source_channel) == Ok::<
                        usize,
                        Seq<char>,
                    >((#[trigger] out@[k]).0) && spec_resolve_channel(*self, routes@[k].dest_channel)
                        == Ok::<usize, Seq<char>>(out@[k].1),
            decreases n - i,
        {
            let src = match self.resolve_channel(&routes[i].source_channel) {
                Ok(v) => v,
                Err(e) => return Err(e),
            };
            let dest = match self.resolve_channel(&routes[i].dest_channel) {
                Ok(v) => v,
                Err(e) => return Err(e),
            };
            out.push((src, dest));
            i += 1;
        }
        Ok(out)
    }

    /// Per-channel output gains for `output_channels` channels: unity (1.0)
    /// unless `audio.channel_volumes` sets one; entries beyond the channel
    /// count are ignored. A key that does not resolve is an error.
    pub fn resolve_channel_gains(&self, output_channels: usize) -> (r: Result<Vec<FloatBits>, String>)
        requires
            self.wf(),
        ensures
            match r {
                Ok(g) => {
                    &&& g@.len() == output_channels
                    &&& forall|i: int|
                        0 <= i < self.audio.channel_volumes.items().len() ==> spec_resolve_volume_key(
                            *self,
                            #[trigger] self.audio.channel_volumes.items()[i].0@,
                        ) is Ok
                    &&& forall|c: int|
                        0 <= c < output_channels ==> #[trigger] g@[c] == gain_for(
                            *self,
                            c,
                            self.audio.channel_volumes.items().len() as int,
                        )
                },
                Err(e) => exists|i: int|
                    0 <= i < self.audio.channel_volumes.items().len() && spec_resolve_volume_key(
                        *self,
                        self.audio.channel_volumes.items()[i].0@,
                    ) == Err::<usize, Seq<char>>(e@),
            },
    {
        let mut gains: Vec<FloatBits> = Vec::new();
        let mut c: usize = 0;
        while c < output_channels
            invariant
                c <= output_channels,
                gains@.len() == c,
                forall|k: int| 0 <= k < c ==> gains@[k] == FloatBits(ONE_BITS),
            decreases output_channels - c,
        {
            gains.push(FloatBits(ONE_BITS));
            c += 1;
        }
        let n = self.audio.channel_volumes.len();
        let mut i: usize = 0;
        while i < n
            invariant
                self.wf(),
                n == self.audio.channel_volumes.items().len(),
                i <= n,
                gains@.len() == output_channels,
                forall|k: int|
                    0 <= k < i ==> spec_resolve_volume_key(
                        *self,
                        #[trigger] self.audio.channel_volumes.items()[k].0@,
                    ) is Ok,
                forall|ch: int| 0 <= ch < output_channels ==> #[trigger] gains@[ch] == gain_for(*self, ch, i as int),
            decreases n - i,
        {
            let item = self.audio.channel_volumes.item(i);
            match self.resolve_channel_volume_key(item.0.as_str()) {
                Ok(index) => {
                    if index < output_channels {
                        gains.set(index, item.1);
                    }
                },
                Err(e) => return Err(e),
            }
            i += 1;
        }
        Ok(gains)
    }
}

/// The gain channel `ch` ends up with after applying the first `n`
/// `channel_volumes` entries in order (later entries for the same channel win);
/// unity when none of them names it.
pub open spec fn gain_for(cfg: Config, ch: int, n: int) -> FloatBits
    decreases n,
{
    if n <= 0 {
        FloatBits(ONE_BITS)
    } else {
        let item = cfg.audio.channel_volumes.items()[n - 1];
        match spec_resolve_volume_key(cfg, item.0@) {
            Ok(index) => if index == ch {
                item.1
            } else {
                gain_for(cfg, ch, n - 1)
            },
            Err(_) => gain_for(cfg, ch, n - 1),
        }
    }
}

// ---------------------------------------------------------------------------
// Command-line overrides
// ---------------------------------------------------------------------------

impl Config {
    /// Apply command-line arguments over the file settings: each argument
    /// given replaces its setting. `verbose` also sets the level to `debug`;
    /// an HTTP port also enables the HTTP server.
    pub fn merge_cli_args(
        &mut self,
        server: Option<String>,
        port: Option<u16>,
        topic: Option<String>,
        device: Option<String>,
        sample_rate: Option<u32>,
        channels: Option<usize>,
        verbose: bool,
        lfe_channel: Option<usize>,
        crossover_frequency: Option<FloatBits>,
        log_topic: Option<String>,
        mqtt_username: Option<String>,
        mqtt_password: Option<String>,
        http_port: Option<u16>,
        max_cache_mb: Option<u32>,
    )
        ensures
            final(self).mqtt.server == (match server {
                Some(v) => v,
                None => old(self).mqtt.server,
            }),
            final(self).mqtt.port == (match port {
                Some(v) => v,
                None => old(self).mqtt.port,
            }),
            final(self).mqtt.topic == (match topic {
                Some(v) => Some(v),
                None => old(self).mqtt.topic,
            }),
            final(self).mqtt.username == (match mqtt_username {
                Some(v) => Some(v),
                None => old(self).mqtt.username,
            }),
            final(self).mqtt.password == (match mqtt_password {
                Some(v) => Some(v),
                None => old(self).mqtt.password,
            }),
            final(self).mqtt.client_id == old(self).mqtt.client_id,
            final(self).mqtt.reconnect_delay_seconds == old(self).mqtt.reconnect_delay_seconds,
            final(self).audio.device == (match device {
                Some(v) => Some(v),
                None => old(self).audio.device,
            }),
            final(self).audio.sample_rate == (match sample_rate {
                Some(v) => v,
                None => old(self).audio.sample_rate,
            }),
            final(self).audio.channels == (match channels {
                Some(v) => Some(v),
                None => old(self).audio.channels,
            }),
            final(self).audio.buffer_size == old(self).audio.buffer_size,
            final(self).audio.channel_names == old(self).audio.channel_names,
            final(self).audio.channel_volumes == old(self).audio.channel_volumes,
            final(self).audio.channel_aliases == old(self).audio.channel_aliases,
            final(self).logging.verbose == (verbose || old(self).logging.verbose),
            verbose ==> final(self).logging.level@ == "debug"@,
            !verbose ==> final(self).logging.level == old(self).logging.level,
            final(self).logging.mqtt_topic == (match log_topic {
                Some(v) => Some(v),
                None => old(self).logging.mqtt_topic,
            }),
            final(self).bass_management.lfe_channel == (match lfe_channel {
                Some(v) => ChannelRef::Index(v),
                None => old(self).bass_management.lfe_channel,
            }),
            final(self).bass_management.crossover_frequency_hz == (match crossover_frequency {
                Some(v) => v,
                None => old(self).bass_management.crossover_frequency_hz,
            }),
            final(self).bass_management.enabled == old(self).bass_management.enabled,
            final(self).bass_management.source_channels == old(self).bass_management.source_channels,
            final(self).bass_management.remove_bass_from_sources
                == old(self).bass_management.remove_bass_from_sources,
            final(self).http.enabled == (http_port is Some || old(self).http.enabled),
            final(self).http.port == (match http_port {
                Some(v) => v,
                None => old(self).http.port,
            }),
            final(self).http.bind_address == old(self).http.bind_address,
            final(self).http.auth_token == old(self).http.auth_token,
            final(self).http.websocket_enabled == old(self).http.websocket_enabled,
            final(self).http.cors_permissive == old(self).http.cors_permissive,
            final(self).cache.max_memory_mb == (match max_cache_mb {
                Some(v) => v,
                None => old(self).cache.max_memory_mb,
            }),
            final(self).cache.enabled == old(self).cache.enabled,
            final(self).cache.directory == old(self).cache.directory,
            final(self).cache.precache == old(self).cache.precache,
            final(self).security == old(self).security,
            final(self).ducking_rules == old(self).ducking_rules,
            final(self).inputs == old(self).inputs,
            final(self).advanced == old(self).advanced,
            final(self).macros == old(self).macros,
    {
        self.mqtt.merge_overrides(server, port, topic, mqtt_username, mqtt_password);
        self.audio.merge_overrides(device, sample_rate, channels);
        self.logging.merge_overrides(verbose, log_topic);
        self.bass_management.merge_overrides(lfe_channel, crossover_frequency);
        if let Some(hp) = http_port {
            self.http.enabled = true;
            self.http.port = hp;
        }
        if let Some(max_mb) = max_cache_mb {
            self.cache.max_memory_mb = max_mb;
        }
    }
}

impl MqttConfig {
    fn merge_overrides(
        &mut self,
        server: Option<String>,
        port: Option<u16>,
        topic: Option<String>,
        username: Option<String>,
        password: Option<String>,
    )
        ensures
            final(self).server == (match server {
                Some(v) => v,
                None => old(self).server,
            }),
            final(self).port == (match port {
                Some(v) => v,
                None => old(self).port,
            }),
            final(self).topic == (match topic {
                Some(v) => Some(v),
                None => old(self).topic,
            }),
            final(self).username == (match username {
                Some(v) => Some(v),
                None => old(self).username,
            }),
            final(self).password == (match password {
                Some(v) => Some(v),
                None => old(self).password,
            }),
            final(self).client_id == old(self).client_id,
            final(self).reconnect_delay_seconds == old(self).reconnect_delay_seconds,
    {
        if let Some(s) = server {
            self.server = s;
        }
        if let Some(p) = port {
            self.port = p;
        }
        if let Some(t) = topic {
            self.topic = Some(t);
        }
        if let Some(u) = username {
            self.username = Some(u);
        }
        if let Some(p) = password {
            self.password = Some(p);
        }
    }
}

impl LoggingConfig {
    fn merge_overrides(&mut self, verbose: bool, log_topic: Option<String>)
        ensures
            final(self).verbose == (verbose || old(self).verbose),
            verbose ==> final(self).level@ == "debug"@,
            !verbose ==> final(self).level == old(self).level,
            final(self).mqtt_topic == (match log_topic {
                Some(v) => Some(v),
                None => old(self).mqtt_topic,
            }),
    {
        if verbose {
            self.verbose = true;
            self.level = "debug".to_owned();
        }
        if let Some(lt) = log_topic {
            self.mqtt_topic = Some(lt);
        }
    }
}

impl BassManagementConfig {
    fn merge_overrides(&mut self, lfe_channel: Option<usize>, crossover_frequency: Option<FloatBits>)
        ensures
            final(self).lfe_channel == (match lfe_channel {
                Some(v) => ChannelRef::Index(v),
                None => old(self).lfe_channel,
            }),
            final(self).crossover_frequency_hz == (match crossover_frequency {
                Some(v) => v,
                None => old(self).crossover_frequency_hz,
            }),
            final(self).enabled == old(self).enabled,
            final(self).source_channels == old(self).source_channels,
            final(self).remove_bass_from_sources == old(self).remove_bass_from_sources,
    {
        if let Some(ch) = lfe_channel {
            self.lfe_channel = ChannelRef::Index(ch);
        }
        if let Some(freq) = crossover_frequency {
            self.crossover_frequency_hz = freq;
        }
    }
}

impl AudioConfig {
    fn merge_overrides(&mut self, device: Option<String>, sample_rate: Option<u32>, channels: Option<usize>)
        ensures
            final(self).device == (match device {
                Some(v) => Some(v),
                None => old(self).device,
            }),
            final(self).sample_rate == (match sample_rate {
                Some(v) => v,
                None => old(self).sample_rate,
            }),
            final(self).channels == (match channels {
                Some(v) => Some(v),
                None => old(self).channels,
            }),
            final(self).buffer_size == old(self).buffer_size,
            final(self).channel_names == old(self).channel_names,
            final(self).channel_volumes == old(self).channel_volumes,
            final(self).channel_aliases == old(self).channel_aliases,
    {
        if let Some(d) = device {
            self.device = Some(d);
        }
        if let Some(sr) = sample_rate {
            self.sample_rate = sr;
        }
        if let Some(ch) = channels {
            self.channels = Some(ch);
        }
    }
}

// ---------------------------------------------------------------------------
// Local paths
// ---------------------------------------------------------------------------

/// Whether a path is an HTTP or HTTPS URL.
pub open spec fn is_url(p: Seq<char>) -> bool {
    "http://"@.is_prefix_of(p) || "https://"@.is_prefix_of(p)
}

/// Whether `path` is an HTTP or HTTPS URL.
pub fn is_url_path(path: &str) -> (r: bool)
    ensures
        r == is_url(path@),
{
    has_prefix(path, "http://") || has_prefix(path, "https://")
}

/// A leading `~/` expanded with the home directory, when one is known; any
/// other path is unchanged.
pub open spec fn spec_expand_tilde(path: Seq<char>, home: Option<Seq<char>>) -> Seq<char> {
    match home {
        Some(h) => if "~/"@.is_prefix_of(path) {
            h + path.subrange(1, path.len() as int)
        } else {
            path
        },
        None => path,
    }
}

/// The text view of an optional string.
pub open spec fn opt_text(o: Option<&str>) -> Option<Seq<char>> {
    match o {
        Some(s) => Some(s@),
        None => None,
    }
}

/// Expand a leading `~/` with the home directory `home` (see [`spec_expand_tilde`]).
pub fn expand_tilde_with(path: &str, home: Option<&str>) -> (r: String)
    ensures
        r@ == spec_expand_tilde(path@, opt_text(home)),
{
    match home {
        Some(h) => {
            if has_prefix(path, "~/") {
                proof {
                    reveal_strlit("~/");
                }
                let mut out = h.to_owned();
                out.append(path.substring_char(1, path.unicode_len()));
                out
            } else {
                path.to_owned()
            }
        },
        None => path.to_owned(),
    }
}

/// Whether the resolved path `p` lies in the resolved directory `d`, compared
/// by whole path components: `d` itself, or below it.
pub open spec fn inside_dir(p: Seq<char>, d: Seq<char>) -> bool {
    p == d || (d.len() > 0 && d.last() == '/' && d.is_prefix_of(p)) || (d + seq!['/']).is_prefix_of(p)
}

/// Whether the resolved path `p` lies in the resolved directory `d`.
pub fn inside_dir_text(p: &str, d: &str) -> (r: bool)
    ensures
        r == inside_dir(p@, d@),
{
    if crate::keyed::same_text(p, d) {
        return true;
    }
    if !has_prefix(p, d) {
        proof {
            if (d@ + seq!['/']).is_prefix_of(p@) {
                assert(d@ =~= p@.subrange(0, d@.len() as int));
            }
        }
        return false;
    }
    let n = d.unicode_len();
    if n > 0 && d.get_char(n - 1) == '/' {
        return true;
    }
    let r = p.unicode_len() > n && p.get_char(n) == '/';
    proof {
        if r {
            assert((d@ + seq!['/']) =~= p@.subrange(0, n + 1));
        }
        if (d@ + seq!['/']).is_prefix_of(p@) {
            assert(p@[n as int] == (d@ + seq!['/'])[n as int]);
        }
    }
    r
}

/// Whether one of the resolved allowed directories holds the resolved path `p`.
pub open spec fn allowed_by(p: Seq<char>, allowed: Seq<Option<String>>) -> bool {
    exists|i: int| 0 <= i < allowed.len() && #[trigger] dir_holds(allowed[i], p)
}

/// Whether a resolved allowed directory (if it resolved) holds `p`.
pub open spec fn dir_holds(entry: Option<String>, p: Seq<char>) -> bool {
    entry matches Some(d) && inside_dir(p, d@)
}

/// The text view of a result holding strings either way.
pub open spec fn text_result(r: Result<String, String>) -> Result<Seq<char>, Seq<char>> {
    match r {
        Ok(v) => Ok(v@),
        Err(e) => Err(e@),
    }
}

/// The decision on a local path once it and the allowed directories have been
/// resolved (`None` for a directory that did not resolve).
pub open spec fn spec_path_decision(
    path: Seq<char>,
    resolved: Result<Seq<char>, Seq<char>>,
    allowed: Seq<Option<String>>,
) -> Result<(), Seq<char>> {
    match resolved {
        Err(e) => Err("Cannot resolve path '"@ + path + "': "@ + e),
        Ok(p) => if allowed_by(p, allowed) {
            Ok(())
        } else {
            Err("'"@ + path + "' is outside security.allowed_directories; add its directory there to permit it"@)
        },
    }
}

/// Decide whether the local path `path` may be used, from its resolved form
/// (or the error resolving it gave) and the resolved allowed directories.
pub fn check_resolved_path(path: &str, resolved: Result<String, String>, allowed: &Vec<Option<String>>) -> (r: Result<(), String>)
    ensures
        result_view(r) == spec_path_decision(path@, text_result(resolved), allowed@),
{
    match resolved {
        Err(e) => {
            let mut m = "Cannot resolve path '".to_owned();
            m.append(path);
            m.append("': ");
            m.append(e.as_str());
            Err(m)
        },
        Ok(p) => {
            let mut i: usize = 0;
            while i < allowed.len()
                invariant
                    text_result(resolved) == Ok::<Seq<char>, Seq<char>>(p@),
                    i <= allowed@.len(),
                    forall|k: int| 0 <= k < i ==> !#[trigger] dir_holds(allowed@[k], p@),
                decreases allowed@.len() - i,
            {
                match &allowed[i] {
                    Some(d) => {
                        if inside_dir_text(p.as_str(), d.as_str()) {
                            proof {
                                assert(dir_holds(allowed@[i as int], p@));
                            }
                            return Ok(());
                        }
                    },
                    None => {},
                }
                proof {
                    assert(!dir_holds(allowed@[i as int], p@));
                }
                i += 1;
            }
            let mut m = "'".to_owned();
            m.append(path);
            m.append("' is outside security.allowed_directories; add its directory there to permit it");
            Err(m)
        },
    }
}

impl Config {
    /// Whether a path has to be checked against `security.allowed_directories`:
    /// URLs never are, and an empty list leaves local playback unrestricted.
    pub fn path_needs_check(&self, path: &str) -> (r: bool)
        ensures
            r == (!is_url(path@) && self.security.allowed_directories@.len() > 0),
    {
        !is_url_path(path) && self.security.allowed_directories.len() > 0
    }
}


/// The audio file extensions a precached directory contributes.
pub open spec fn audio_extensions() -> Seq<Seq<char>> {
    seq!["wav"@, "mp3"@, "ogg"@, "flac"@]
}

/// Whether a file extension (in any case) names an audio file precaching
/// takes from a directory: `wav`, `mp3`, `ogg` or `flac`.
pub fn is_audio_extension(ext: &str) -> (r: bool)
    ensures
        r == audio_extensions().contains(crate::fields::spec_lowercase(ext@)),
{
    let lower = crate::fields::lowercase(ext);
    let l = lower.as_str();
    let r = crate::keyed::same_text(l, "wav") || crate::keyed::same_text(l, "mp3")
        || crate::keyed::same_text(l, "ogg") || crate::keyed::same_text(l, "flac");
    proof {
        let e = audio_extensions();
        if r {
            if l@ == "wav"@ { assert(e[0] == l@); }
            if l@ == "mp3"@ { assert(e[1] == l@); }
            if l@ == "ogg"@ { assert(e[2] == l@); }
            if l@ == "flac"@ { assert(e[3] == l@); }
        }
    }
    r
}

} // verus!
