//! The settings the configuration editor knows: for each, where it lives in
//! the document, how it is edited, and what the user is told about it.

use crate::editor::Section;
use crate::fields::{FieldKind, StructListKind};
use vstd::prelude::*;

verus! {

/// A top-level setting: its section, label, path of keys, kind and help.
#[derive(Clone, Copy)]
pub struct FieldSpec {
    pub section: Section,
    pub label: &'static str,
    pub path: &'static [&'static str],
    pub kind: FieldKind,
    pub help: &'static str,
}

/// A field of one structure in a list (a ducking rule, an input, a route),
/// or a known parameter of a macro.
#[derive(Clone, Copy)]
pub struct SubFieldSpec {
    pub key: &'static str,
    pub label: &'static str,
    pub kind: FieldKind,
    pub help: &'static str,
}

/// The editor's tables: every setting in display order, the fields of each
/// kind of structure in a list, and the known macro parameters.
pub struct Tables {
    pub fields: Vec<FieldSpec>,
    pub ducking_rule: Vec<SubFieldSpec>,
    pub route: Vec<SubFieldSpec>,
    pub input: Vec<SubFieldSpec>,
    pub macro_params: Vec<SubFieldSpec>,
}

/// What the registry holds for each setting, in display order: its section,
/// label, path of keys, kind and help.
pub open spec fn registry_table() -> Seq<(Section, Seq<char>, Seq<&'static str>, FieldKind, Seq<char>)> {
    seq![
        (Section::Mqtt, "server"@, seq!["mqtt", "server"], FieldKind::Text, "MQTT broker hostname or IP address."@),
        (Section::Mqtt, "port"@, seq!["mqtt", "port"], FieldKind::UInt { min: 1, max: 65535 }, "MQTT broker TCP port (plain default 1883, TLS commonly 8883)."@),
        (Section::Mqtt, "topic"@, seq!["mqtt", "topic"], FieldKind::OptionalText, "Topic to subscribe to for commands (wildcards # and + work). Required unless the HTTP server is enabled."@),
        (Section::Mqtt, "client_id"@, seq!["mqtt", "client_id"], FieldKind::OptionalText, "MQTT client id. Unset auto-generates mqttaudio_<pid>."@),
        (Section::Mqtt, "reconnect_delay_seconds"@, seq!["mqtt", "reconnect_delay_seconds"], FieldKind::UInt { min: 1, max: 86400 }, "Seconds to wait before reconnecting after losing the broker."@),
        (Section::Mqtt, "username"@, seq!["mqtt", "username"], FieldKind::OptionalText, "Broker username for authentication. Unset = anonymous."@),
        (Section::Mqtt, "password"@, seq!["mqtt", "password"], FieldKind::Secret, "Broker password. Sent in cleartext unless TLS is enabled."@),
        (Section::Mqtt, "tls"@, seq!["mqtt", "tls"], FieldKind::Flag, "Enable TLS to the broker. Off = plain TCP (even on port 8883)."@),
        (Section::Mqtt, "tls.ca_path"@, seq!["mqtt", "tls", "ca_path"], FieldKind::OptionalText, "PEM CA certificate to trust (self-signed/private brokers). Unset uses the system root store. Setting this enables TLS."@),
        (Section::Audio, "device"@, seq!["audio", "device"], FieldKind::OutputDevice, "Audio output device. Unset uses the system default. Enter opens the device picker with live testing."@),
        (Section::Audio, "sample_rate"@, seq!["audio", "sample_rate"], FieldKind::UInt { min: 8000, max: 192000 }, "Output sample rate in Hz (8000 - 192000). Default 48000."@),
        (Section::Audio, "channels"@, seq!["audio", "channels"], FieldKind::OptionalUInt { min: 1, max: 65535 }, "Number of output channels. Unset auto-detects from the device."@),
        (Section::Audio, "buffer_size"@, seq!["audio", "buffer_size"], FieldKind::UInt { min: 64, max: 8192 }, "Buffer size in frames (64 - 8192). Smaller = lower latency, higher CPU. Default 512."@),
        (Section::Audio, "channel_aliases"@, seq!["audio", "channel_aliases"], FieldKind::MapToUInt, "Friendly names for output channel numbers (e.g. front_left = 0, lfe = 3). Once defined, every channel field — bass management, input routes, channel volumes — can use the name instead of the number, and the channel pickers offer them."@),
        (Section::Audio, "channel_volumes"@, seq!["audio", "channel_volumes"], FieldKind::MapToFloat { min: 0x0, max: 0x3ff0000000000000 }, "Per-channel calibration gain (key: channel number or alias, value 0.0 - 1.0). Unlisted channels stay at 1.0."@),
        (Section::Audio, "output_ceiling_db"@, seq!["audio", "output_ceiling_db"], FieldKind::Float { min: 0xc04e000000000000, max: 0x0 }, "Limiter ceiling in dBFS; the output peak is held at or below it. Default -1.0."@),
        (Section::Audio, "master_gain"@, seq!["audio", "master_gain"], FieldKind::Float { min: 0x0, max: 0x4020000000000000 }, "Linear gain applied to the summed bus before limiting. Default 1.0 (unity)."@),
        (Section::Cache, "enabled"@, seq!["cache", "enabled"], FieldKind::Bool, "Cache decoded audio on disk for fast replays. Default on."@),
        (Section::Cache, "directory"@, seq!["cache", "directory"], FieldKind::Text, "Cache directory (~ expands to home). Default ~/.mqttaudio/cache."@),
        (Section::Cache, "revalidate_after_seconds"@, seq!["cache", "revalidate_after_seconds"], FieldKind::UInt { min: 0, max: 4294967295 }, "Revalidation window for remote (HTTP) cache entries in seconds. 0 = always re-check. Default 300."@),
        (Section::Cache, "precache"@, seq!["cache", "precache"], FieldKind::StringList, "Files, directories (non-recursive), or HTTP URLs to cache at startup."@),
        (Section::Cache, "precache_blocking"@, seq!["cache", "precache_blocking"], FieldKind::Bool, "Block startup until precache finishes (on, default) or load in the background (off)."@),
        (Section::Cache, "max_memory_mb"@, seq!["cache", "max_memory_mb"], FieldKind::UInt { min: 0, max: 4294967295 }, "Memory cache cap in MiB. 0 (default) auto-detects a bounded cap. Overridden by memory_budget."@),
        (Section::Cache, "memory_budget"@, seq!["cache", "memory_budget"], FieldKind::MemoryBudget, "Advanced memory cap: auto (fraction of RAM, clamped), explicit (fixed MiB), or unlimited. Overrides max_memory_mb."@),
        (Section::Cache, "load_mode"@, seq!["cache", "load_mode"], FieldKind::Enum(&["auto", "full", "stream"]), "Default load strategy: auto (size/duration decides), full (in-memory, all features), stream (bounded memory, forward-only)."@),
        (Section::Cache, "full_load_max_bytes"@, seq!["cache", "full_load_max_bytes"], FieldKind::UInt { min: 0, max: 18446744073709551615 }, "Auto threshold: assets with a larger estimated decoded size are streamed. Default 33554432 (32 MiB)."@),
        (Section::Cache, "full_load_max_seconds"@, seq!["cache", "full_load_max_seconds"], FieldKind::UInt { min: 0, max: 4294967295 }, "Auto threshold: assets longer than this many seconds are streamed. Default 60."@),
        (Section::Cache, "stream_window_ms"@, seq!["cache", "stream_window_ms"], FieldKind::UInt { min: 100, max: 60000 }, "Streamed-source ring depth in ms; bounds per-stream memory (100 - 60000). Default 1500."@),
        (Section::Cache, "stream_prebuffer_ms"@, seq!["cache", "stream_prebuffer_ms"], FieldKind::UInt { min: 0, max: 60000 }, "Audio prebuffered before a streamed source starts (ms). Must not exceed stream_window_ms. Default 150."@),
        (Section::Cache, "stream_prebuffer_deadline_ms"@, seq!["cache", "stream_prebuffer_deadline_ms"], FieldKind::UInt { min: 0, max: 600000 }, "Max wait for the prebuffer before starting anyway (ms). Must be >= stream_prebuffer_ms. Default 300."@),
        (Section::Cache, "freshness"@, seq!["cache", "freshness"], FieldKind::Enum(&["trusting", "dev", "pinned"]), "Cache freshness: trusting (serve cache, refresh in background), dev (re-check every load), pinned (never auto-check)."@),
        (Section::Security, "allowed_directories"@, seq!["security", "allowed_directories"], FieldKind::StringList, "Whitelist of directories for local file playback (~ expands). Empty = any path allowed."@),
        (Section::Logging, "level"@, seq!["logging", "level"], FieldKind::Enum(&["error", "warn", "info", "debug", "trace"]), "Log level. Default info."@),
        (Section::Logging, "verbose"@, seq!["logging", "verbose"], FieldKind::Bool, "Verbose mode; equivalent to level = debug."@),
        (Section::Logging, "format"@, seq!["logging", "format"], FieldKind::Enum(&["text", "json"]), "Console log format: text (human-readable) or json (line-delimited, for log aggregation)."@),
        (Section::Logging, "mqtt_topic"@, seq!["logging", "mqtt_topic"], FieldKind::OptionalText, "MQTT topic to publish log records to as JSON. Unset = off."@),
        (Section::Http, "enabled"@, seq!["http", "enabled"], FieldKind::Bool, "Enable the HTTP REST/WebSocket server. Default off."@),
        (Section::Http, "port"@, seq!["http", "port"], FieldKind::UInt { min: 0, max: 65535 }, "Port to listen on. 0 = auto-select an available port."@),
        (Section::Http, "bind_address"@, seq!["http", "bind_address"], FieldKind::Text, "Bind address. Default 127.0.0.1 (loopback only) for security."@),
        (Section::Http, "auth_token"@, seq!["http", "auth_token"], FieldKind::Secret, "Bearer token protecting command routes (min 8 characters). Unset = open."@),
        (Section::Http, "websocket_enabled"@, seq!["http", "websocket_enabled"], FieldKind::Bool, "Enable the /ws WebSocket endpoint for live log streaming. Default on."@),
        (Section::Http, "cors_permissive"@, seq!["http", "cors_permissive"], FieldKind::Bool, "Allow CORS from any origin (for web admin panels). Default off."@),
        (Section::Http, "require_auth"@, seq!["http", "require_auth"], FieldKind::Bool, "Require the token on ALL routes including status/health/ws. Default off."@),
        (Section::Ducking, "ducking_rules"@, seq!["ducking_rules"], FieldKind::StructList(StructListKind::DuckingRules), "Automatic volume reduction: while a primary voice has sound playing, the listed voices fade to a target volume, then fade back when it stops. Example: duck \"music\" to 20% while \"announcements\" plays."@),
        (Section::BassManagement, "enabled"@, seq!["bass_management", "enabled"], FieldKind::Bool, "Extract bass from source channels into a subwoofer (LFE) channel. Default off."@),
        (Section::BassManagement, "lfe_channel"@, seq!["bass_management", "lfe_channel"], FieldKind::ChannelRef, "Output channel for the subwoofer (number or alias). Default 3 (standard 5.1 LFE position)."@),
        (Section::BassManagement, "crossover_frequency_hz"@, seq!["bass_management", "crossover_frequency_hz"], FieldKind::Float { min: 0x4024000000000000, max: 0x4069000000000000 }, "Crossover frequency in Hz (10 - 200). Default 80."@),
        (Section::BassManagement, "source_channels"@, seq!["bass_management", "source_channels"], FieldKind::ChannelRefList, "Channels to extract bass from (numbers or aliases). Must not include the LFE channel."@),
        (Section::BassManagement, "remove_bass_from_sources"@, seq!["bass_management", "remove_bass_from_sources"], FieldKind::Bool, "High-pass the source channels after extraction (on, default) or leave them full-range (additive LFE)."@),
        (Section::BassManagement, "lfe_gain"@, seq!["bass_management", "lfe_gain"], FieldKind::Float { min: 0x0, max: 0x4020000000000000 }, "Linear trim applied to the summed LFE output. Default 1.0."@),
        (Section::Inputs, "inputs"@, seq!["inputs"], FieldKind::StructList(StructListKind::Inputs), "Live inputs (microphone, line-in) mixed into the output in real time. Each input picks a capture device, routes its channels to output channels, and plays under a voice name that ducking rules can react to."@),
        (Section::Advanced, "resampler_quality"@, seq!["advanced", "resampler_quality"], FieldKind::Enum(&["fast", "medium", "high", "maximum"]), "Sample-rate conversion quality. fast (default, ~60ms/min stereo) to maximum (~230ms/min; precache-everything setups only)."@),
        (Section::Advanced, "schema_version"@, seq!["schema_version"], FieldKind::OptionalUInt { min: 0, max: 4294967295 }, "Config schema version marker. Unset = current. Rarely needs setting by hand."@),
        (Section::Macros, "macros"@, seq!["macros"], FieldKind::MapToJson, "Named bundles of command parameters. A command that includes \"macro\": \"quiet\" is merged with the bundle named \"quiet\"; the command's own parameters win on conflict. Enter opens the list of macros."@),
    ]
}

/// The section, label, path, kind and help of each setting.
pub open spec fn fields_view(fs: Seq<FieldSpec>) -> Seq<(Section, Seq<char>, Seq<&'static str>, FieldKind, Seq<char>)> {
    fs.map_values(|f: FieldSpec| (f.section, f.label@, f.path@, f.kind, f.help@))
}

/// The key, label, kind and help of each field.
pub open spec fn subs_view(fs: Seq<SubFieldSpec>) -> Seq<(Seq<char>, Seq<char>, FieldKind, Seq<char>)> {
    fs.map_values(|f: SubFieldSpec| (f.key@, f.label@, f.kind, f.help@))
}

/// The fields of a ducking rule: key, label, kind and help.
pub open spec fn ducking_rule_table() -> Seq<(Seq<char>, Seq<char>, FieldKind, Seq<char>)> {
    seq![
        ("primary_voice"@, "primary_voice"@, FieldKind::VoiceRef, "The voice that triggers this rule: while any sound playing on this voice is \
                   active, the ducked voices are lowered. Voices are named by a Play command's \
                   \"voice\" parameter or an input's voice_id."@),
        ("ducked_voices"@, "ducked_voices"@, FieldKind::VoiceRefList, "The voices to lower while the primary voice is active — typically background \
                   music or ambience."@),
        ("target_volume"@, "target_volume"@, FieldKind::Float { min: 0x0, max: 0x3ff0000000000000 }, "Volume the ducked voices fade to while the primary voice plays: 0.0 silences \
                   them, 0.2 leaves them quietly audible, 1.0 does nothing."@),
        ("fade_duration_ms"@, "fade_duration_ms"@, FieldKind::UInt { min: 0, max: 4294967295 }, "How long the fade down (and back up) takes, in milliseconds. 500 is a gentle \
                   dip; 0 is instant."@),
    ]
}

/// The fields of an input route: key, label, kind and help.
pub open spec fn route_table() -> Seq<(Seq<char>, Seq<char>, FieldKind, Seq<char>)> {
    seq![
        ("source_channel"@, "source_channel"@, FieldKind::ChannelRef, "Which channel of the input device to take audio from: a 0-indexed number \
                   or an alias from audio.channel_aliases."@),
        ("dest_channel"@, "dest_channel"@, FieldKind::ChannelRef, "Which output channel to mix that audio into: a 0-indexed number or an \
                   alias from audio.channel_aliases."@),
    ]
}

/// The fields of a live input: key, label, kind and help.
pub open spec fn input_table() -> Seq<(Seq<char>, Seq<char>, FieldKind, Seq<char>)> {
    seq![
        ("device"@, "device"@, FieldKind::InputDevice, "Input device to capture from. Unset uses the system default input. Enter \
                   opens the device picker with a live level meter."@),
        ("volume"@, "volume"@, FieldKind::Float { min: 0x0, max: 0x3ff0000000000000 }, "Input volume (0.0 - 1.0). Default 1.0."@),
        ("voice_id"@, "voice_id"@, FieldKind::VoiceRef, "The voice name this input plays under, so ducking rules can react to it \
                   (e.g. a rule with primary_voice \"mic\" ducks music while you talk). \
                   Default \"mic\"."@),
        ("routes"@, "routes"@, FieldKind::StructList(StructListKind::Routes), "Which input channels feed which output channels. At least one route is \
                   required for the input to be audible."@),
        ("latency_ms"@, "latency_ms"@, FieldKind::UInt { min: 5, max: 500 }, "Buffer latency in milliseconds (5 - 500). Lower is more immediate but \
                   risks dropouts. Default 20."@),
    ]
}

/// The known macro parameters: key, label, kind and help.
pub open spec fn macro_param_table() -> Seq<(Seq<char>, Seq<char>, FieldKind, Seq<char>)> {
    seq![
        ("volume"@, "volume"@, FieldKind::Float { min: 0x0, max: 0x3ff0000000000000 }, "Playback volume (0.0 - 1.0)."@),
        ("voice"@, "voice"@, FieldKind::VoiceRef, "Voice name the sound plays under, for grouped control and ducking."@),
        ("fade_in"@, "fade_in"@, FieldKind::UInt { min: 0, max: 4294967295 }, "Fade-in duration in milliseconds."@),
        ("loop"@, "loop"@, FieldKind::Bool, "Loop playback continuously."@),
        ("crossfade_ms"@, "crossfade_ms"@, FieldKind::UInt { min: 0, max: 4294967295 }, "Crossfade duration at loop boundaries in milliseconds (0 = none)."@),
        ("start_position_ms"@, "start_position_ms"@, FieldKind::UInt { min: 0, max: 18446744073709551615 }, "Start playback at this offset in milliseconds."@),
        ("channel_map"@, "channel_map"@, FieldKind::MapToJson, "Channel routing as JSON, e.g. [{\"src\": 0, \"dest\": 2, \"gain\": 0.5}]."@),
        ("mode"@, "mode"@, FieldKind::Enum(&["auto", "full", "stream"]), "Load strategy override: auto, full (in-memory), or stream."@),
        ("freshness"@, "freshness"@, FieldKind::Enum(&["trusting", "dev", "pinned"]), "Cache freshness override: trusting, dev, or pinned."@),
        ("window_ms"@, "window_ms"@, FieldKind::UInt { min: 100, max: 60000 }, "Streamed-source ring depth override in milliseconds."@),
        ("prebuffer_ms"@, "prebuffer_ms"@, FieldKind::UInt { min: 0, max: 60000 }, "Streamed-source prebuffer override in milliseconds."@),
        ("cacheable"@, "cacheable"@, FieldKind::Bool, "Whether streamed HTTP plays persist to the disk cache."@),
        ("file"@, "file"@, FieldKind::Text, "Audio file path or URL to play."@),
        ("id"@, "id"@, FieldKind::Text, "Sample identifier for targeting later commands at this sound."@),
    ]
}

impl Tables {
    /// The fields of one structure of a list of `kind`.
    pub open spec fn sub(&self, kind: StructListKind) -> Seq<SubFieldSpec> {
        match kind {
            StructListKind::DuckingRules => self.ducking_rule@,
            StructListKind::Routes => self.route@,
            StructListKind::Inputs => self.input@,
        }
    }
    /// Fields of one ducking rule.
    fn ducking_rule_fields() -> (r: Vec<SubFieldSpec>)
        ensures
            subs_view(r@) == ducking_rule_table(),
            r@.len() == 4,
    {
        vec![
            SubFieldSpec {
                key: "primary_voice",
                label: "primary_voice",
                kind: FieldKind::VoiceRef,
                help: "The voice that triggers this rule: while any sound playing on this voice is \
                   active, the ducked voices are lowered. Voices are named by a Play command's \
                   \"voice\" parameter or an input's voice_id.",
            },
            SubFieldSpec {
                key: "ducked_voices",
                label: "ducked_voices",
                kind: FieldKind::VoiceRefList,
                help: "The voices to lower while the primary voice is active — typically background \
                   music or ambience.",
            },
            SubFieldSpec {
                key: "target_volume",
                label: "target_volume",
                kind: FieldKind::Float { min: 0x0, max: 0x3ff0000000000000 },
                help: "Volume the ducked voices fade to while the primary voice plays: 0.0 silences \
                   them, 0.2 leaves them quietly audible, 1.0 does nothing.",
            },
            SubFieldSpec {
                key: "fade_duration_ms",
                label: "fade_duration_ms",
                kind: FieldKind::UInt { min: 0, max: 4294967295 },
                help: "How long the fade down (and back up) takes, in milliseconds. 500 is a gentle \
                   dip; 0 is instant.",
            },
        ]
    }
    /// Fields of one input route (input channel to output channel).
    fn route_fields() -> (r: Vec<SubFieldSpec>)
        ensures
            subs_view(r@) == route_table(),
            r@.len() == 2,
    {
        vec![
            SubFieldSpec {
                key: "source_channel",
                label: "source_channel",
                kind: FieldKind::ChannelRef,
                help: "Which channel of the input device to take audio from: a 0-indexed number \
                   or an alias from audio.channel_aliases.",
            },
            SubFieldSpec {
                key: "dest_channel",
                label: "dest_channel",
                kind: FieldKind::ChannelRef,
                help: "Which output channel to mix that audio into: a 0-indexed number or an \
                   alias from audio.channel_aliases.",
            },
        ]
    }
    /// Fields of one live input.
    fn input_fields() -> (r: Vec<SubFieldSpec>)
        ensures
            subs_view(r@) == input_table(),
            r@.len() == 5,
    {
        vec![
            SubFieldSpec {
                key: "device",
                label: "device",
                kind: FieldKind::InputDevice,
                help: "Input device to capture from. Unset uses the system default input. Enter \
                   opens the device picker with a live level meter.",
            },
            SubFieldSpec {
                key: "volume",
                label: "volume",
                kind: FieldKind::Float { min: 0x0, max: 0x3ff0000000000000 },
                help: "Input volume (0.0 - 1.0). Default 1.0.",
            },
            SubFieldSpec {
                key: "voice_id",
                label: "voice_id",
                kind: FieldKind::VoiceRef,
                help: "The voice name this input plays under, so ducking rules can react to it \
                   (e.g. a rule with primary_voice \"mic\" ducks music while you talk). \
                   Default \"mic\".",
            },
            SubFieldSpec {
                key: "routes",
                label: "routes",
                kind: FieldKind::StructList(StructListKind::Routes),
                help: "Which input channels feed which output channels. At least one route is \
                   required for the input to be audible.",
            },
            SubFieldSpec {
                key: "latency_ms",
                label: "latency_ms",
                kind: FieldKind::UInt { min: 5, max: 500 },
                help: "Buffer latency in milliseconds (5 - 500). Lower is more immediate but \
                   risks dropouts. Default 20.",
            },
        ]
    }
    /// Command parameters offered when adding to a macro: the Play command's.
    fn macro_param_fields() -> (r: Vec<SubFieldSpec>)
        ensures
            subs_view(r@) == macro_param_table(),
            r@.len() == 14,
    {
        vec![
            SubFieldSpec {
                key: "volume",
                label: "volume",
                kind: FieldKind::Float { min: 0x0, max: 0x3ff0000000000000 },
                help: "Playback volume (0.0 - 1.0).",
            },
            SubFieldSpec {
                key: "voice",
                label: "voice",
                kind: FieldKind::VoiceRef,
                help: "Voice name the sound plays under, for grouped control and ducking.",
            },
            SubFieldSpec {
                key: "fade_in",
                label: "fade_in",
                kind: FieldKind::UInt { min: 0, max: 4294967295 },
                help: "Fade-in duration in milliseconds.",
            },
            SubFieldSpec {
                key: "loop",
                label: "loop",
                kind: FieldKind::Bool,
                help: "Loop playback continuously.",
            },
            SubFieldSpec {
                key: "crossfade_ms",
                label: "crossfade_ms",
                kind: FieldKind::UInt { min: 0, max: 4294967295 },
                help: "Crossfade duration at loop boundaries in milliseconds (0 = none).",
            },
            SubFieldSpec {
                key: "start_position_ms",
                label: "start_position_ms",
                kind: FieldKind::UInt { min: 0, max: 18446744073709551615 },
                help: "Start playback at this offset in milliseconds.",
            },
            SubFieldSpec {
                key: "channel_map",
                label: "channel_map",
                kind: FieldKind::MapToJson,
                help: "Channel routing as JSON, e.g. [{\"src\": 0, \"dest\": 2, \"gain\": 0.5}].",
            },
            SubFieldSpec {
                key: "mode",
                label: "mode",
                kind: FieldKind::Enum(&["auto", "full", "stream"]),
                help: "Load strategy override: auto, full (in-memory), or stream.",
            },
            SubFieldSpec {
                key: "freshness",
                label: "freshness",
                kind: FieldKind::Enum(&["trusting", "dev", "pinned"]),
                help: "Cache freshness override: trusting, dev, or pinned.",
            },
            SubFieldSpec {
                key: "window_ms",
                label: "window_ms",
                kind: FieldKind::UInt { min: 100, max: 60000 },
                help: "Streamed-source ring depth override in milliseconds.",
            },
            SubFieldSpec {
                key: "prebuffer_ms",
                label: "prebuffer_ms",
                kind: FieldKind::UInt { min: 0, max: 60000 },
                help: "Streamed-source prebuffer override in milliseconds.",
            },
            SubFieldSpec {
                key: "cacheable",
                label: "cacheable",
                kind: FieldKind::Bool,
                help: "Whether streamed HTTP plays persist to the disk cache.",
            },
            SubFieldSpec {
                key: "file",
                label: "file",
                kind: FieldKind::Text,
                help: "Audio file path or URL to play.",
            },
            SubFieldSpec {
                key: "id",
                label: "id",
                kind: FieldKind::Text,
                help: "Sample identifier for targeting later commands at this sound.",
            },
        ]
    }
    /// Every setting the editor can set, in display order.
    fn field_registry() -> (r: Vec<FieldSpec>)
        ensures
            fields_view(r@) == registry_table(),
            r@.len() == 54,
    {
        let r = vec![
            FieldSpec {
                section: Section::Mqtt,
                label: "server",
                path: &["mqtt", "server"],
                kind: FieldKind::Text,
                help: "MQTT broker hostname or IP address.",
            },
            FieldSpec {
                section: Section::Mqtt,
                label: "port",
                path: &["mqtt", "port"],
                kind: FieldKind::UInt { min: 1, max: 65535 },
                help: "MQTT broker TCP port (plain default 1883, TLS commonly 8883).",
            },
            FieldSpec {
                section: Section::Mqtt,
                label: "topic",
                path: &["mqtt", "topic"],
                kind: FieldKind::OptionalText,
                help: "Topic to subscribe to for commands (wildcards # and + work). Required unless the HTTP server is enabled.",
            },
            FieldSpec {
                section: Section::Mqtt,
                label: "client_id",
                path: &["mqtt", "client_id"],
                kind: FieldKind::OptionalText,
                help: "MQTT client id. Unset auto-generates mqttaudio_<pid>.",
            },
            FieldSpec {
                section: Section::Mqtt,
                label: "reconnect_delay_seconds",
                path: &["mqtt", "reconnect_delay_seconds"],
                kind: FieldKind::UInt { min: 1, max: 86400 },
                help: "Seconds to wait before reconnecting after losing the broker.",
            },
            FieldSpec {
                section: Section::Mqtt,
                label: "username",
                path: &["mqtt", "username"],
                kind: FieldKind::OptionalText,
                help: "Broker username for authentication. Unset = anonymous.",
            },
            FieldSpec {
                section: Section::Mqtt,
                label: "password",
                path: &["mqtt", "password"],
                kind: FieldKind::Secret,
                help: "Broker password. Sent in cleartext unless TLS is enabled.",
            },
            FieldSpec {
                section: Section::Mqtt,
                label: "tls",
                path: &["mqtt", "tls"],
                kind: FieldKind::Flag,
                help: "Enable TLS to the broker. Off = plain TCP (even on port 8883).",
            },
            FieldSpec {
                section: Section::Mqtt,
                label: "tls.ca_path",
                path: &["mqtt", "tls", "ca_path"],
                kind: FieldKind::OptionalText,
                help: "PEM CA certificate to trust (self-signed/private brokers). Unset uses the system root store. Setting this enables TLS.",
            },
            FieldSpec {
                section: Section::Audio,
                label: "device",
                path: &["audio", "device"],
                kind: FieldKind::OutputDevice,
                help: "Audio output device. Unset uses the system default. Enter opens the device picker with live testing.",
            },
            FieldSpec {
                section: Section::Audio,
                label: "sample_rate",
                path: &["audio", "sample_rate"],
                kind: FieldKind::UInt { min: 8000, max: 192000 },
                help: "Output sample rate in Hz (8000 - 192000). Default 48000.",
            },
            FieldSpec {
                section: Section::Audio,
                label: "channels",
                path: &["audio", "channels"],
                kind: FieldKind::OptionalUInt { min: 1, max: 65535 },
                help: "Number of output channels. Unset auto-detects from the device.",
            },
            FieldSpec {
                section: Section::Audio,
                label: "buffer_size",
                path: &["audio", "buffer_size"],
                kind: FieldKind::UInt { min: 64, max: 8192 },
                help: "Buffer size in frames (64 - 8192). Smaller = lower latency, higher CPU. Default 512.",
            },
            FieldSpec {
                section: Section::Audio,
                label: "channel_aliases",
                path: &["audio", "channel_aliases"],
                kind: FieldKind::MapToUInt,
                help: "Friendly names for output channel numbers (e.g. front_left = 0, lfe = 3). Once defined, every channel field — bass management, input routes, channel volumes — can use the name instead of the number, and the channel pickers offer them.",
            },
            FieldSpec {
                section: Section::Audio,
                label: "channel_volumes",
                path: &["audio", "channel_volumes"],
                kind: FieldKind::MapToFloat { min: 0x0, max: 0x3ff0000000000000 },
                help: "Per-channel calibration gain (key: channel number or alias, value 0.0 - 1.0). Unlisted channels stay at 1.0.",
            },
            FieldSpec {
                section: Section::Audio,
                label: "output_ceiling_db",
                path: &["audio", "output_ceiling_db"],
                kind: FieldKind::Float { min: 0xc04e000000000000, max: 0x0 },
                help: "Limiter ceiling in dBFS; the output peak is held at or below it. Default -1.0.",
            },
            FieldSpec {
                section: Section::Audio,
                label: "master_gain",
                path: &["audio", "master_gain"],
                kind: FieldKind::Float { min: 0x0, max: 0x4020000000000000 },
                help: "Linear gain applied to the summed bus before limiting. Default 1.0 (unity).",
            },
            FieldSpec {
                section: Section::Cache,
                label: "enabled",
                path: &["cache", "enabled"],
                kind: FieldKind::Bool,
                help: "Cache decoded audio on disk for fast replays. Default on.",
            },
            FieldSpec {
                section: Section::Cache,
                label: "directory",
                path: &["cache", "directory"],
                kind: FieldKind::Text,
                help: "Cache directory (~ expands to home). Default ~/.mqttaudio/cache.",
            },
            FieldSpec {
                section: Section::Cache,
                label: "revalidate_after_seconds",
                path: &["cache", "revalidate_after_seconds"],
                kind: FieldKind::UInt { min: 0, max: 4294967295 },
                help: "Revalidation window for remote (HTTP) cache entries in seconds. 0 = always re-check. Default 300.",
            },
            FieldSpec {
                section: Section::Cache,
                label: "precache",
                path: &["cache", "precache"],
                kind: FieldKind::StringList,
                help: "Files, directories (non-recursive), or HTTP URLs to cache at startup.",
            },
            FieldSpec {
                section: Section::Cache,
                label: "precache_blocking",
                path: &["cache", "precache_blocking"],
                kind: FieldKind::Bool,
                help: "Block startup until precache finishes (on, default) or load in the background (off).",
            },
            FieldSpec {
                section: Section::Cache,
                label: "max_memory_mb",
                path: &["cache", "max_memory_mb"],
                kind: FieldKind::UInt { min: 0, max: 4294967295 },
                help: "Memory cache cap in MiB. 0 (default) auto-detects a bounded cap. Overridden by memory_budget.",
            },
            FieldSpec {
                section: Section::Cache,
                label: "memory_budget",
                path: &["cache", "memory_budget"],
                kind: FieldKind::MemoryBudget,
                help: "Advanced memory cap: auto (fraction of RAM, clamped), explicit (fixed MiB), or unlimited. Overrides max_memory_mb.",
            },
            FieldSpec {
                section: Section::Cache,
                label: "load_mode",
                path: &["cache", "load_mode"],
                kind: FieldKind::Enum(&["auto", "full", "stream"]),
                help: "Default load strategy: auto (size/duration decides), full (in-memory, all features), stream (bounded memory, forward-only).",
            },
            FieldSpec {
                section: Section::Cache,
                label: "full_load_max_bytes",
                path: &["cache", "full_load_max_bytes"],
                kind: FieldKind::UInt { min: 0, max: 18446744073709551615 },
                help: "Auto threshold: assets with a larger estimated decoded size are streamed. Default 33554432 (32 MiB).",
            },
            FieldSpec {
                section: Section::Cache,
                label: "full_load_max_seconds",
                path: &["cache", "full_load_max_seconds"],
                kind: FieldKind::UInt { min: 0, max: 4294967295 },
                help: "Auto threshold: assets longer than this many seconds are streamed. Default 60.",
            },
            FieldSpec {
                section: Section::Cache,
                label: "stream_window_ms",
                path: &["cache", "stream_window_ms"],
                kind: FieldKind::UInt { min: 100, max: 60000 },
                help: "Streamed-source ring depth in ms; bounds per-stream memory (100 - 60000). Default 1500.",
            },
            FieldSpec {
                section: Section::Cache,
                label: "stream_prebuffer_ms",
                path: &["cache", "stream_prebuffer_ms"],
                kind: FieldKind::UInt { min: 0, max: 60000 },
                help: "Audio prebuffered before a streamed source starts (ms). Must not exceed stream_window_ms. Default 150.",
            },
            FieldSpec {
                section: Section::Cache,
                label: "stream_prebuffer_deadline_ms",
                path: &["cache", "stream_prebuffer_deadline_ms"],
                kind: FieldKind::UInt { min: 0, max: 600000 },
                help: "Max wait for the prebuffer before starting anyway (ms). Must be >= stream_prebuffer_ms. Default 300.",
            },
            FieldSpec {
                section: Section::Cache,
                label: "freshness",
                path: &["cache", "freshness"],
                kind: FieldKind::Enum(&["trusting", "dev", "pinned"]),
                help: "Cache freshness: trusting (serve cache, refresh in background), dev (re-check every load), pinned (never auto-check).",
            },
            FieldSpec {
                section: Section::Security,
                label: "allowed_directories",
                path: &["security", "allowed_directories"],
                kind: FieldKind::StringList,
                help: "Whitelist of directories for local file playback (~ expands). Empty = any path allowed.",
            },
            FieldSpec {
                section: Section::Logging,
                label: "level",
                path: &["logging", "level"],
                kind: FieldKind::Enum(&["error", "warn", "info", "debug", "trace"]),
                help: "Log level. Default info.",
            },
            FieldSpec {
                section: Section::Logging,
                label: "verbose",
                path: &["logging", "verbose"],
                kind: FieldKind::Bool,
                help: "Verbose mode; equivalent to level = debug.",
            },
            FieldSpec {
                section: Section::Logging,
                label: "format",
                path: &["logging", "format"],
                kind: FieldKind::Enum(&["text", "json"]),
                help: "Console log format: text (human-readable) or json (line-delimited, for log aggregation).",
            },
            FieldSpec {
                section: Section::Logging,
                label: "mqtt_topic",
                path: &["logging", "mqtt_topic"],
                kind: FieldKind::OptionalText,
                help: "MQTT topic to publish log records to as JSON. Unset = off.",
            },
            FieldSpec {
                section: Section::Http,
                label: "enabled",
                path: &["http", "enabled"],
                kind: FieldKind::Bool,
                help: "Enable the HTTP REST/WebSocket server. Default off.",
            },
            FieldSpec {
                section: Section::Http,
                label: "port",
                path: &["http", "port"],
                kind: FieldKind::UInt { min: 0, max: 65535 },
                help: "Port to listen on. 0 = auto-select an available port.",
            },
            FieldSpec {
                section: Section::Http,
                label: "bind_address",
                path: &["http", "bind_address"],
                kind: FieldKind::Text,
                help: "Bind address. Default 127.0.0.1 (loopback only) for security.",
            },
            FieldSpec {
                section: Section::Http,
                label: "auth_token",
                path: &["http", "auth_token"],
                kind: FieldKind::Secret,
                help: "Bearer token protecting command routes (min 8 characters). Unset = open.",
            },
            FieldSpec {
                section: Section::Http,
                label: "websocket_enabled",
                path: &["http", "websocket_enabled"],
                kind: FieldKind::Bool,
                help: "Enable the /ws WebSocket endpoint for live log streaming. Default on.",
            },
            FieldSpec {
                section: Section::Http,
                label: "cors_permissive",
                path: &["http", "cors_permissive"],
                kind: FieldKind::Bool,
                help: "Allow CORS from any origin (for web admin panels). Default off.",
            },
            FieldSpec {
                section: Section::Http,
                label: "require_auth",
                path: &["http", "require_auth"],
                kind: FieldKind::Bool,
                help: "Require the token on ALL routes including status/health/ws. Default off.",
            },
            FieldSpec {
                section: Section::Ducking,
                label: "ducking_rules",
                path: &["ducking_rules"],
                kind: FieldKind::StructList(StructListKind::DuckingRules),
                help: "Automatic volume reduction: while a primary voice has sound playing, the listed voices fade to a target volume, then fade back when it stops. Example: duck \"music\" to 20% while \"announcements\" plays.",
            },
            FieldSpec {
                section: Section::BassManagement,
                label: "enabled",
                path: &["bass_management", "enabled"],
                kind: FieldKind::Bool,
                help: "Extract bass from source channels into a subwoofer (LFE) channel. Default off.",
            },
            FieldSpec {
                section: Section::BassManagement,
                label: "lfe_channel",
                path: &["bass_management", "lfe_channel"],
                kind: FieldKind::ChannelRef,
                help: "Output channel for the subwoofer (number or alias). Default 3 (standard 5.1 LFE position).",
            },
            FieldSpec {
                section: Section::BassManagement,
                label: "crossover_frequency_hz",
                path: &["bass_management", "crossover_frequency_hz"],
                kind: FieldKind::Float { min: 0x4024000000000000, max: 0x4069000000000000 },
                help: "Crossover frequency in Hz (10 - 200). Default 80.",
            },
            FieldSpec {
                section: Section::BassManagement,
                label: "source_channels",
                path: &["bass_management", "source_channels"],
                kind: FieldKind::ChannelRefList,
                help: "Channels to extract bass from (numbers or aliases). Must not include the LFE channel.",
            },
            FieldSpec {
                section: Section::BassManagement,
                label: "remove_bass_from_sources",
                path: &["bass_management", "remove_bass_from_sources"],
                kind: FieldKind::Bool,
                help: "High-pass the source channels after extraction (on, default) or leave them full-range (additive LFE).",
            },
            FieldSpec {
                section: Section::BassManagement,
                label: "lfe_gain",
                path: &["bass_management", "lfe_gain"],
                kind: FieldKind::Float { min: 0x0, max: 0x4020000000000000 },
                help: "Linear trim applied to the summed LFE output. Default 1.0.",
            },
            FieldSpec {
                section: Section::Inputs,
                label: "inputs",
                path: &["inputs"],
                kind: FieldKind::StructList(StructListKind::Inputs),
                help: "Live inputs (microphone, line-in) mixed into the output in real time. Each input picks a capture device, routes its channels to output channels, and plays under a voice name that ducking rules can react to.",
            },
            FieldSpec {
                section: Section::Advanced,
                label: "resampler_quality",
                path: &["advanced", "resampler_quality"],
                kind: FieldKind::Enum(&["fast", "medium", "high", "maximum"]),
                help: "Sample-rate conversion quality. fast (default, ~60ms/min stereo) to maximum (~230ms/min; precache-everything setups only).",
            },
            FieldSpec {
                section: Section::Advanced,
                label: "schema_version",
                path: &["schema_version"],
                kind: FieldKind::OptionalUInt { min: 0, max: 4294967295 },
                help: "Config schema version marker. Unset = current. Rarely needs setting by hand.",
            },
            FieldSpec {
                section: Section::Macros,
                label: "macros",
                path: &["macros"],
                kind: FieldKind::MapToJson,
                help: "Named bundles of command parameters. A command that includes \"macro\": \"quiet\" is merged with the bundle named \"quiet\"; the command's own parameters win on conflict. Enter opens the list of macros.",
            },
        ];
        proof {
            assert forall|i: int| 0 <= i < 54 implies #[trigger] fields_view(r@)[i] == registry_table()[i] by {}
            assert(fields_view(r@) =~= registry_table());
        }
        r
    }

    /// The editor's tables.
    pub fn new() -> (t: Self)
        ensures
            fields_view(t.fields@) == registry_table(),
            subs_view(t.ducking_rule@) == ducking_rule_table(),
            subs_view(t.route@) == route_table(),
            subs_view(t.input@) == input_table(),
            subs_view(t.macro_params@) == macro_param_table(),
            t.fields@.len() == 54,
            t.ducking_rule@.len() == 4,
            t.route@.len() == 2,
            t.input@.len() == 5,
            t.macro_params@.len() == 14,
    {
        Tables {
            fields: Self::field_registry(),
            ducking_rule: Self::ducking_rule_fields(),
            route: Self::route_fields(),
            input: Self::input_fields(),
            macro_params: Self::macro_param_fields(),
        }
    }
}

} // verus!
