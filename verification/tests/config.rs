use mqttaudio::config::{
    check_resolved_path, expand_tilde_with, inside_dir_text, AdvancedConfig, ChannelRef, Config,
    ConfigError, DuckingRule, FloatBits, HttpConfig, InputConfig, InputRouteConfig,
    ResamplerQuality, MAX_GAIN_BITS,
};
use mqttaudio::keyed::KeyedVec;

fn gain(v: f32) -> FloatBits {
    FloatBits(v.to_bits())
}

fn max_gain() -> f32 {
    f32::from_bits(MAX_GAIN_BITS)
}

fn route(src: usize, dest: usize) -> InputRouteConfig {
    InputRouteConfig {
        source_channel: ChannelRef::Index(src),
        dest_channel: ChannelRef::Index(dest),
    }
}

#[test]
fn test_default_config() {
    let config = Config::default();

    assert_eq!(config.mqtt.server, "localhost");
    assert_eq!(config.mqtt.port, 1883);
    assert_eq!(config.mqtt.topic, None);
    assert_eq!(config.mqtt.username, None);
    assert_eq!(config.mqtt.password, None);
    assert_eq!(config.audio.sample_rate, 48000);
    assert_eq!(config.audio.buffer_size, 512);
    assert_eq!(config.cache.enabled, true);
    assert_eq!(config.cache.revalidate_after_seconds, 300);
    assert_eq!(config.logging.level, "info");
}

#[test]
fn test_merge_cli_args_mqtt_credentials() {
    let mut config = Config::default();
    assert!(config.mqtt.username.is_none());
    assert!(config.mqtt.password.is_none());

    config.merge_cli_args(
        None,
        None,
        None,
        None,
        None,
        None,
        false,
        None,
        None,
        None,
        Some("cli_user".to_string()),
        Some("cli_pass".to_string()),
        None,
        None,
    );

    assert_eq!(config.mqtt.username, Some("cli_user".to_string()));
    assert_eq!(config.mqtt.password, Some("cli_pass".to_string()));
}

#[test]
fn test_expand_tilde() {
    let expanded = expand_tilde_with("~/test/path", Some("/home/listener"));
    assert!(!expanded.starts_with("~"));
    assert!(expanded.contains("test/path"));
    assert_eq!(expanded, "/home/listener/test/path");

    let no_tilde = expand_tilde_with("/absolute/path", Some("/home/listener"));
    assert_eq!(no_tilde, "/absolute/path");
}

#[test]
fn expand_tilde_without_home_leaves_the_path() {
    assert_eq!(expand_tilde_with("~/sounds", None), "~/sounds");
    assert_eq!(expand_tilde_with("~sounds", Some("/home/x")), "~sounds");
}

#[test]
fn test_validate_missing_topic_and_http() {
    let config = Config::default();
    let result = config.validate();

    assert!(result.is_err());
    let errors = result.unwrap_err();
    assert!(errors.iter().any(|e| e.contains("mqtt.topic") || e.contains("http.enabled")));
}

#[test]
fn test_validate_http_only_mode() {
    let mut config = Config::default();
    config.http.enabled = true;
    config.http.port = 8080;

    let result = config.validate();
    assert!(result.is_ok());
}

#[test]
fn test_validate_mqtt_only_mode() {
    let mut config = Config::default();
    config.mqtt.topic = Some("test/topic".to_string());

    let result = config.validate();
    assert!(result.is_ok());
}

#[test]
fn test_validate_invalid_sample_rate() {
    let mut config = Config::default();
    config.mqtt.topic = Some("test".to_string());
    config.audio.sample_rate = 1000;

    let result = config.validate();
    assert!(result.is_err());
    let errors = result.unwrap_err();
    assert!(errors.iter().any(|e| e.contains("sample_rate")));
}

#[test]
fn test_validate_invalid_buffer_size() {
    let mut config = Config::default();
    config.mqtt.topic = Some("test".to_string());
    config.audio.buffer_size = 32;

    let result = config.validate();
    assert!(result.is_err());
    let errors = result.unwrap_err();
    assert!(errors.iter().any(|e| e.contains("buffer_size")));
}

#[test]
fn test_validate_invalid_channel_volume() {
    let mut config = Config::default();
    config.mqtt.topic = Some("test".to_string());
    config.audio.channel_volumes.insert("0".to_string(), gain(-0.5));

    let result = config.validate();
    assert!(result.is_err());
    let errors = result.unwrap_err();
    assert!(errors.iter().any(|e| e.contains("channel_volumes")));
}

#[test]
fn test_validate_invalid_log_level() {
    let mut config = Config::default();
    config.mqtt.topic = Some("test".to_string());
    config.logging.level = "invalid".to_string();

    let result = config.validate();
    assert!(result.is_err());
    let errors = result.unwrap_err();
    assert!(errors.iter().any(|e| e.contains("logging.level")));
}

#[test]
fn test_validate_valid_config() {
    let mut config = Config::default();
    config.mqtt.topic = Some("test".to_string());

    let result = config.validate();
    assert!(result.is_ok());
}

#[test]
fn test_merge_cli_args_server() {
    let mut config = Config::default();
    config.mqtt.server = "original".to_string();

    config.merge_cli_args(
        Some("overridden".to_string()),
        None,
        None,
        None,
        None,
        None,
        false,
        None,
        None,
        None,
        None,
        None,
        None,
        None,
    );

    assert_eq!(config.mqtt.server, "overridden");
}

#[test]
fn test_merge_cli_args_all_fields() {
    let mut config = Config::default();

    config.merge_cli_args(
        Some("newserver".to_string()),
        Some(8883),
        Some("newtopic".to_string()),
        Some("newdevice".to_string()),
        Some(96000),
        Some(8),
        true,
        Some(5),
        Some(gain(120.0)),
        Some("audio/logs".to_string()),
        Some("testuser".to_string()),
        Some("testpass".to_string()),
        None,
        None,
    );

    assert_eq!(config.mqtt.server, "newserver");
    assert_eq!(config.mqtt.port, 8883);
    assert_eq!(config.mqtt.topic, Some("newtopic".to_string()));
    assert_eq!(config.mqtt.username, Some("testuser".to_string()));
    assert_eq!(config.mqtt.password, Some("testpass".to_string()));
    assert_eq!(config.audio.device, Some("newdevice".to_string()));
    assert_eq!(config.audio.sample_rate, 96000);
    assert_eq!(config.audio.channels, Some(8));
    assert_eq!(config.logging.verbose, true);
    assert_eq!(config.logging.level, "debug");
    assert_eq!(config.logging.mqtt_topic, Some("audio/logs".to_string()));
    assert_eq!(config.bass_management.lfe_channel, ChannelRef::Index(5));
    assert_eq!(config.bass_management.crossover_frequency_hz, gain(120.0));
}

#[test]
fn test_merge_cli_args_partial_override() {
    let mut config = Config::default();
    config.mqtt.server = "original".to_string();
    config.mqtt.port = 1883;
    config.mqtt.topic = Some("original/topic".to_string());

    config.merge_cli_args(
        None,
        Some(8883),
        None,
        None,
        None,
        None,
        false,
        None,
        None,
        None,
        None,
        None,
        None,
        None,
    );

    assert_eq!(config.mqtt.server, "original");
    assert_eq!(config.mqtt.port, 8883);
    assert_eq!(config.mqtt.topic, Some("original/topic".to_string()));
}

#[test]
fn test_merge_cli_args_verbose_sets_debug() {
    let mut config = Config::default();
    assert_eq!(config.logging.level, "info");
    assert_eq!(config.logging.verbose, false);

    config.merge_cli_args(None, None, None, None, None, None, true, None, None, None, None, None, None, None);

    assert_eq!(config.logging.verbose, true);
    assert_eq!(config.logging.level, "debug");
}

#[test]
fn test_bass_management_config_default() {
    let config = Config::default();

    assert_eq!(config.bass_management.enabled, false);
    assert_eq!(config.bass_management.lfe_channel, ChannelRef::Index(3));
    assert_eq!(config.bass_management.crossover_frequency_hz, gain(80.0));
    assert!(config.bass_management.source_channels.is_empty());
    assert_eq!(config.bass_management.remove_bass_from_sources, false);
}

#[test]
fn test_bass_management_validation_invalid_crossover() {
    let mut config = Config::default();
    config.mqtt.topic = Some("test".to_string());
    config.bass_management.enabled = true;
    config.bass_management.source_channels = vec![ChannelRef::Index(0), ChannelRef::Index(1)];
    config.bass_management.crossover_frequency_hz = gain(5.0);

    let result = config.validate();
    assert!(result.is_err());
    let errors = result.unwrap_err();
    assert!(errors.iter().any(|e| e.contains("crossover_frequency_hz")));
}

#[test]
fn test_bass_management_validation_empty_sources() {
    let mut config = Config::default();
    config.mqtt.topic = Some("test".to_string());
    config.bass_management.enabled = true;

    let result = config.validate();
    assert!(result.is_err());
    let errors = result.unwrap_err();
    assert!(errors.iter().any(|e| e.contains("source_channels")));
}

#[test]
fn test_bass_management_validation_valid() {
    let mut config = Config::default();
    config.mqtt.topic = Some("test".to_string());
    config.bass_management.enabled = true;
    config.bass_management.source_channels = vec![ChannelRef::Index(0), ChannelRef::Index(1)];
    config.bass_management.crossover_frequency_hz = gain(80.0);

    let result = config.validate();
    assert!(result.is_ok());
}

#[test]
fn test_input_config_default() {
    let input = InputConfig::default();

    assert!(input.device.is_none());
    assert_eq!(input.volume, gain(1.0));
    assert_eq!(input.voice_id, "mic");
    assert!(input.routes.is_empty());
    assert_eq!(input.latency_ms, 20);
}

#[test]
fn test_unknown_alias_error_names_the_alias_map() {
    let config = Config::default();
    let err = config.resolve_channel(&ChannelRef::Alias("booth".to_string())).unwrap_err();

    assert!(err.contains("booth"));
    assert!(
        err.contains("channel_aliases"),
        "the error should say which map to add the name to, got: {}",
        err
    );
}

#[test]
fn test_unknown_alias_error_points_at_channel_names() {
    let mut config = Config::default();
    config.audio.channel_names.insert("6".to_string(), "booth".to_string());

    let err = config.resolve_channel(&ChannelRef::Alias("booth".to_string())).unwrap_err();

    assert!(err.contains("channel_names"), "got: {}", err);
    assert!(err.contains("channel_aliases"), "got: {}", err);
    assert!(err.contains("6"), "the error should name the channel it found: {}", err);
}

#[test]
fn test_input_route_error_points_at_channel_names() {
    let mut config = Config::default();
    config.mqtt.topic = Some("test".to_string());
    config.audio.channel_names.insert("4".to_string(), "house".to_string());
    config.inputs.push(InputConfig {
        routes: vec![InputRouteConfig {
            source_channel: ChannelRef::Index(0),
            dest_channel: ChannelRef::Alias("house".to_string()),
        }],
        ..Default::default()
    });

    let errors = config.validate().unwrap_err();
    assert!(
        errors.iter().any(|e| e.contains("channel_names") && e.contains("channel_aliases")),
        "validation should explain the two maps, got: {:?}",
        errors
    );
}

#[test]
fn test_channel_volumes_allow_boost() {
    let mut config = Config::default();
    config.mqtt.topic = Some("test".to_string());
    config.audio.channel_volumes.insert("3".to_string(), gain(1.5));

    assert!(config.validate().is_ok(), "boosting a channel above unity is allowed");
}

#[test]
fn test_channel_volumes_reject_excessive_gain() {
    let mut config = Config::default();
    config.mqtt.topic = Some("test".to_string());
    config.audio.channel_volumes.insert("3".to_string(), gain(max_gain() + 1.0));

    let errors = config.validate().unwrap_err();
    assert!(errors.iter().any(|e| e.contains("channel_volumes")));
}

#[test]
fn test_input_volume_allows_boost() {
    let mut config = Config::default();
    config.mqtt.topic = Some("test".to_string());
    config.inputs.push(InputConfig {
        volume: gain(2.0),
        routes: vec![route(0, 0)],
        ..Default::default()
    });

    assert!(config.validate().is_ok(), "a quiet microphone can be boosted");
}

#[test]
fn test_input_volume_rejects_excessive_gain() {
    let mut config = Config::default();
    config.mqtt.topic = Some("test".to_string());
    config.inputs.push(InputConfig {
        volume: gain(max_gain() + 1.0),
        routes: vec![route(0, 0)],
        ..Default::default()
    });

    let errors = config.validate().unwrap_err();
    assert!(errors.iter().any(|e| e.contains("volume")));
}

#[test]
fn test_resolve_channel_gains_by_index() {
    let mut config = Config::default();
    config.audio.channel_volumes.insert("0".to_string(), gain(0.5));
    config.audio.channel_volumes.insert("3".to_string(), gain(1.5));

    let gains = config.resolve_channel_gains(4).unwrap();
    assert_eq!(gains, vec![gain(0.5), gain(1.0), gain(1.0), gain(1.5)]);
}

#[test]
fn test_resolve_channel_gains_by_alias() {
    let mut config = Config::default();
    config.audio.channel_aliases.insert("sub".to_string(), 3);
    config.audio.channel_volumes.insert("sub".to_string(), gain(1.8));

    let gains = config.resolve_channel_gains(4).unwrap();
    assert_eq!(gains[3], gain(1.8));
}

#[test]
fn test_resolve_channel_gains_by_channel_name() {
    let mut config = Config::default();
    config.audio.channel_names.insert("3".to_string(), "lfe".to_string());
    config.audio.channel_volumes.insert("lfe".to_string(), gain(1.2));

    let gains = config.resolve_channel_gains(4).unwrap();
    assert_eq!(gains[3], gain(1.2));
}

#[test]
fn test_resolve_channel_gains_ignores_channels_beyond_output() {
    let mut config = Config::default();
    config.audio.channel_volumes.insert("9".to_string(), gain(0.5));

    let gains = config.resolve_channel_gains(2).unwrap();
    assert_eq!(gains, vec![gain(1.0), gain(1.0)]);
}

#[test]
fn test_channel_volumes_unknown_name_is_an_error() {
    let mut config = Config::default();
    config.mqtt.topic = Some("test".to_string());
    config.audio.channel_volumes.insert("nowhere".to_string(), gain(0.5));

    let errors = config.validate().unwrap_err();
    assert!(errors.iter().any(|e| e.contains("nowhere")));
}

#[test]
fn test_input_validation_invalid_volume() {
    let mut config = Config::default();
    config.mqtt.topic = Some("test".to_string());
    config.inputs.push(InputConfig {
        volume: gain(-0.5),
        routes: vec![route(0, 0)],
        ..Default::default()
    });

    let result = config.validate();
    assert!(result.is_err());
    let errors = result.unwrap_err();
    assert!(errors.iter().any(|e| e.contains("volume")));
}

#[test]
fn test_input_validation_empty_routes() {
    let mut config = Config::default();
    config.mqtt.topic = Some("test".to_string());
    config.inputs.push(InputConfig {
        routes: vec![],
        ..Default::default()
    });

    let result = config.validate();
    assert!(result.is_err());
    let errors = result.unwrap_err();
    assert!(errors.iter().any(|e| e.contains("routes")));
}

#[test]
fn test_input_validation_invalid_latency() {
    let mut config = Config::default();
    config.mqtt.topic = Some("test".to_string());
    config.inputs.push(InputConfig {
        latency_ms: 1000,
        routes: vec![route(0, 0)],
        ..Default::default()
    });

    let result = config.validate();
    assert!(result.is_err());
    let errors = result.unwrap_err();
    assert!(errors.iter().any(|e| e.contains("latency_ms")));
}

#[test]
fn test_input_validation_valid() {
    let mut config = Config::default();
    config.mqtt.topic = Some("test".to_string());
    config.inputs.push(InputConfig {
        device: Some("Test Mic".to_string()),
        volume: gain(0.8),
        voice_id: "mic".to_string(),
        routes: vec![route(0, 0), route(0, 1)],
        latency_ms: 25,
        channels: None,
        sample_rate: None,
        activity_threshold: None,
        activity_hold_ms: 750,
    });

    let result = config.validate();
    assert!(result.is_ok());
}

#[test]
fn test_input_activity_threshold_validation() {
    let mut config = Config::default();
    config.mqtt.topic = Some("test".to_string());
    config.inputs.push(InputConfig {
        activity_threshold: Some(gain(1.5)),
        routes: vec![route(0, 0)],
        ..Default::default()
    });

    let errors = config.validate().unwrap_err();
    assert!(errors.iter().any(|e| e.contains("activity_threshold")));

    config.inputs[0].activity_threshold = Some(gain(0.05));
    assert!(config.validate().is_ok(), "a sensible threshold validates");
}

#[test]
fn test_bass_management_rejects_duplicate_sources() {
    let mut config = Config::default();
    config.mqtt.topic = Some("test".to_string());
    config.bass_management.enabled = true;
    config.bass_management.source_channels =
        vec![ChannelRef::Index(0), ChannelRef::Index(1), ChannelRef::Index(0)];

    let errors = config.validate().unwrap_err();
    assert!(
        errors.iter().any(|e| e.contains("source_channels") && e.contains("twice")),
        "got: {:?}",
        errors
    );
}

#[test]
fn test_ducking_rule_validation() {
    let mut config = Config::default();
    config.mqtt.topic = Some("test".to_string());
    config.ducking_rules.push(DuckingRule {
        primary_voice: "narration".to_string(),
        ducked_voices: vec![],
        target_volume: gain(1.5),
        fade_duration_ms: 120000,
    });

    let errors = config.validate().unwrap_err();
    assert!(errors.iter().any(|e| e.contains("target_volume")));
    assert!(errors.iter().any(|e| e.contains("fade_duration_ms")));
    assert!(errors.iter().any(|e| e.contains("ducked_voices")));

    config.ducking_rules[0] = DuckingRule {
        primary_voice: "narration".to_string(),
        ducked_voices: vec!["music".to_string()],
        target_volume: gain(0.2),
        fade_duration_ms: 1000,
    };
    assert!(config.validate().is_ok());
}

#[test]
fn test_cache_precache_default() {
    let config = Config::default();
    assert!(config.cache.precache.is_empty());
}

#[test]
fn test_local_path_allowed_when_no_directories_configured() {
    let config = Config::default();
    assert!(!config.path_needs_check("/etc/hostname"));
}

#[test]
fn test_local_path_check_ignores_urls() {
    let mut config = Config::default();
    config.security.allowed_directories = vec!["/opt/sounds".to_string()];

    assert!(!config.path_needs_check("https://example.com/a.mp3"));
    assert!(!config.path_needs_check("http://example.com/a.mp3"));
    assert!(config.path_needs_check("/opt/sounds/a.mp3"));
}

#[test]
fn test_cache_precache_blocking_default() {
    let config = Config::default();
    assert!(config.cache.precache_blocking);
}

#[test]
fn test_cache_max_memory_mb_default() {
    let config = Config::default();
    assert_eq!(config.cache.max_memory_mb, 512);
}

#[test]
fn test_logging_mqtt_topic_default() {
    let config = Config::default();
    assert!(config.logging.mqtt_topic.is_none());
}

#[test]
fn test_merge_cli_args_log_topic() {
    let mut config = Config::default();
    assert!(config.logging.mqtt_topic.is_none());

    config.merge_cli_args(
        None,
        None,
        None,
        None,
        None,
        None,
        false,
        None,
        None,
        Some("audio/logs".to_string()),
        None,
        None,
        None,
        None,
    );

    assert_eq!(config.logging.mqtt_topic, Some("audio/logs".to_string()));
}

#[test]
fn test_channel_ref_resolve_index() {
    let aliases = KeyedVec::new();
    let channel = ChannelRef::Index(5);
    assert_eq!(channel.resolve(&aliases), Ok(5));
}

#[test]
fn test_channel_ref_resolve_alias() {
    let mut aliases = KeyedVec::new();
    aliases.insert("front_left".to_string(), 0);
    aliases.insert("front_right".to_string(), 1);

    let channel = ChannelRef::Alias("front_left".to_string());
    assert_eq!(channel.resolve(&aliases), Ok(0));

    let channel2 = ChannelRef::Alias("front_right".to_string());
    assert_eq!(channel2.resolve(&aliases), Ok(1));
}

#[test]
fn test_channel_ref_resolve_unknown_alias() {
    let aliases = KeyedVec::new();
    let channel = ChannelRef::Alias("unknown".to_string());
    assert!(channel.resolve(&aliases).is_err());
}

#[test]
fn test_http_config_default() {
    let config = HttpConfig::default();

    assert_eq!(config.enabled, false);
    assert_eq!(config.port, 0);
    assert_eq!(config.bind_address, "127.0.0.1");
    assert!(config.auth_token.is_none());
    assert_eq!(config.websocket_enabled, true);
    assert_eq!(config.cors_permissive, false);
}

#[test]
fn test_http_validation_empty_bind_address() {
    let mut config = Config::default();
    config.mqtt.topic = Some("test".to_string());
    config.http.enabled = true;
    config.http.bind_address = "".to_string();

    let result = config.validate();
    assert!(result.is_err());
    let errors = result.unwrap_err();
    assert!(errors.iter().any(|e| e.contains("bind_address")));
}

#[test]
fn test_http_validation_short_auth_token() {
    let mut config = Config::default();
    config.mqtt.topic = Some("test".to_string());
    config.http.enabled = true;
    config.http.auth_token = Some("short".to_string());

    let result = config.validate();
    assert!(result.is_err());
    let errors = result.unwrap_err();
    assert!(errors.iter().any(|e| e.contains("auth_token")));
}

#[test]
fn test_http_validation_valid_config() {
    let mut config = Config::default();
    config.mqtt.topic = Some("test".to_string());
    config.http.enabled = true;
    config.http.port = 8080;
    config.http.auth_token = Some("longenoughtoken".to_string());

    let result = config.validate();
    assert!(result.is_ok());
}

#[test]
fn test_merge_cli_args_http_port() {
    let mut config = Config::default();
    assert!(!config.http.enabled);
    assert_eq!(config.http.port, 0);

    config.merge_cli_args(
        None,
        None,
        None,
        None,
        None,
        None,
        false,
        None,
        None,
        None,
        None,
        None,
        Some(9000),
        None,
    );

    assert!(config.http.enabled);
    assert_eq!(config.http.port, 9000);
}

#[test]
fn test_merge_cli_args_max_cache_mb() {
    let mut config = Config::default();
    assert_eq!(config.cache.max_memory_mb, 512);

    config.merge_cli_args(
        None,
        None,
        None,
        None,
        None,
        None,
        false,
        None,
        None,
        None,
        None,
        None,
        None,
        Some(1024),
    );

    assert_eq!(config.cache.max_memory_mb, 1024);
}

#[test]
fn test_resampler_quality_default() {
    let config = Config::default();
    assert_eq!(config.advanced.resampler_quality, ResamplerQuality::Fast);
}

#[test]
fn test_resampler_quality_methods() {
    assert_eq!(ResamplerQuality::Fast.sinc_len(), 64);
    assert_eq!(ResamplerQuality::Fast.oversampling_factor(), 64);

    assert_eq!(ResamplerQuality::Medium.sinc_len(), 128);
    assert_eq!(ResamplerQuality::Medium.oversampling_factor(), 128);

    assert_eq!(ResamplerQuality::High.sinc_len(), 256);
    assert_eq!(ResamplerQuality::High.oversampling_factor(), 128);

    assert_eq!(ResamplerQuality::Maximum.sinc_len(), 256);
    assert_eq!(ResamplerQuality::Maximum.oversampling_factor(), 256);
}

#[test]
fn test_advanced_config_default() {
    let config = AdvancedConfig::default();
    assert_eq!(config.resampler_quality, ResamplerQuality::Fast);
}

#[test]
fn test_macros_default_empty() {
    let config = Config::default();
    assert_eq!(config.macros.len(), 0);
}

#[test]
fn validate_reports_every_problem_in_order() {
    let mut config = Config::default();
    config.audio.sample_rate = 1000;
    config.logging.level = "loud".to_string();
    config.http.enabled = true;
    config.http.bind_address = String::new();
    config.http.auth_token = Some("abc".to_string());
    let errors = config.validate().unwrap_err();
    assert_eq!(
        errors,
        vec![
            "audio.sample_rate must be between 8000 and 192000".to_string(),
            "logging.level must be one of: error, warn, info, debug, trace".to_string(),
            "http.bind_address must not be empty".to_string(),
            "http.auth_token should be at least 8 characters for security".to_string(),
        ]
    );
}

#[test]
fn validate_names_positions_in_lists() {
    let mut config = Config::default();
    config.mqtt.topic = Some("t".to_string());
    config.inputs.push(InputConfig { routes: vec![route(0, 0)], ..Default::default() });
    config.inputs.push(InputConfig {
        routes: vec![
            route(0, 0),
            InputRouteConfig {
                source_channel: ChannelRef::Alias("mic".to_string()),
                dest_channel: ChannelRef::Index(1),
            },
        ],
        channels: Some(0),
        sample_rate: Some(4000),
        activity_hold_ms: 20000,
        ..Default::default()
    });
    let errors = config.validate().unwrap_err();
    assert_eq!(
        errors,
        vec![
            "inputs[1].channels must be between 1 and 64".to_string(),
            "inputs[1].sample_rate must be between 8000 and 192000".to_string(),
            "inputs[1].activity_hold_ms must be at most 10000".to_string(),
            "inputs[1].routes[1].source_channel: Unknown channel 'mic': define it in audio.channel_aliases as \"mic\": <channel number>".to_string(),
        ]
    );
}

#[test]
fn validate_reports_a_duplicate_source_with_its_channel() {
    let mut config = Config::default();
    config.mqtt.topic = Some("t".to_string());
    config.bass_management.enabled = true;
    config.audio.channel_aliases.insert("left".to_string(), 0);
    config.bass_management.source_channels = vec![
        ChannelRef::Index(0),
        ChannelRef::Alias("left".to_string()),
        ChannelRef::Alias("right".to_string()),
    ];
    let errors = config.validate().unwrap_err();
    assert_eq!(
        errors,
        vec![
            "bass_management.source_channels lists channel 0 twice".to_string(),
            "bass_management.source_channels[2]: Unknown channel 'right': define it in audio.channel_aliases as \"right\": <channel number>".to_string(),
        ]
    );
}

#[test]
fn validate_counts_the_token_in_bytes() {
    let mut config = Config::default();
    config.http.enabled = true;
    // four characters, eight bytes
    config.http.auth_token = Some("\u{e9}\u{e9}\u{e9}\u{e9}".to_string());
    assert!(config.validate().is_ok());
    config.http.auth_token = Some("\u{e9}\u{e9}\u{e9}".to_string());
    assert!(config.validate().is_err());
}

#[test]
fn nan_gain_is_not_reported_out_of_range() {
    let mut config = Config::default();
    config.mqtt.topic = Some("t".to_string());
    config.audio.channel_volumes.insert("1".to_string(), gain(f32::NAN));
    assert!(config.validate().is_ok());
    config.audio.channel_volumes.insert("1".to_string(), gain(-0.0));
    assert!(config.validate().is_ok());
    config.audio.channel_volumes.insert("1".to_string(), gain(4.0));
    assert!(config.validate().is_ok());
    config.audio.channel_volumes.insert("1".to_string(), gain(4.0001));
    assert!(config.validate().is_err());
}

#[test]
fn resolved_path_inside_an_allowed_directory_passes() {
    let allowed = vec![None, Some("/opt/sounds".to_string())];
    assert!(check_resolved_path("x.wav", Ok("/opt/sounds/x.wav".to_string()), &allowed).is_ok());
    assert!(check_resolved_path("x", Ok("/opt/sounds".to_string()), &allowed).is_ok());
    let denied = check_resolved_path("y.wav", Ok("/opt/soundsextra/y.wav".to_string()), &allowed);
    assert_eq!(
        denied,
        Err("'y.wav' is outside security.allowed_directories; add its directory there to permit it".to_string())
    );
    let unresolved = check_resolved_path("z.wav", Err("No such file".to_string()), &allowed);
    assert_eq!(unresolved, Err("Cannot resolve path 'z.wav': No such file".to_string()));
}

#[test]
fn inside_dir_compares_whole_components() {
    assert!(inside_dir_text("/a/b/c", "/a/b"));
    assert!(inside_dir_text("/a/b", "/a/b"));
    assert!(inside_dir_text("/a/b", "/"));
    assert!(!inside_dir_text("/a/bc", "/a/b"));
    assert!(!inside_dir_text("/a", "/a/b"));
}

#[test]
fn config_error_messages() {
    assert_eq!(ConfigError::IoError("gone".to_string()).message(), "IO error: gone");
    assert_eq!(ConfigError::ParseError("bad".to_string()).message(), "Parse error: bad");
}

#[test]
fn test_bass_management_with_aliases() {
    let mut config = Config::default();
    config.mqtt.topic = Some("test".to_string());
    config.audio.channel_aliases.insert("front_left".to_string(), 0);
    config.audio.channel_aliases.insert("front_right".to_string(), 1);
    config.audio.channel_aliases.insert("lfe".to_string(), 3);
    config.bass_management.enabled = true;
    config.bass_management.lfe_channel = ChannelRef::Alias("lfe".to_string());
    config.bass_management.source_channels = vec![
        ChannelRef::Alias("front_left".to_string()),
        ChannelRef::Alias("front_right".to_string()),
    ];
    config.bass_management.crossover_frequency_hz = gain(80.0);

    assert_eq!(config.bass_management.lfe_channel, ChannelRef::Alias("lfe".to_string()));

    let resolved = config.resolve_bass_management().unwrap();
    assert_eq!(resolved.lfe_channel, 3);
    assert_eq!(resolved.source_channels, vec![0, 1]);

    assert!(config.validate().is_ok());
}

#[test]
fn test_input_routes_with_aliases() {
    let mut config = Config::default();
    config.mqtt.topic = Some("test".to_string());
    config.audio.channel_aliases.insert("front_left".to_string(), 0);
    config.audio.channel_aliases.insert("front_right".to_string(), 1);
    config.inputs.push(InputConfig {
        voice_id: "mic".to_string(),
        routes: vec![
            InputRouteConfig {
                source_channel: ChannelRef::Index(0),
                dest_channel: ChannelRef::Alias("front_left".to_string()),
            },
            InputRouteConfig {
                source_channel: ChannelRef::Index(0),
                dest_channel: ChannelRef::Alias("front_right".to_string()),
            },
        ],
        ..Default::default()
    });

    let routes = config.resolve_input_routes(&config.inputs[0].routes).unwrap();
    assert_eq!(routes, vec![(0, 0), (0, 1)]);
}

#[test]
fn test_validation_fails_on_unknown_alias() {
    let mut config = Config::default();
    config.mqtt.topic = Some("test".to_string());
    config.bass_management.enabled = true;
    config.bass_management.lfe_channel = ChannelRef::Alias("unknown_alias".to_string());
    config.bass_management.source_channels = vec![ChannelRef::Index(0), ChannelRef::Index(1)];
    config.bass_management.crossover_frequency_hz = gain(80.0);

    let result = config.validate();
    assert!(result.is_err());
    let errors = result.unwrap_err();
    assert!(errors.iter().any(|e| e.contains("unknown_alias")));
}

#[test]
fn test_validation_fails_on_unknown_route_alias() {
    let mut config = Config::default();
    config.mqtt.topic = Some("test".to_string());
    config.inputs.push(InputConfig {
        voice_id: "mic".to_string(),
        routes: vec![InputRouteConfig {
            source_channel: ChannelRef::Index(0),
            dest_channel: ChannelRef::Alias("unknown".to_string()),
        }],
        ..Default::default()
    });

    let result = config.validate();
    assert!(result.is_err());
    let errors = result.unwrap_err();
    assert!(errors.iter().any(|e| e.contains("unknown")));
}

#[test]
fn utf8_length_limits_of_any_size() {
    assert!(mqttaudio::validation::utf8_len_below("abc", 4));
    assert!(!mqttaudio::validation::utf8_len_below("abc", 3));
    assert!(!mqttaudio::validation::utf8_len_below("é", 2));
    assert!(mqttaudio::validation::utf8_len_below("é", 3));
    assert!(mqttaudio::validation::utf8_len_below(&"x".repeat(5000), 5001));
    assert!(!mqttaudio::validation::utf8_len_below(&"x".repeat(5000), 5000));
    assert!(mqttaudio::validation::utf8_len_below("", usize::MAX));
    assert!(!mqttaudio::validation::utf8_len_below("", 0));
}
