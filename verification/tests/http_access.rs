use mqttaudio::document::{Json, JsonNumber};
use mqttaudio::http::{
    authorized, ct_eq, exposure_warning, is_cross_site, percent_decode, redact_config_json,
    split_params, CommandResponse, LatencyTracker, PlayLatencyStats, ProbeReading,
};

#[test]
fn ct_eq_compares_whole_strings() {
    assert!(ct_eq("secret-token", "secret-token"));
    assert!(!ct_eq("secret-token", "secret-tokem"));
    assert!(!ct_eq("secret", "secret-token"));
    assert!(ct_eq("", ""));
    assert!(ct_eq("\u{e9}t\u{e9}", "\u{e9}t\u{e9}"));
}

#[test]
fn percent_decode_reads_escapes_and_plus() {
    assert_eq!(percent_decode("a%20b"), "a b");
    assert_eq!(percent_decode("a+b"), "a b");
    assert_eq!(percent_decode("%41%42c"), "ABc");
    assert_eq!(percent_decode("100%"), "100%");
    assert_eq!(percent_decode("%zz"), "%zz");
    assert_eq!(percent_decode("%4"), "%4");
    assert_eq!(percent_decode("%c3%a9"), "\u{e9}");
    assert_eq!(percent_decode("%ff"), "\u{fffd}");
}

#[test]
fn percent_decode_takes_a_signed_hex_pair() {
    // u8::from_str_radix accepts a leading plus sign
    assert_eq!(percent_decode("%+41"), "\u{4}1");
}

#[test]
fn split_params_keeps_empty_pieces() {
    assert_eq!(split_params("a=1&b=2"), vec!["a=1".to_string(), "b=2".to_string()]);
    assert_eq!(split_params(""), vec![String::new()]);
    assert_eq!(split_params("&x"), vec![String::new(), "x".to_string()]);
    assert_eq!(split_params("x&"), vec!["x".to_string(), String::new()]);
}

#[test]
fn open_mode_passes_unless_auth_is_required() {
    assert!(authorized(None, false, None, None));
    assert!(!authorized(None, true, Some("Bearer anything"), Some("token=anything")));
}

#[test]
fn bearer_token_authenticates() {
    let token = Some("s3cret");
    assert!(authorized(token, false, Some("Bearer s3cret"), None));
    assert!(!authorized(token, false, Some("Bearer wrong"), None));
    assert!(!authorized(token, false, Some("bearer s3cret"), None));
    assert!(!authorized(token, false, None, None));
}

#[test]
fn query_token_authenticates_decoded() {
    let token = Some("a b&c");
    assert!(authorized(token, false, None, Some("x=1&token=a+b%26c")));
    assert!(authorized(token, false, Some("Bearer no"), Some("token=a%20b%26c")));
    assert!(!authorized(token, false, None, Some("tokens=a+b%26c")));
    assert!(!authorized(token, false, None, Some("token=a+b")));
}

#[test]
fn cross_site_header_ignores_case() {
    assert!(is_cross_site(b"cross-site"));
    assert!(is_cross_site(b"Cross-Site"));
    assert!(!is_cross_site(b"same-origin"));
    assert!(!is_cross_site(b"cross-site "));
}

#[test]
fn exposure_warning_only_for_open_public_binds() {
    let warning = exposure_warning("0.0.0.0:8080", false, &None, false).unwrap();
    assert_eq!(
        warning,
        "HTTP control API exposed on 0.0.0.0:8080 without authentication. Set http.auth_token and http.require_auth to restrict access, or bind to 127.0.0.1."
    );
    assert!(exposure_warning("127.0.0.1:8080", true, &None, false).is_none());
    assert!(exposure_warning("0.0.0.0:8080", false, &Some("t".to_string()), false).is_none());
    assert!(exposure_warning("0.0.0.0:8080", false, &None, true).is_none());
}

#[test]
fn command_responses() {
    let ok = CommandResponse::ok();
    assert!(ok.success);
    assert_eq!(ok.message.as_deref(), Some("Command accepted"));
    assert!(ok.error.is_none());
    let err = CommandResponse::error("boom");
    assert!(!err.success);
    assert!(err.message.is_none());
    assert_eq!(err.error.as_deref(), Some("boom"));
}

fn obj(entries: Vec<(&str, Json)>) -> Json {
    Json::Object(entries.into_iter().map(|(k, v)| (k.to_string(), v)).collect())
}

fn text(s: &str) -> Json {
    Json::Str(s.to_string())
}

#[test]
fn redaction_nulls_the_token_and_password() {
    let config = obj(vec![
        ("mqtt", obj(vec![("server", text("broker")), ("password", text("hunter2"))])),
        ("http", obj(vec![("port", Json::Number(JsonNumber::Unsigned(8080))), ("auth_token", text("s3cret-token"))])),
        ("logging", obj(vec![("level", text("info"))])),
    ]);
    let r = redact_config_json(config);
    let expected = obj(vec![
        ("mqtt", obj(vec![("server", text("broker")), ("password", Json::Null)])),
        ("http", obj(vec![("port", Json::Number(JsonNumber::Unsigned(8080))), ("auth_token", Json::Null)])),
        ("logging", obj(vec![("level", text("info"))])),
    ]);
    assert_eq!(format!("{:?}", r), format!("{:?}", expected));
}

#[test]
fn redaction_leaves_absent_secrets_absent() {
    let config = obj(vec![
        ("mqtt", obj(vec![("server", text("broker"))])),
        ("http", text("not an object")),
    ]);
    let r = redact_config_json(config);
    let expected = obj(vec![
        ("mqtt", obj(vec![("server", text("broker"))])),
        ("http", text("not an object")),
    ]);
    assert_eq!(format!("{:?}", r), format!("{:?}", expected));
    assert_eq!(format!("{:?}", redact_config_json(Json::Null)), "Null");
}

#[test]
fn latency_fold_takes_fired_probes_in_order() {
    let mut t = LatencyTracker::new(PlayLatencyStats::default());
    let probes = [
        ProbeReading { value: 0, held: true },
        ProbeReading { value: 5_000, held: true },
        ProbeReading { value: 0, held: false },
        ProbeReading { value: 2_000, held: false },
    ];
    let keep = t.fold_fired(&probes);
    assert_eq!(keep, vec![true, false, false, false]);
    assert_eq!(t.stats, PlayLatencyStats { last_ns: 2_000, max_ns: 5_000, plays_measured: 2 });
    let keep = t.fold_fired(&[ProbeReading { value: 9_000, held: true }]);
    assert_eq!(keep, vec![false]);
    assert_eq!(t.stats, PlayLatencyStats { last_ns: 9_000, max_ns: 9_000, plays_measured: 3 });
}
