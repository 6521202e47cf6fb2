use mqttaudio::display::{display_value, row_display, summarize, Piece};
use mqttaudio::editor_state::{LevelKind, Row};
use mqttaudio::document::{ConfigDocument, Json, JsonNumber};
use mqttaudio::editor::{path_of, Section};
use mqttaudio::editor_state::{channel_choices, section_fields};
use mqttaudio::fields::{FieldKind, StructListKind};
use mqttaudio::registry::Tables;

fn text(s: &str) -> Json {
    Json::Str(s.to_string())
}

fn num(n: u64) -> Json {
    Json::Number(JsonNumber::Unsigned(n))
}

fn object(entries: Vec<(&str, Json)>) -> Json {
    Json::Object(entries.into_iter().map(|(k, v)| (k.to_string(), v)).collect())
}

fn only_text(p: &[Piece]) -> String {
    assert_eq!(p.len(), 1);
    match &p[0] {
        Piece::Text(t) => t.clone(),
        _ => panic!("expected text"),
    }
}

#[test]
fn display_counts_items_and_entries() {
    let list = Json::Array(vec![text("a")]);
    assert_eq!(only_text(&display_value(&FieldKind::StringList, &list)), "[1 item]");
    assert_eq!(only_text(&display_value(&FieldKind::StringList, &Json::Null)), "[0 items]");
    let map = object(vec![("a", num(1)), ("b", num(2))]);
    assert_eq!(only_text(&display_value(&FieldKind::MapToUInt, &map)), "{2 entries}");
    assert_eq!(only_text(&display_value(&FieldKind::MapToJson, &object(vec![("a", num(1))]))), "{1 entry}");
}

#[test]
fn display_masks_secrets_and_shows_switches() {
    assert_eq!(only_text(&display_value(&FieldKind::Secret, &text("pw"))), "********");
    assert_eq!(only_text(&display_value(&FieldKind::Secret, &Json::Null)), "(unset)");
    assert_eq!(only_text(&display_value(&FieldKind::Flag, &object(vec![]))), "on");
    assert_eq!(only_text(&display_value(&FieldKind::Flag, &Json::Null)), "off");
}

#[test]
fn display_of_plain_values() {
    assert_eq!(only_text(&display_value(&FieldKind::Text, &Json::Null)), "(unset)");
    assert_eq!(only_text(&display_value(&FieldKind::Text, &text("x"))), "x");
    assert_eq!(only_text(&display_value(&FieldKind::Bool, &Json::Bool(true))), "true");
    assert_eq!(only_text(&display_value(&FieldKind::UInt { min: 0, max: 9 }, &num(42))), "42");
    let neg = Json::Number(JsonNumber::Signed(-7));
    assert_eq!(only_text(&display_value(&FieldKind::Text, &neg)), "-7");
    let half = Json::Number(JsonNumber::Float(0x3fe0000000000000));
    assert!(matches!(display_value(&FieldKind::Text, &half)[..], [Piece::Float(0x3fe0000000000000)]));
}

#[test]
fn display_of_memory_budgets() {
    let explicit = object(vec![("mode", text("explicit")), ("mb", num(256))]);
    assert_eq!(only_text(&display_value(&FieldKind::MemoryBudget, &explicit)), "explicit (256 MiB)");
    let unlimited = object(vec![("mode", text("unlimited"))]);
    assert_eq!(only_text(&display_value(&FieldKind::MemoryBudget, &unlimited)), "unlimited");
    let odd = object(vec![("mode", text("odd"))]);
    assert_eq!(only_text(&display_value(&FieldKind::MemoryBudget, &odd)), "(invalid)");
    assert_eq!(only_text(&display_value(&FieldKind::MemoryBudget, &Json::Null)), "(not set)");
    let auto = object(vec![("mode", text("auto")), ("floor_mb", num(64))]);
    let p = display_value(&FieldKind::MemoryBudget, &auto);
    assert_eq!(p.len(), 3);
    assert!(matches!(&p[0], Piece::Text(t) if t == "auto ("));
    assert!(matches!(&p[1], Piece::Percent(JsonNumber::Float(0x3fd999999999999a))));
    assert!(matches!(&p[2], Piece::Text(t) if t == "% of RAM, 64 - 1024 MiB)"));
}

#[test]
fn summaries_of_list_structures() {
    let route = object(vec![("source_channel", num(0)), ("dest_channel", text("lfe"))]);
    let p = summarize(StructListKind::Routes, &route);
    let joined: String = p
        .iter()
        .map(|x| match x {
            Piece::Text(t) => t.clone(),
            _ => panic!("expected text"),
        })
        .collect();
    assert_eq!(joined, "in 0 → out lfe");
    let input = object(vec![("device", text("mic1")), ("routes", Json::Array(vec![route]))]);
    assert_eq!(only_text(&summarize(StructListKind::Inputs, &input)), "\"mic1\" → voice \"mic\", 1 route");
    assert_eq!(only_text(&summarize(StructListKind::Inputs, &object(vec![]))), "(default device) → voice \"mic\", no routes!");
    let rule = object(vec![
        ("primary_voice", text("news")),
        ("ducked_voices", Json::Array(vec![text("music"), num(3), text("fx")])),
        ("fade_duration_ms", num(250)),
    ]);
    let p = summarize(StructListKind::DuckingRules, &rule);
    assert!(matches!(&p[0], Piece::Text(t) if t == "\"news\" ducks music, fx → "));
    assert!(matches!(&p[1], Piece::Percent(JsonNumber::Float(0x3fe0000000000000))));
    assert!(matches!(&p[2], Piece::Text(t) if t == "% over 250ms"));
    let bare = object(vec![("primary_voice", text(""))]);
    assert_eq!(only_text(&summarize(StructListKind::DuckingRules, &bare)), "(unconfigured — set primary_voice)");
    assert_eq!(only_text(&summarize(StructListKind::Routes, &num(1))), "(invalid)");
}

#[test]
fn section_fields_keeps_the_registry_order() {
    let t = Tables::new();
    let f = section_fields(&t.fields, Section::Http);
    let labels: Vec<&str> = f.iter().map(|s| s.label).collect();
    assert_eq!(
        labels,
        vec!["enabled", "port", "bind_address", "auth_token", "websocket_enabled", "cors_permissive", "require_auth"]
    );
    assert_eq!(section_fields(&t.fields, Section::Security).len(), 1);
}

#[test]
fn channel_picker_counts_past_the_largest_alias_wrapping_at_the_top() {
    let mut doc = ConfigDocument::new();
    let labels = |d: &ConfigDocument| channel_choices(d, &Json::Null).iter().map(|c| c.label.clone()).collect::<Vec<_>>();
    assert_eq!(labels(&doc).len(), 9);
    doc.set(&path_of(&["audio", "channel_aliases", "lfe"]), num(2));
    assert_eq!(labels(&doc), vec!["lfe", "channel 0", "channel 1", "other…"]);
    doc.set(&path_of(&["audio", "channel_aliases", "x"]), num(u64::MAX));
    assert_eq!(labels(&doc), vec!["lfe", "x", "channel 0", "channel 1", "other…"]);
    doc.set(&path_of(&["audio", "channels"]), num(4));
    assert_eq!(labels(&doc), vec!["lfe", "x", "channel 0", "channel 1", "channel 3", "other…"]);
}

#[test]
fn rows_are_shown_by_their_level() {
    let row = Row {
        label: "password".to_string(),
        path: path_of(&["mqtt", "password"]),
        kind: FieldKind::Secret,
        help: String::new(),
        value: text("pw"),
        is_set: true,
        as_json: false,
    };
    assert_eq!(only_text(&row_display(LevelKind::Section(Section::Mqtt), &row)), "********");
    let json_row = Row { as_json: true, ..row };
    assert!(matches!(&row_display(LevelKind::Section(Section::Mqtt), &json_row)[..], [Piece::JsonText(Json::Str(s))] if s == "pw"));
    let rule = Row {
        label: "[0]".to_string(),
        path: vec![],
        kind: FieldKind::Text,
        help: String::new(),
        value: object(vec![("primary_voice", text("announce")), ("ducked_voices", Json::Array(vec![text("music")]))]),
        is_set: true,
        as_json: false,
    };
    let shown = row_display(LevelKind::StructList(StructListKind::DuckingRules), &rule);
    assert_eq!(format!("{:?}", shown), format!("{:?}", summarize(StructListKind::DuckingRules, &rule.value)));
}
