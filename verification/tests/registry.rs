use mqttaudio::editor::Section;
use mqttaudio::fields::{FieldKind, StructListKind};
use mqttaudio::registry::Tables;

#[test]
fn registry_lists_every_setting_in_display_order() {
    let t = Tables::new();
    assert_eq!(t.fields.len(), 54);
    let first = &t.fields[0];
    assert_eq!(first.section, Section::Mqtt);
    assert_eq!(first.label, "server");
    assert_eq!(first.path, &["mqtt", "server"][..]);
    assert_eq!(first.kind, FieldKind::Text);
    let last = &t.fields[53];
    assert_eq!(last.section, Section::Macros);
    assert_eq!(last.path, &["macros"][..]);
    assert_eq!(last.kind, FieldKind::MapToJson);
    let port = &t.fields[1];
    assert_eq!(port.kind, FieldKind::UInt { min: 1, max: 65535 });
    let mode = t.fields.iter().find(|f| f.path == &["cache", "load_mode"][..]).unwrap();
    assert_eq!(mode.kind, FieldKind::Enum(&["auto", "full", "stream"]));
}

#[test]
fn registry_sections_appear_in_sidebar_order() {
    let t = Tables::new();
    let order = [
        Section::Mqtt,
        Section::Audio,
        Section::Cache,
        Section::Security,
        Section::Logging,
        Section::Http,
        Section::Ducking,
        Section::BassManagement,
        Section::Inputs,
        Section::Advanced,
        Section::Macros,
    ];
    let mut pos = 0;
    for f in &t.fields {
        while order[pos] != f.section {
            pos += 1;
        }
    }
    assert_eq!(pos, order.len() - 1);
}

#[test]
fn structure_tables_hold_their_fields() {
    let t = Tables::new();
    let keys = |v: &Vec<mqttaudio::registry::SubFieldSpec>| v.iter().map(|f| f.key).collect::<Vec<_>>();
    assert_eq!(keys(&t.ducking_rule), vec!["primary_voice", "ducked_voices", "target_volume", "fade_duration_ms"]);
    assert_eq!(keys(&t.route), vec!["source_channel", "dest_channel"]);
    assert_eq!(keys(&t.input), vec!["device", "volume", "voice_id", "routes", "latency_ms"]);
    assert_eq!(t.input[3].kind, FieldKind::StructList(StructListKind::Routes));
    assert_eq!(t.macro_params.len(), 14);
    assert_eq!(t.macro_params[13].key, "id");
}
