use mqttaudio::document::{ConfigDocument, Json, JsonNumber};
use mqttaudio::editor::{path_of, Pane, PickerItem, Seg};
use mqttaudio::editor_keys::{Action, Key, SaveOutcome};
use mqttaudio::editor_state::{App, LevelKind, Modal};
use mqttaudio::fields::FieldKind;

fn text(s: &str) -> Json {
    Json::Str(s.to_string())
}

fn num(n: u64) -> Json {
    Json::Number(JsonNumber::Unsigned(n))
}

fn object(entries: Vec<(&str, Json)>) -> Json {
    Json::Object(entries.into_iter().map(|(k, v)| (k.to_string(), v)).collect())
}

fn defaults() -> Json {
    object(vec![
        ("mqtt", object(vec![("server", text("localhost")), ("port", num(1883))])),
        ("cache", object(vec![("enabled", Json::Bool(true))])),
        ("logging", object(vec![("level", text("info"))])),
    ])
}

fn app() -> App {
    App::new(ConfigDocument::new(), defaults(), Json::Null, None)
}

fn to_section(a: &mut App, idx: usize) {
    for _ in 0..idx {
        a.handle_key(Key::Down);
    }
    a.handle_key(Key::Right);
    assert_eq!(a.pane, Pane::Form);
}

fn type_text(a: &mut App, s: &str) {
    for c in s.chars() {
        a.handle_key(Key::Char(c));
    }
}

fn is_num(j: Option<&Json>, n: u64) -> bool {
    matches!(j, Some(Json::Number(JsonNumber::Unsigned(v))) if *v == n)
}

#[test]
fn new_editor_starts_on_the_first_section() {
    let a = app();
    assert_eq!(a.status, "New configuration (no file found)");
    assert_eq!(a.section_idx, 0);
    assert_eq!(a.pane, Pane::Sidebar);
    assert_eq!(a.breadcrumb(), "MQTT");
    assert!(!a.dirty && !a.quit);
    let loaded = App::new(ConfigDocument::new(), defaults(), Json::Null, Some("/etc/x.json".to_string()));
    assert_eq!(loaded.status, "Editing /etc/x.json");
}

#[test]
fn sidebar_moves_between_sections() {
    let mut a = app();
    a.handle_key(Key::Up);
    assert_eq!(a.section_idx, 0);
    a.handle_key(Key::Down);
    assert_eq!(a.section_idx, 1);
    assert_eq!(a.breadcrumb(), "Audio");
    a.handle_key(Key::Tab);
    assert_eq!(a.pane, Pane::Form);
    a.handle_key(Key::Tab);
    assert_eq!(a.pane, Pane::Sidebar);
    for _ in 0..20 {
        a.handle_key(Key::Down);
    }
    assert_eq!(a.section_idx, 10);
    assert_eq!(a.breadcrumb(), "Macros");
}

#[test]
fn section_rows_show_defaults_until_set() {
    let a = app();
    let rows = a.rows();
    let labels: Vec<&str> = rows.iter().map(|r| r.label.as_str()).collect();
    assert_eq!(
        labels,
        vec![
            "server",
            "port",
            "topic",
            "client_id",
            "reconnect_delay_seconds",
            "username",
            "password",
            "tls",
            "tls.ca_path"
        ]
    );
    assert!(matches!(&rows[0].value, Json::Str(s) if s == "localhost"));
    assert!(!rows[0].is_set);
    assert!(matches!(rows[2].value, Json::Null));
}

#[test]
fn editing_a_number_sets_it() {
    let mut a = app();
    to_section(&mut a, 0);
    a.handle_key(Key::Down);
    assert!(matches!(a.handle_key(Key::Enter), Action::Nothing));
    assert!(a.edit.is_some());
    type_text(&mut a, "1884");
    a.handle_key(Key::Enter);
    assert!(a.edit.is_none());
    assert!(a.dirty);
    assert!(is_num(a.doc.get(&path_of(&["mqtt", "port"])), 1884));
    let rows = a.rows();
    assert!(rows[1].is_set);
}

#[test]
fn a_rejected_value_keeps_the_edit_open() {
    let mut a = app();
    to_section(&mut a, 0);
    a.handle_key(Key::Down);
    a.handle_key(Key::Enter);
    type_text(&mut a, "99999999");
    a.handle_key(Key::Enter);
    let e = a.edit.as_ref().unwrap();
    assert_eq!(e.error.as_deref(), Some("must be between 1 and 65535"));
    assert!(!a.dirty);
    a.handle_key(Key::Esc);
    assert!(a.edit.is_none());
}

#[test]
fn a_boolean_toggles_from_its_default() {
    let mut a = app();
    to_section(&mut a, 2);
    a.handle_key(Key::Enter);
    assert!(matches!(a.doc.get(&path_of(&["cache", "enabled"])), Some(Json::Bool(false))));
    a.handle_key(Key::Enter);
    assert!(matches!(a.doc.get(&path_of(&["cache", "enabled"])), Some(Json::Bool(true))));
}

#[test]
fn a_switch_sets_and_removes_its_object() {
    let mut a = app();
    to_section(&mut a, 0);
    for _ in 0..7 {
        a.handle_key(Key::Down);
    }
    a.handle_key(Key::Enter);
    assert!(matches!(a.doc.get(&path_of(&["mqtt", "tls"])), Some(Json::Object(es)) if es.is_empty()));
    a.handle_key(Key::Char(' '));
    assert!(a.doc.get(&path_of(&["mqtt", "tls"])).is_none());
}

#[test]
fn quitting_with_changes_asks_first() {
    let mut a = app();
    a.handle_key(Key::Interrupt);
    assert!(a.quit);
    let mut b = app();
    b.dirty = true;
    b.handle_key(Key::Char('q'));
    assert!(matches!(b.modal, Some(Modal::ConfirmQuit)));
    b.handle_key(Key::Char('n'));
    assert!(b.modal.is_none() && !b.quit);
    b.handle_key(Key::Interrupt);
    b.handle_key(Key::Char('Y'));
    assert!(b.quit);
}

#[test]
fn an_enum_picker_starts_on_the_current_value() {
    let mut a = app();
    to_section(&mut a, 4);
    a.handle_key(Key::Enter);
    match &a.modal {
        Some(Modal::ChoicePicker { items, cursor, title, .. }) => {
            assert_eq!(title, "level");
            assert_eq!(items.len(), 5);
            assert_eq!(*cursor, 2);
        }
        _ => panic!("expected a choice picker"),
    }
    a.handle_key(Key::Down);
    a.handle_key(Key::Enter);
    assert!(a.modal.is_none());
    assert!(matches!(a.doc.get(&path_of(&["logging", "level"])), Some(Json::Str(s)) if s == "debug"));
}

#[test]
fn the_memory_budget_cycles_through_its_modes() {
    let mut a = app();
    to_section(&mut a, 2);
    let idx = a.rows().iter().position(|r| r.label == "memory_budget").unwrap();
    for _ in 0..idx {
        a.handle_key(Key::Down);
    }
    let base = a.rows().len();
    a.handle_key(Key::Enter);
    let rows = a.rows();
    assert_eq!(rows.len(), base + 3);
    assert_eq!(rows[idx + 1].label, "memory_budget.fraction");
    assert!(matches!(rows[idx + 2].value, Json::Number(JsonNumber::Unsigned(128))));
    a.handle_key(Key::Enter);
    let rows = a.rows();
    assert_eq!(rows.len(), base + 1);
    assert_eq!(rows[idx + 1].label, "memory_budget.mb");
    assert!(is_num(Some(&rows[idx + 1].value), 512));
    a.handle_key(Key::Enter);
    assert_eq!(a.rows().len(), base);
    a.handle_key(Key::Enter);
    assert!(a.doc.get(&path_of(&["cache", "memory_budget"])).is_none());
}

#[test]
fn adding_a_ducking_rule_opens_its_fields() {
    let mut a = app();
    to_section(&mut a, 6);
    a.handle_key(Key::Enter);
    assert!(matches!(a.levels.last().unwrap().kind, LevelKind::StructList(_)));
    assert!(a.rows().is_empty());
    a.handle_key(Key::Char('a'));
    assert_eq!(a.breadcrumb(), "Ducking Rules > ducking_rules > rule 1");
    let rows = a.rows();
    let labels: Vec<&str> = rows.iter().map(|r| r.label.as_str()).collect();
    assert_eq!(labels, vec!["primary_voice", "ducked_voices", "target_volume", "fade_duration_ms"]);
    assert!(is_num(Some(&rows[3].value), 500));
    a.handle_key(Key::Left);
    let rows = a.rows();
    assert_eq!(rows.len(), 1);
    assert_eq!(rows[0].label, "rule 1");
    assert_eq!(rows[0].help, "One rule in this list. Enter opens its fields.");
}

#[test]
fn map_entries_are_added_by_key_then_value_and_listed_sorted() {
    let mut a = app();
    to_section(&mut a, 1);
    let idx = a.rows().iter().position(|r| r.label == "channel_aliases").unwrap();
    for _ in 0..idx {
        a.handle_key(Key::Down);
    }
    a.handle_key(Key::Enter);
    assert!(matches!(a.levels.last().unwrap().kind, LevelKind::Entries { .. }));
    for (key, value) in [("zeta", "3"), ("alpha", "1")] {
        a.handle_key(Key::Char('a'));
        assert_eq!(a.edit.as_ref().unwrap().label, "new key");
        type_text(&mut a, key);
        a.handle_key(Key::Enter);
        assert_eq!(a.edit.as_ref().unwrap().label, format!("value for {}", key));
        type_text(&mut a, value);
        a.handle_key(Key::Enter);
        assert!(a.edit.is_none());
    }
    let rows = a.rows();
    let labels: Vec<&str> = rows.iter().map(|r| r.label.as_str()).collect();
    assert_eq!(labels, vec!["alpha", "zeta"]);
    assert!(is_num(Some(&rows[1].value), 3));
    assert_eq!(rows[0].path, vec![
        Seg::Key("audio".to_string()),
        Seg::Key("channel_aliases".to_string()),
        Seg::Key("alpha".to_string())
    ]);
    a.handle_key(Key::Char('a'));
    type_text(&mut a, "alpha");
    a.handle_key(Key::Enter);
    assert_eq!(a.edit.as_ref().unwrap().error.as_deref(), Some("'alpha' already exists"));
}

#[test]
fn channel_pickers_offer_aliases_then_free_channels() {
    let mut doc = ConfigDocument::new();
    doc.set(&path_of(&["audio", "channel_aliases", "zeta"]), num(3));
    doc.set(&path_of(&["audio", "channel_aliases", "alpha"]), num(1));
    let mut a = App::new(doc, defaults(), Json::Null, None);
    to_section(&mut a, 7);
    let idx = a.rows().iter().position(|r| r.label == "lfe_channel").unwrap();
    for _ in 0..idx {
        a.handle_key(Key::Down);
    }
    a.handle_key(Key::Enter);
    match &a.modal {
        Some(Modal::ChoicePicker { items, title, .. }) => {
            assert_eq!(title, "Select channel");
            let inserts: Vec<&str> = items.iter().map(|c| c.insert_text.as_str()).collect();
            assert_eq!(inserts, vec!["alpha", "zeta", "0", "2", ""]);
            assert_eq!(items[1].detail, "channel 3");
            assert_eq!(items[2].label, "channel 0");
            assert!(items[4].custom);
        }
        _ => panic!("expected a choice picker"),
    }
    a.handle_key(Key::Down);
    a.handle_key(Key::Enter);
    assert!(matches!(a.doc.get(&path_of(&["bass_management", "lfe_channel"])), Some(Json::Str(s)) if s == "zeta"));
}

#[test]
fn saving_goes_through_the_dialog() {
    let mut a = app();
    a.dirty = true;
    assert!(matches!(a.handle_key(Key::Char('s')), Action::ListSaveCandidates));
    a.open_save_dialog(vec!["a.json".to_string(), "b.json".to_string()]);
    a.handle_key(Key::Down);
    match &a.modal {
        Some(Modal::SaveDialog { buffer, cursor, .. }) => {
            assert_eq!(buffer, "b.json");
            assert_eq!(*cursor, 6);
        }
        _ => panic!("expected the save dialog"),
    }
    a.handle_key(Key::Down);
    a.handle_key(Key::Char('x'));
    match a.handle_key(Key::Enter) {
        Action::Save { path } => assert_eq!(path, "a.jsonx"),
        _ => panic!("expected a save"),
    }
    a.save_finished("a.jsonx".to_string(), Ok(SaveOutcome { backup: Some("a.jsonx.bak".to_string()) }));
    assert!(!a.dirty);
    assert_eq!(a.loaded_from.as_deref(), Some("a.jsonx"));
    assert_eq!(a.status, "Saved a.jsonx (backup at a.jsonx.bak) — restart mqttaudio to apply");
    a.save_finished("x".to_string(), Err(vec!["bad".to_string()]));
    assert!(matches!(&a.modal, Some(Modal::Errors { errors, .. }) if errors == &vec!["bad".to_string()]));
    a.handle_key(Key::Other);
    assert!(a.modal.is_none());
}

#[test]
fn picking_a_device_sets_it() {
    let mut a = app();
    to_section(&mut a, 1);
    let act = a.handle_key(Key::Enter);
    let target = match act {
        Action::ListDevices { output, target } => {
            assert!(output);
            target
        }
        _ => panic!("expected a device listing"),
    };
    a.show_device_picker(
        true,
        vec![PickerItem { name: Some("dev1".to_string()), detail: "2 ch".to_string() }],
        target,
        None,
    );
    a.handle_key(Key::Down);
    a.handle_key(Key::Enter);
    assert!(matches!(a.doc.get(&path_of(&["audio", "device"])), Some(Json::Str(s)) if s == "dev1"));
    assert_eq!(a.status, "Device set to dev1");
}

#[test]
fn the_channel_sweep_plays_each_channel_in_turn() {
    let mut a = app();
    a.output_test_started(None, Ok(2), vec![("lfe".to_string(), 1), ("far".to_string(), 9)], None);
    match &a.modal {
        Some(Modal::OutputTest(st)) => {
            assert_eq!(st.aliases, vec![None, Some("lfe".to_string())]);
            assert_eq!(st.device_label, "(default)");
        }
        _ => panic!("expected the output test"),
    }
    a.handle_key(Key::Char('a'));
    assert!(matches!(a.tick(1000), Action::PlayTone { channel: 0, bass: false }));
    assert!(matches!(a.tick(1500), Action::Nothing));
    assert!(matches!(a.tick(1800), Action::PlayTone { channel: 1, bass: false }));
    assert!(matches!(a.tick(2600), Action::Nothing));
    assert!(matches!(&a.modal, Some(Modal::OutputTest(st)) if st.sweep.is_none() && st.cursor == 1));
    assert!(matches!(a.handle_key(Key::Char('b')), Action::PlayTone { channel: 1, bass: true }));
    assert!(matches!(a.handle_key(Key::Esc), Action::StopTest { back: None }));
    assert!(a.modal.is_none());
}

#[test]
fn float_values_are_read_by_the_caller() {
    let mut a = app();
    to_section(&mut a, 1);
    let idx = a.rows().iter().position(|r| r.label == "master_gain").unwrap();
    for _ in 0..idx {
        a.handle_key(Key::Down);
    }
    a.handle_key(Key::Enter);
    type_text(&mut a, "0.5");
    match a.handle_key(Key::Enter) {
        Action::ParseValue { kind, text } => {
            assert!(matches!(kind, FieldKind::Float { .. }));
            assert_eq!(text, "0.5");
        }
        _ => panic!("expected a parse request"),
    }
    assert!(a.edit.is_some());
    a.finish_commit(Ok(Some(Json::Number(JsonNumber::Float(0x3fe0000000000000)))));
    assert!(a.edit.is_none());
    assert!(matches!(
        a.doc.get(&path_of(&["audio", "master_gain"])),
        Some(Json::Number(JsonNumber::Float(0x3fe0000000000000)))
    ));
}

#[test]
fn unsetting_the_last_row_moves_the_cursor_up() {
    let mut a = app();
    to_section(&mut a, 3);
    a.handle_key(Key::Enter);
    for v in ["/a", "/b"] {
        a.handle_key(Key::Char('a'));
        type_text(&mut a, v);
        a.handle_key(Key::Enter);
    }
    assert!(matches!(&a.edit, None));
    assert_eq!(a.levels.last().unwrap().cursor, 1);
    a.handle_key(Key::Char('d'));
    assert_eq!(a.levels.last().unwrap().cursor, 0);
    let rows = a.rows();
    assert_eq!(rows.len(), 1);
    assert!(matches!(&rows[0].value, Json::Str(s) if s == "/a"));
    assert!(a.edit.is_none());
}

#[test]
fn navigation_keys_never_edit() {
    let mut a = app();
    to_section(&mut a, 1);
    for k in [Key::Down, Key::Down, Key::Up, Key::Left, Key::Right, Key::Tab, Key::Esc, Key::Home, Key::End] {
        a.handle_key(k);
        assert!(!a.dirty);
        assert!(matches!(a.doc.root(), Json::Object(es) if es.is_empty()));
    }
}

#[test]
fn a_test_error_is_shown_in_the_open_test_screen() {
    let mut a = app();
    a.test_error("device vanished".to_string());
    assert!(a.modal.is_none());
    a.output_test_started(Some("dac".to_string()), Ok(2), vec![], None);
    a.test_error("device vanished".to_string());
    assert!(matches!(&a.modal, Some(Modal::OutputTest(st)) if st.error.as_deref() == Some("device vanished")));
    assert_eq!(a.current_section(), mqttaudio::editor::Section::Mqtt);
}
