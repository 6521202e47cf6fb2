use mqttaudio::document::{ConfigDocument, Json, JsonNumber};
use mqttaudio::editor::{path_of, Seg};
use mqttaudio::fields::{commit_edit, parse_field_value, CommitOutcome, EditTarget, FieldKind};

static LEVELS: [&str; 3] = ["error", "warn", "info"];

fn ok_str(r: Result<Option<Json>, String>) -> Option<String> {
    match r {
        Ok(Some(Json::Str(s))) => Some(s),
        _ => None,
    }
}

#[test]
fn text_fields_are_trimmed_and_required() {
    assert_eq!(ok_str(parse_field_value(&FieldKind::Text, "  broker  ", None)), Some("broker".to_string()));
    assert_eq!(parse_field_value(&FieldKind::Text, "   ", None).unwrap_err(), "a value is required");
    assert!(matches!(parse_field_value(&FieldKind::OptionalText, " ", None), Ok(None)));
}

#[test]
fn whole_numbers_are_range_checked() {
    let kind = FieldKind::UInt { min: 1, max: 65535 };
    assert!(matches!(
        parse_field_value(&kind, "8883", None),
        Ok(Some(Json::Number(JsonNumber::Unsigned(8883))))
    ));
    assert_eq!(parse_field_value(&kind, "0", None).unwrap_err(), "must be between 1 and 65535");
    assert_eq!(parse_field_value(&kind, "12ab", None).unwrap_err(), "'12ab' is not a whole number");
    assert!(matches!(parse_field_value(&FieldKind::OptionalUInt { min: 0, max: 9 }, "", None), Ok(None)));
}

#[test]
fn options_and_booleans_ignore_case() {
    let kind = FieldKind::Enum(&LEVELS);
    assert_eq!(ok_str(parse_field_value(&kind, "WARN", None)), Some("warn".to_string()));
    assert_eq!(parse_field_value(&kind, "loud", None).unwrap_err(), "must be one of: error, warn, info");
    assert!(matches!(parse_field_value(&FieldKind::Bool, " True ", None), Ok(Some(Json::Bool(true)))));
    assert_eq!(parse_field_value(&FieldKind::Bool, "yes", None).unwrap_err(), "must be true or false");
}

#[test]
fn channel_refs_are_numbers_or_names() {
    assert!(matches!(
        parse_field_value(&FieldKind::ChannelRef, "3", None),
        Ok(Some(Json::Number(JsonNumber::Unsigned(3))))
    ));
    assert_eq!(ok_str(parse_field_value(&FieldKind::ChannelRef, "sub", None)), Some("sub".to_string()));
    assert!(parse_field_value(&FieldKind::ChannelRef, "", None).is_err());
    assert_eq!(parse_field_value(&FieldKind::StringList, "x", None).unwrap_err(), "not a text-editable field");
}

#[test]
fn json_values_come_from_outside() {
    let parsed = Some(Err("expected value at line 1 column 1".to_string()));
    assert_eq!(
        parse_field_value(&FieldKind::MapToJson, "{", parsed).unwrap_err(),
        "invalid JSON: expected value at line 1 column 1"
    );
    assert!(matches!(parse_field_value(&FieldKind::MapToJson, "null", Some(Ok(Some(Json::Null)))), Ok(Some(Json::Null))));
}

#[test]
fn committing_a_field_sets_or_unsets_it() {
    let mut doc = ConfigDocument::new();
    let target = EditTarget::Field { path: path_of(&["mqtt", "topic"]), kind: FieldKind::OptionalText };
    let (outcome, changed) = commit_edit(&mut doc, &target, "audio/cmd", None);
    assert!(matches!(outcome, CommitOutcome::Closed) && changed);
    assert!(matches!(doc.get(&path_of(&["mqtt", "topic"])), Some(Json::Str(s)) if s == "audio/cmd"));
    let (outcome, changed) = commit_edit(&mut doc, &target, "  ", None);
    assert!(matches!(outcome, CommitOutcome::Closed) && changed);
    assert!(doc.get(&path_of(&["mqtt"])).is_none());
}

#[test]
fn a_rejected_value_leaves_the_document() {
    let mut doc = ConfigDocument::new();
    let target = EditTarget::Field { path: path_of(&["mqtt", "port"]), kind: FieldKind::UInt { min: 1, max: 65535 } };
    let (outcome, changed) = commit_edit(&mut doc, &target, "99999", None);
    assert!(matches!(outcome, CommitOutcome::Rejected(ref e) if e == "must be between 1 and 65535"));
    assert!(!changed);
    assert!(doc.get(&path_of(&["mqtt"])).is_none());
}

#[test]
fn committing_a_list_item_appends_and_moves_the_cursor() {
    let mut doc = ConfigDocument::new();
    let target = EditTarget::NewListItem { base: path_of(&["cache", "precache"]), kind: FieldKind::Text };
    commit_edit(&mut doc, &target, "/a.wav", None);
    let (outcome, changed) = commit_edit(&mut doc, &target, "/b.wav", None);
    assert!(matches!(outcome, CommitOutcome::Appended { cursor: 1 }) && changed);
    assert_eq!(doc.list_len(&path_of(&["cache", "precache"])), 2);
}

#[test]
fn a_new_map_key_asks_for_its_value() {
    let mut doc = ConfigDocument::new();
    let base = path_of(&["audio", "channel_aliases"]);
    let target = EditTarget::MapKey { base: base.clone(), value_kind: FieldKind::UInt { min: 0, max: 64 } };
    match commit_edit(&mut doc, &target, " sub ", None) {
        (CommitOutcome::AskValue { key, label, path, .. }, false) => {
            assert_eq!(key, "sub");
            assert_eq!(label, "value for sub");
            assert_eq!(path, vec![Seg::Key("audio".to_string()), Seg::Key("channel_aliases".to_string()), Seg::Key("sub".to_string())]);
            let value = EditTarget::MapValue { path, kind: FieldKind::UInt { min: 0, max: 64 } };
            let (done, changed) = commit_edit(&mut doc, &value, "3", None);
            assert!(matches!(done, CommitOutcome::Closed) && changed);
        }
        _ => panic!("expected to be asked for the value"),
    }
    match commit_edit(&mut doc, &target, "sub", None) {
        (CommitOutcome::Rejected(e), false) => assert_eq!(e, "'sub' already exists"),
        _ => panic!("a key cannot be added twice"),
    }
    assert!(matches!(commit_edit(&mut doc, &target, "", None).0, CommitOutcome::Rejected(ref e) if e == "a key is required"));
}

#[test]
fn a_new_macro_opens_its_form() {
    let mut doc = ConfigDocument::new();
    let target = EditTarget::MapKey { base: path_of(&["macros"]), value_kind: FieldKind::MapToJson };
    match commit_edit(&mut doc, &target, "quiet", None) {
        (CommitOutcome::MacroCreated { key, intro, .. }, true) => {
            assert_eq!(key, "quiet");
            assert_eq!(
                intro,
                "Parameters merged into commands that use \"macro\": \"quiet\". Command parameters override macro parameters."
            );
        }
        _ => panic!("expected a new macro"),
    }
    assert!(matches!(doc.get(&path_of(&["macros", "quiet"])), Some(Json::Object(es)) if es.is_empty()));
}

#[test]
fn a_map_value_is_required() {
    let mut doc = ConfigDocument::new();
    let target = EditTarget::MapValue { path: path_of(&["audio", "channel_names", "0"]), kind: FieldKind::OptionalText };
    assert!(matches!(commit_edit(&mut doc, &target, "", None), (CommitOutcome::Rejected(ref e), false) if e == "a value is required"));
}
