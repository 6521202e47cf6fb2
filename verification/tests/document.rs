use mqttaudio::document::{ConfigDocument, Json, JsonNumber};
use mqttaudio::editor::{path_of, Seg};

fn num(n: u64) -> Json {
    Json::Number(JsonNumber::Unsigned(n))
}

fn is_num(j: Option<&Json>, n: u64) -> bool {
    matches!(j, Some(Json::Number(JsonNumber::Unsigned(v))) if *v == n)
}

#[test]
fn set_creates_sections_and_get_reads_back() {
    let mut doc = ConfigDocument::new();
    doc.set(&path_of(&["mqtt", "port"]), num(8883));
    assert!(is_num(doc.get(&path_of(&["mqtt", "port"])), 8883));
    assert!(matches!(doc.get(&path_of(&["mqtt"])), Some(Json::Object(es)) if es.len() == 1));
    assert!(doc.get(&path_of(&["mqtt", "server"])).is_none());
    doc.set(&path_of(&["mqtt", "port"]), num(1883));
    assert!(is_num(doc.get(&path_of(&["mqtt", "port"])), 1883));
}

#[test]
fn unset_prunes_emptied_sections_but_not_the_root() {
    let mut doc = ConfigDocument::new();
    doc.set(&path_of(&["audio", "channel_aliases", "sub"]), num(3));
    doc.unset(&path_of(&["audio", "channel_aliases", "sub"]));
    assert!(doc.get(&path_of(&["audio"])).is_none());
    assert!(matches!(doc.root(), Json::Object(es) if es.is_empty()));
}

#[test]
fn unset_keeps_sections_that_still_hold_settings() {
    let mut doc = ConfigDocument::new();
    doc.set(&path_of(&["mqtt", "port"]), num(1));
    doc.set(&path_of(&["mqtt", "topic"]), Json::Str("t".to_string()));
    doc.unset(&path_of(&["mqtt", "port"]));
    assert!(doc.get(&path_of(&["mqtt", "port"])).is_none());
    assert!(matches!(doc.get(&path_of(&["mqtt", "topic"])), Some(Json::Str(s)) if s == "t"));
}

#[test]
fn push_creates_and_grows_lists() {
    let mut doc = ConfigDocument::new();
    let path = path_of(&["cache", "precache"]);
    assert_eq!(doc.list_len(&path), 0);
    doc.push(&path, Json::Str("/a.wav".to_string()));
    doc.push(&path, Json::Str("/b.wav".to_string()));
    assert_eq!(doc.list_len(&path), 2);
    let mut second = path.clone();
    second.push(Seg::Idx(1));
    assert!(matches!(doc.get(&second), Some(Json::Str(s)) if s == "/b.wav"));
    doc.unset(&second);
    assert_eq!(doc.list_len(&path), 1);
}

#[test]
fn a_list_emptied_by_unset_stays() {
    let mut doc = ConfigDocument::new();
    let path = path_of(&["security", "allowed_directories"]);
    doc.push(&path, Json::Str("/x".to_string()));
    let mut first = path.clone();
    first.push(Seg::Idx(0));
    doc.unset(&first);
    assert_eq!(doc.list_len(&path), 0);
    assert!(matches!(doc.get(&path), Some(Json::Array(items)) if items.is_empty()));
}

#[test]
fn set_through_a_missing_position_stops_there() {
    let mut doc = ConfigDocument::new();
    let mut path = path_of(&["inputs"]);
    path.push(Seg::Idx(0));
    path.push(Seg::Key("volume".to_string()));
    doc.set(&path, num(1));
    // the object on the way was made, the missing list position stopped the walk
    assert!(matches!(doc.get(&path_of(&["inputs"])), Some(Json::Object(es)) if es.is_empty()));
}

#[test]
fn from_value_wants_an_object() {
    assert!(ConfigDocument::from_value(Json::Object(Vec::new())).is_ok());
    match ConfigDocument::from_value(Json::Array(Vec::new())) {
        Err(e) => assert_eq!(e, "config root must be a JSON object"),
        Ok(_) => panic!("an array is not a configuration"),
    }
}

#[test]
fn setting_and_unsetting_leave_other_keys_alone() {
    let mut doc = ConfigDocument::new();
    doc.set(&path_of(&["custom", "note"]), Json::Str("keep".to_string()));
    doc.set(&path_of(&["mqtt", "port"]), num(1));
    doc.set(&path_of(&["mqtt", "server"]), Json::Str("h".to_string()));
    doc.unset(&path_of(&["mqtt", "server"]));
    assert!(matches!(doc.get(&path_of(&["custom", "note"])), Some(Json::Str(s)) if s == "keep"));
    assert!(is_num(doc.get(&path_of(&["mqtt", "port"])), 1));
    doc.unset(&path_of(&["mqtt", "port"]));
    assert!(matches!(doc.get(&path_of(&["custom", "note"])), Some(Json::Str(s)) if s == "keep"));
    assert!(doc.get(&path_of(&["mqtt"])).is_none());
}
