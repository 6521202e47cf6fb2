use mqttaudio::document::{ConfigDocument, Json};
use mqttaudio::editor::path_of;
use mqttaudio::editor_state::known_voice_ids;

fn text(s: &str) -> Json {
    Json::Str(s.to_string())
}

fn object(entries: Vec<(&str, Json)>) -> Json {
    Json::Object(entries.into_iter().map(|(k, v)| (k.to_string(), v)).collect())
}

#[test]
fn known_voice_ids_of_an_empty_document() {
    assert!(known_voice_ids(&ConfigDocument::new()).is_empty());
}

#[test]
fn known_voice_ids_sorted_and_deduplicated() {
    let mut doc = ConfigDocument::new();
    doc.push(&path_of(&["inputs"]), object(vec![("voice_id", text("zeta"))]));
    doc.push(&path_of(&["inputs"]), object(vec![]));
    doc.push(&path_of(&["inputs"]), object(vec![("voice_id", text(""))]));
    doc.push(
        &path_of(&["ducking_rules"]),
        object(vec![
            ("primary_voice", text("announce")),
            ("ducked_voices", Json::Array(vec![text("music"), text(""), text("zeta")])),
        ]),
    );
    doc.push(
        &path_of(&["ducking_rules"]),
        object(vec![("primary_voice", text("")), ("ducked_voices", Json::Array(vec![text("Music")]))]),
    );
    let ids = known_voice_ids(&doc);
    assert_eq!(ids, vec!["Music", "announce", "mic", "music", "zeta"]);
}
