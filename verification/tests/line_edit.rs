use mqttaudio::config::is_audio_extension;
use mqttaudio::editor::{trim_text, EditKey, LineEdit, Pane, PickerItem};

fn typed(text: &str, cursor: usize) -> LineEdit {
    LineEdit { buffer: text.to_string(), cursor }
}

#[test]
fn typing_inserts_at_the_cursor() {
    let mut e = typed("helo", 3);
    e.apply(EditKey::Char('l'));
    assert_eq!(e.buffer, "hello");
    assert_eq!(e.cursor, 4);
    let mut u = typed("\u{e9}\u{e9}", 1);
    u.apply(EditKey::Char('x'));
    assert_eq!(u.buffer, "\u{e9}x\u{e9}");
}

#[test]
fn backspace_and_delete_remove_around_the_cursor() {
    let mut e = typed("abc", 2);
    e.apply(EditKey::Backspace);
    assert_eq!((e.buffer.as_str(), e.cursor), ("ac", 1));
    e.apply(EditKey::Delete);
    assert_eq!((e.buffer.as_str(), e.cursor), ("a", 1));
    e.apply(EditKey::Delete);
    assert_eq!((e.buffer.as_str(), e.cursor), ("a", 1));
    let mut start = typed("ab", 0);
    start.apply(EditKey::Backspace);
    assert_eq!((start.buffer.as_str(), start.cursor), ("ab", 0));
}

#[test]
fn moving_the_cursor_stays_in_the_text() {
    let mut e = LineEdit::new("abc".to_string());
    assert_eq!(e.cursor, 3);
    e.apply(EditKey::Right);
    assert_eq!(e.cursor, 3);
    e.apply(EditKey::Home);
    e.apply(EditKey::Left);
    assert_eq!(e.cursor, 0);
    e.apply(EditKey::End);
    assert_eq!(e.cursor, 3);
}

#[test]
fn type_then_backspace_restores_the_text() {
    let mut e = typed("volume", 3);
    e.apply(EditKey::Char('Z'));
    e.apply(EditKey::Backspace);
    assert_eq!((e.buffer.as_str(), e.cursor), ("volume", 3));
}

#[test]
fn trim_removes_unicode_white_space() {
    assert_eq!(trim_text("  a b \t\n"), "a b");
    assert_eq!(trim_text("\u{3000}x\u{a0}"), "x");
    assert_eq!(trim_text("   "), "");
    assert_eq!(trim_text(""), "");
}

#[test]
fn audio_extensions_ignore_case() {
    for ext in ["wav", "mp3", "ogg", "flac", "WAV", "Flac"] {
        assert!(is_audio_extension(ext), "{}", ext);
    }
    assert!(!is_audio_extension("txt"));
    assert!(!is_audio_extension("wave"));
}

#[test]
fn picker_items_and_panes() {
    let item = PickerItem { name: None, detail: "system default".to_string() };
    assert!(item.name.is_none());
    assert_ne!(Pane::Sidebar, Pane::Form);
}

#[test]
fn test_audio_extensions_constant() {
    assert!(is_audio_extension("wav"));
    assert!(is_audio_extension("mp3"));
    assert!(is_audio_extension("ogg"));
    assert!(is_audio_extension("flac"));
    assert!(!is_audio_extension("txt"));
}
