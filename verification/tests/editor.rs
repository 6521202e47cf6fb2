use mqttaudio::editor::{
    byte_index, ellipsize, path_of, sweep_interval, wrapped_line_count, Section, Seg, TONE_DURATION_MS,
};

#[test]
fn path_of_builds_key_segments() {
    assert_eq!(
        path_of(&["audio", "channel_volumes"]),
        vec![Seg::Key("audio".to_string()), Seg::Key("channel_volumes".to_string())]
    );
    assert!(path_of(&[]).is_empty());
}

#[test]
fn sections_in_sidebar_order() {
    let all = Section::all();
    assert_eq!(all.len(), 11);
    assert_eq!(all[0], Section::Mqtt);
    assert_eq!(all[10], Section::Macros);
    assert_eq!(Section::Ducking.title(), "Ducking Rules");
    assert_eq!(Section::Http.title(), "HTTP");
    assert!(Section::Ducking.intro().contains("\u{2014} for example"));
    assert!(Section::Security.intro().starts_with("Limits which local files"));
}

#[test]
fn sweep_interval_is_tone_plus_gap() {
    assert_eq!(TONE_DURATION_MS, 500);
    assert_eq!(sweep_interval(), 800);
}

#[test]
fn byte_index_counts_utf8_bytes() {
    assert_eq!(byte_index("abc", 1), 1);
    assert_eq!(byte_index("\u{e9}t\u{e9}", 1), 2);
    assert_eq!(byte_index("\u{e9}t\u{e9}", 2), 3);
    assert_eq!(byte_index("\u{e9}t\u{e9}", 3), 5);
    assert_eq!(byte_index("\u{e9}t\u{e9}", 10), 5);
}

#[test]
fn ellipsize_cuts_and_trims() {
    assert_eq!(ellipsize("short", 10), "short");
    assert_eq!(ellipsize("exactly", 7), "exactly");
    assert_eq!(ellipsize("hello world", 7), "hello\u{2026}");
    assert_eq!(ellipsize("abcdef", 1), "\u{2026}");
    assert_eq!(ellipsize("abcdef", 0), "\u{2026}");
}

#[test]
fn wrapped_line_count_breaks_between_words() {
    assert_eq!(wrapped_line_count("hello world", 5), 2);
    assert_eq!(wrapped_line_count("hello world", 11), 1);
    assert_eq!(wrapped_line_count("a b c d", 3), 2);
}

#[test]
fn wrapped_line_count_counts_newlines_and_edges() {
    assert_eq!(wrapped_line_count("", 10), 1);
    assert_eq!(wrapped_line_count("anything at all", 0), 1);
    assert_eq!(wrapped_line_count("a\nb", 10), 2);
    assert_eq!(wrapped_line_count("a\n\nb", 10), 3);
    assert_eq!(wrapped_line_count("averyveryverylongword x", 4), 2);
    assert_eq!(wrapped_line_count("  spaced   out  ", 20), 1);
}
