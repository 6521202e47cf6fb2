use mqttaudio::dialog::{dialog_text, DialogText};
use mqttaudio::editor::{PickerItem, Seg};
use mqttaudio::editor_state::{Choice, InputTestState, Modal, OutputTestState};
use mqttaudio::fields::{EditTarget, FieldKind};

fn texts(d: &DialogText) -> Vec<String> {
    d.lines.iter().map(|l| l.text.clone()).collect()
}

#[test]
fn device_picker_shows_two_lines_per_device() {
    let m = Modal::DevicePicker {
        output: true,
        items: vec![
            PickerItem { name: None, detail: "system default".to_string() },
            PickerItem { name: Some("hw:1".to_string()), detail: "8 channels".to_string() },
        ],
        cursor: 1,
        target: Vec::<Seg>::new(),
    };
    let d = dialog_text(&m, 70, 0);
    assert_eq!(d.title, "Select output device — Enter: choose  t: test  Esc: cancel");
    assert_eq!(texts(&d), vec!["(default)", "  system default", "hw:1", "  8 channels"]);
    assert_eq!(d.selected, Some(1));
}

#[test]
fn choice_picker_cuts_details_to_the_box() {
    let choice = |label: &str, detail: &str| Choice {
        insert_text: label.to_string(),
        label: label.to_string(),
        detail: detail.to_string(),
        custom: false,
        value_kind: None,
    };
    let m = Modal::ChoicePicker {
        title: "Select channel".to_string(),
        hint: "Numbers are 0-indexed.".to_string(),
        edit_label: "channel".to_string(),
        items: vec![choice("lfe", "channel 3"), choice("0", ""), choice("other", "type a channel number or alias")],
        cursor: 0,
        target: EditTarget::Field { path: vec![], kind: FieldKind::ChannelRef },
    };
    let d = dialog_text(&m, 22, 0);
    assert_eq!(d.title, "Select channel — Enter: choose  Esc: cancel");
    assert_eq!(texts(&d), vec!["lfe  channel 3", "0", "other  type a chan…", "Numbers are 0-indexed."]);
    assert!(d.lines.iter().all(|l| l.meter.is_none() && l.highlight.is_none()));
}

#[test]
fn output_test_lines_carry_their_channel_meters() {
    let st = OutputTestState {
        running: true,
        channels: 2,
        error: Some("underrun".to_string()),
        cursor: 1,
        sweep: None,
        device_label: "dac".to_string(),
        aliases: vec![None, Some("lfe".to_string())],
        return_to_picker: None,
    };
    let d = dialog_text(&Modal::OutputTest(st), 64, 0);
    assert_eq!(d.title, "Test output device");
    assert_eq!(
        texts(&d),
        vec![
            "Device: dac",
            "↑/↓ channel  Enter/Space play  b bass tone  a sweep all  Esc close",
            "  ch  0             ",
            "> ch  1 (lfe)       ",
            "underrun",
        ]
    );
    assert_eq!(d.lines[2].meter, Some(0));
    assert_eq!(d.lines[3].meter, Some(1));
    assert_eq!(d.lines[4].meter, None);
}

#[test]
fn input_test_has_a_meter_per_channel_while_running() {
    let st = InputTestState { running: true, error: None, device_label: "mic".to_string(), return_to_picker: None };
    let d = dialog_text(&Modal::InputTest(st), 64, 2);
    assert_eq!(texts(&d), vec!["Device: mic", "Speak into the microphone — Esc close", "  ch  0 ", "  ch  1 "]);
    assert_eq!(d.lines[3].meter, Some(1));
}

#[test]
fn save_dialog_highlights_the_cursor() {
    let m = Modal::SaveDialog { buffer: "/etc/a.json".to_string(), cursor: 5, candidates: vec![] };
    let d = dialog_text(&m, 70, 0);
    assert_eq!(d.lines[0].text, "Path: /etc/a.json");
    assert_eq!(d.lines[0].highlight, Some(11));
    let end = Modal::SaveDialog { buffer: "ab".to_string(), cursor: 2, candidates: vec![] };
    let d = dialog_text(&end, 70, 0);
    assert_eq!(d.lines[0].text, "Path: ab ");
    assert_eq!(d.lines[0].highlight, Some(8));
}

#[test]
fn errors_quit_and_load_failures() {
    let m = Modal::Errors { title: "Cannot save".to_string(), errors: vec!["mqtt.topic missing".to_string()] };
    let d = dialog_text(&m, 76, 0);
    assert_eq!(d.title, "Cannot save");
    assert_eq!(texts(&d), vec!["• mqtt.topic missing", "press any key to continue"]);
    let d = dialog_text(&Modal::ConfirmQuit, 50, 0);
    assert_eq!(texts(&d), vec!["Unsaved changes — quit anyway? (y/n)"]);
    let m = Modal::LoadFailed { path: "/etc/x.json".to_string(), error: "bad".to_string() };
    let d = dialog_text(&m, 76, 0);
    assert_eq!(d.title, "Config load failed");
    assert_eq!(
        texts(&d),
        vec![
            "Could not parse /etc/x.json:",
            "bad",
            "",
            "d: start from defaults (file untouched until saved)   q: quit",
        ]
    );
}
