//! The text of the dialogs over the configuration editor's form: a title,
//! the lines, and which line is selected. A line may carry a level meter
//! (its channel, whose level the front end draws after the text) or a
//! highlighted character (the save dialog's cursor).

use crate::editor::{ellipsize, spec_ellipsize, PickerItem};
use crate::editor_state::{Choice, Modal, OutputTestState};
use crate::text::{decimal, push_decimal};
use vstd::prelude::*;

verus! {

/// One line of a dialog.
pub struct DialogLine {
    pub text: String,
    /// The channel whose level meter follows the text.
    pub meter: Option<usize>,
    /// The position of the character shown highlighted.
    pub highlight: Option<usize>,
}

/// A dialog's title, lines, and selected entry.
pub struct DialogText {
    pub title: String,
    pub lines: Vec<DialogLine>,
    /// The entry under the cursor of a picker.
    pub selected: Option<usize>,
}

/// The form of a line: its text, meter and highlight.
pub open spec fn line_v(l: DialogLine) -> (Seq<char>, Option<usize>, Option<usize>) {
    (l.text@, l.meter, l.highlight)
}

/// The forms of lines.
pub open spec fn lines_v(ls: Seq<DialogLine>) -> Seq<(Seq<char>, Option<usize>, Option<usize>)> {
    ls.map_values(|l: DialogLine| line_v(l))
}

/// A line of plain text.
pub open spec fn plain(t: Seq<char>) -> (Seq<char>, Option<usize>, Option<usize>) {
    (t, None, None)
}

/// `n` spaces (none when `n` is not positive).
pub open spec fn spaces(n: int) -> Seq<char> {
    Seq::new(if n > 0 { n as nat } else { 0 }, |i: int| ' ')
}

/// `t` right-aligned in `w` columns.
pub open spec fn pad_left(t: Seq<char>, w: int) -> Seq<char> {
    spaces(w - t.len()) + t
}

/// `t` left-aligned in `w` columns.
pub open spec fn pad_right(t: Seq<char>, w: int) -> Seq<char> {
    t + spaces(w - t.len())
}

/// The line of an error, if any.
pub open spec fn error_lines(e: Option<String>) -> Seq<(Seq<char>, Option<usize>, Option<usize>)> {
    match e {
        Some(x) => seq![plain(x@)],
        None => Seq::empty(),
    }
}

/// Text of `s` followed by `t`.
fn cat(s: &str, t: &str) -> (r: String)
    ensures
        r@ == s@ + t@,
{
    let mut r = s.to_owned();
    r.append(t);
    r
}

fn plain_line(text: String) -> (l: DialogLine)
    ensures
        line_v(l) == plain(text@),
{
    DialogLine { text, meter: None, highlight: None }
}

/// Append `n` spaces.
fn push_spaces(out: &mut String, n: usize)
    ensures
        final(out)@ == old(out)@ + spaces(n as int),
{
    proof {
        reveal_strlit(" ");
    }
    let ghost start = out@;
    let mut k: usize = 0;
    proof {
        assert(start + spaces(0) =~= start);
    }
    while k < n
        invariant
            k <= n,
            out@ == start + spaces(k as int),
        decreases n - k,
    {
        out.append(" ");
        proof {
            reveal_strlit(" ");
            assert(start + spaces(k + 1) =~= start + spaces(k as int) + " "@);
        }
        k += 1;
    }
}

/// `t` right-aligned in `w` columns, appended.
fn push_pad_left(out: &mut String, t: &str, w: usize)
    ensures
        final(out)@ == old(out)@ + pad_left(t@, w as int),
{
    let n = t.unicode_len();
    let fill: usize = if n < w {
        w - n
    } else {
        0
    };
    push_spaces(out, fill);
    out.append(t);
    proof {
        assert(spaces(fill as int) =~= spaces(w - t@.len()));
    }
}

/// `t` left-aligned in `w` columns, appended.
fn push_pad_right(out: &mut String, t: &str, w: usize)
    ensures
        final(out)@ == old(out)@ + pad_right(t@, w as int),
{
    let n = t.unicode_len();
    out.append(t);
    let fill: usize = if n < w {
        w - n
    } else {
        0
    };
    push_spaces(out, fill);
    proof {
        assert(spaces(fill as int) =~= spaces(w - t@.len()));
    }
}

/// The line of an error, if any.
fn push_error(lines: &mut Vec<DialogLine>, e: &Option<String>)
    ensures
        lines_v(final(lines)@) == lines_v(old(lines)@) + error_lines(*e),
{
    let ghost before = lines_v(lines@);
    match e {
        Some(x) => {
            lines.push(plain_line(x.clone()));
            proof {
                assert(lines_v(lines@) =~= before + error_lines(*e));
            }
        },
        None => {
            proof {
                assert(lines_v(lines@) =~= before + error_lines(*e));
            }
        },
    }
}

/// Two lines per device: its name (or "(default)") and its detail, indented.
pub open spec fn device_lines(items: Seq<PickerItem>) -> Seq<(Seq<char>, Option<usize>, Option<usize>)>
    decreases items.len(),
{
    if items.len() == 0 {
        Seq::empty()
    } else {
        let it = items.last();
        device_lines(items.drop_last()) + seq![
            plain(
                match it.name {
                    Some(n) => n@,
                    None => "(default)"@,
                },
            ),
            plain("  "@ + it.detail@),
        ]
    }
}

/// Room left for a choice's detail in `inner` columns after its label and
/// the gap.
pub open spec fn choice_room(label: Seq<char>, inner: int) -> int {
    if inner > label.len() + 3 {
        inner - label.len() - 3
    } else {
        0
    }
}

/// A choice's line: its label, then its detail cut to the room left.
pub open spec fn choice_text(c: Choice, inner: int) -> Seq<char> {
    if c.detail@.len() == 0 {
        c.label@
    } else {
        c.label@ + "  "@ + spec_ellipsize(c.detail@, choice_room(c.label@, inner))
    }
}

/// The lines of a choice picker's entries.
pub open spec fn choice_lines(items: Seq<Choice>, inner: int) -> Seq<(Seq<char>, Option<usize>, Option<usize>)> {
    items.map_values(|c: Choice| plain(choice_text(c, inner)))
}

fn device_picker_lines(items: &Vec<PickerItem>) -> (r: Vec<DialogLine>)
    ensures
        lines_v(r@) == device_lines(items@),
{
    let mut out: Vec<DialogLine> = Vec::new();
    let mut i: usize = 0;
    proof {
        assert(items@.take(0) =~= Seq::<PickerItem>::empty());
        assert(lines_v(out@) =~= device_lines(items@.take(0)));
    }
    while i < items.len()
        invariant
            i <= items@.len(),
            lines_v(out@) == device_lines(items@.take(i as int)),
        decreases items@.len() - i,
    {
        let it = &items[i];
        let name = match &it.name {
            Some(n) => n.clone(),
            None => "(default)".to_owned(),
        };
        let detail = cat("  ", it.detail.as_str());
        let ghost before = lines_v(out@);
        out.push(plain_line(name));
        out.push(plain_line(detail));
        proof {
            let t = items@.take(i + 1);
            assert(t.drop_last() =~= items@.take(i as int));
            assert(t.last() == items@[i as int]);
            assert(lines_v(out@) =~= device_lines(t));
        }
        i += 1;
    }
    proof {
        assert(items@.take(items@.len() as int) =~= items@);
    }
    out
}

fn choice_picker_lines(items: &Vec<Choice>, inner: usize) -> (r: Vec<DialogLine>)
    ensures
        lines_v(r@) == choice_lines(items@, inner as int),
{
    let mut out: Vec<DialogLine> = Vec::new();
    let mut i: usize = 0;
    while i < items.len()
        invariant
            i <= items@.len(),
            lines_v(out@) == choice_lines(items@.take(i as int), inner as int),
        decreases items@.len() - i,
    {
        let c = &items[i];
        let text = if c.detail.unicode_len() == 0 {
            c.label.clone()
        } else {
            let n = c.label.unicode_len();
            let room: usize = if n < inner && inner - n > 3 {
                inner - n - 3
            } else {
                0
            };
            let mut t = cat(c.label.as_str(), "  ");
            let d = ellipsize(c.detail.as_str(), room);
            t.append(d.as_str());
            t
        };
        assert(text@ == choice_text(items@[i as int], inner as int));
        let ghost before = lines_v(out@);
        out.push(plain_line(text));
        proof {
            let t = items@.take(i + 1);
            assert(t =~= items@.take(i as int).push(items@[i as int]));
            assert(choice_lines(t, inner as int) =~= choice_lines(items@.take(i as int), inner as int).push(
                plain(choice_text(items@[i as int], inner as int)),
            ));
            assert(lines_v(out@) =~= before.push(plain(text@)));
        }
        i += 1;
    }
    proof {
        assert(items@.take(items@.len() as int) =~= items@);
    }
    out
}

/// What follows a channel number in the output test: its alias in
/// parentheses, if it has one.
pub open spec fn alias_note(aliases: Seq<Option<String>>, ch: int) -> Seq<char> {
    if 0 <= ch < aliases.len() && aliases[ch] is Some {
        " ("@ + aliases[ch]->Some_0@ + ")"@
    } else {
        Seq::empty()
    }
}

/// A channel's line in the output test: the cursor marker, the number
/// right-aligned in two columns, the alias note left-aligned in twelve, and
/// the channel's meter.
pub open spec fn output_channel_line(st: OutputTestState, ch: int) -> (Seq<char>, Option<usize>, Option<usize>) {
    (
        (if ch == st.cursor {
            ">"@
        } else {
            " "@
        }) + " ch "@ + pad_left(decimal(ch as nat), 2) + pad_right(alias_note(st.aliases@, ch), 12) + " "@,
        Some(ch as usize),
        None,
    )
}

/// A channel's line in the input test: the number right-aligned in two
/// columns, then the channel's meter.
pub open spec fn input_channel_line(ch: int) -> (Seq<char>, Option<usize>, Option<usize>) {
    ("  ch "@ + pad_left(decimal(ch as nat), 2) + " "@, Some(ch as usize), None)
}

/// The save dialog's path line: the buffer with the character at the
/// cursor highlighted (a trailing space when the cursor is at the end).
pub open spec fn save_line(buffer: Seq<char>, cursor: usize) -> (Seq<char>, Option<usize>, Option<usize>) {
    let at = if cursor < buffer.len() { cursor as int } else { buffer.len() as int };
    let text = if cursor < buffer.len() { "Path: "@ + buffer } else { "Path: "@ + buffer + " "@ };
    (text, None, if at + 6 <= usize::MAX { Some((at + 6) as usize) } else { None })
}

fn output_channel_lines(st: &OutputTestState, out: &mut Vec<DialogLine>)
    ensures
        lines_v(final(out)@) == lines_v(old(out)@) + Seq::new(
            st.channels as nat,
            |ch: int| output_channel_line(*st, ch),
        ),
{
    let ghost start = lines_v(out@);
    let mut ch: usize = 0;
    proof {
        assert(start + Seq::new(0, |c: int| output_channel_line(*st, c)) =~= start);
    }
    while ch < st.channels
        invariant
            ch <= st.channels,
            lines_v(out@) == start + Seq::new(ch as nat, |c: int| output_channel_line(*st, c)),
        decreases st.channels - ch,
    {
        let mut t = if ch == st.cursor {
            ">".to_owned()
        } else {
            " ".to_owned()
        };
        t.append(" ch ");
        let mut num = String::new();
        push_decimal(&mut num, ch as u64);
        push_pad_left(&mut t, num.as_str(), 2);
        let note = if ch < st.aliases.len() {
            match &st.aliases[ch] {
                Some(a) => {
                    let mut n = cat(" (", a.as_str());
                    n.append(")");
                    n
                },
                None => String::new(),
            }
        } else {
            String::new()
        };
        proof {
            assert(note@ == alias_note(st.aliases@, ch as int));
        }
        push_pad_right(&mut t, note.as_str(), 12);
        t.append(" ");
        let ghost before = lines_v(out@);
        out.push(DialogLine { text: t, meter: Some(ch), highlight: None });
        proof {
            assert(t@ == output_channel_line(*st, ch as int).0);
            assert(lines_v(out@) =~= before.push(output_channel_line(*st, ch as int)));
            assert(start + Seq::new((ch + 1) as nat, |c: int| output_channel_line(*st, c)) =~= (start
                + Seq::new(ch as nat, |c: int| output_channel_line(*st, c))).push(
                output_channel_line(*st, ch as int),
            ));
        }
        ch += 1;
    }
}

fn input_channel_lines(n: usize, out: &mut Vec<DialogLine>)
    ensures
        lines_v(final(out)@) == lines_v(old(out)@) + Seq::new(n as nat, |ch: int| input_channel_line(ch)),
{
    let ghost start = lines_v(out@);
    let mut ch: usize = 0;
    proof {
        assert(start + Seq::new(0, |c: int| input_channel_line(c)) =~= start);
    }
    while ch < n
        invariant
            ch <= n,
            lines_v(out@) == start + Seq::new(ch as nat, |c: int| input_channel_line(c)),
        decreases n - ch,
    {
        let mut t = "  ch ".to_owned();
        let mut num = String::new();
        push_decimal(&mut num, ch as u64);
        push_pad_left(&mut t, num.as_str(), 2);
        t.append(" ");
        let ghost before = lines_v(out@);
        out.push(DialogLine { text: t, meter: Some(ch), highlight: None });
        proof {
            assert(t@ == input_channel_line(ch as int).0);
            assert(lines_v(out@) =~= before.push(input_channel_line(ch as int)));
            assert(start + Seq::new((ch + 1) as nat, |c: int| input_channel_line(c)) =~= (start
                + Seq::new(ch as nat, |c: int| input_channel_line(c))).push(input_channel_line(ch as int)));
        }
        ch += 1;
    }
}

fn path_line(buffer: &str, cursor: usize) -> (l: DialogLine)
    ensures
        line_v(l) == save_line(buffer@, cursor),
{
    let n = buffer.unicode_len();
    let mut text = cat("Path: ", buffer);
    let at = if cursor < n {
        cursor
    } else {
        text.append(" ");
        n
    };
    let highlight = if at <= usize::MAX - 6 {
        Some(at + 6)
    } else {
        None
    };
    DialogLine { text, meter: None, highlight }
}

/// What a dialog shows in a box `width` columns wide (two of them border):
/// its title, its lines, and the entry under a picker's cursor. The input
/// test shows a meter for each of its `input_channels` channels.
pub open spec fn spec_dialog(m: Modal, width: u16, input_channels: usize) -> (
    Seq<char>,
    Seq<(Seq<char>, Option<usize>, Option<usize>)>,
    Option<usize>,
) {
    match m {
        Modal::DevicePicker { output, items, cursor, .. } => (
            if output {
                "Select output device — Enter: choose  t: test  Esc: cancel"@
            } else {
                "Select input device — Enter: choose  t: test  Esc: cancel"@
            },
            device_lines(items@),
            Some(cursor),
        ),
        Modal::ChoicePicker { title, hint, items, cursor, .. } => (
            title@ + " — Enter: choose  Esc: cancel"@,
            choice_lines(items@, if width >= 2 { width - 2 } else { 0 }) + if hint@.len() > 0 {
                seq![plain(hint@)]
            } else {
                Seq::empty()
            },
            Some(cursor),
        ),
        Modal::OutputTest(st) => (
            "Test output device"@,
            seq![plain("Device: "@ + st.device_label@)] + (if st.running {
                seq![plain("↑/↓ channel  Enter/Space play  b bass tone  a sweep all  Esc close"@)]
                    + Seq::new(st.channels as nat, |ch: int| output_channel_line(st, ch))
            } else {
                Seq::empty()
            }) + error_lines(st.error),
            None,
        ),
        Modal::InputTest(st) => (
            "Test input device"@,
            seq![
                plain("Device: "@ + st.device_label@),
                plain("Speak into the microphone — Esc close"@),
            ] + (if st.running {
                Seq::new(input_channels as nat, |ch: int| input_channel_line(ch))
            } else {
                Seq::empty()
            }) + error_lines(st.error),
            None,
        ),
        Modal::SaveDialog { buffer, cursor, .. } => (
            "Save configuration"@,
            seq![save_line(buffer@, cursor), plain("↑/↓ suggested paths  Enter: save  Esc: cancel"@)],
            None,
        ),
        Modal::Errors { title, errors } => (
            title@,
            errors@.map_values(|e: String| plain("• "@ + e@)) + seq![plain("press any key to continue"@)],
            None,
        ),
        Modal::ConfirmQuit => (
            "Confirm quit"@,
            seq![plain("Unsaved changes — quit anyway? (y/n)"@)],
            None,
        ),
        Modal::LoadFailed { path, error } => (
            "Config load failed"@,
            seq![
                plain("Could not parse "@ + path@ + ":"@),
                plain(error@),
                plain(Seq::empty()),
                plain("d: start from defaults (file untouched until saved)   q: quit"@),
            ],
            None,
        ),
    }
}

/// What a dialog shows (see [`spec_dialog`]).
pub fn dialog_text(modal: &Modal, width: u16, input_channels: usize) -> (r: DialogText)
    ensures
        r.title@ == spec_dialog(*modal, width, input_channels).0,
        lines_v(r.lines@) == spec_dialog(*modal, width, input_channels).1,
        r.selected == spec_dialog(*modal, width, input_channels).2,
{
    match modal {
        Modal::DevicePicker { output, items, cursor, .. } => {
            let title = if *output {
                "Select output device — Enter: choose  t: test  Esc: cancel".to_owned()
            } else {
                "Select input device — Enter: choose  t: test  Esc: cancel".to_owned()
            };
            DialogText { title, lines: device_picker_lines(items), selected: Some(*cursor) }
        },
        Modal::ChoicePicker { title, hint, items, cursor, .. } => {
            let inner: usize = if width >= 2 {
                (width - 2) as usize
            } else {
                0
            };
            let mut lines = choice_picker_lines(items, inner);
            let ghost before = lines_v(lines@);
            if hint.unicode_len() > 0 {
                lines.push(plain_line(hint.clone()));
            }
            proof {
                assert(lines_v(lines@) =~= before + if hint@.len() > 0 {
                    seq![plain(hint@)]
                } else {
                    Seq::empty()
                });
            }
            DialogText {
                title: cat(title.as_str(), " — Enter: choose  Esc: cancel"),
                lines,
                selected: Some(*cursor),
            }
        },
        Modal::OutputTest(st) => {
            let mut lines: Vec<DialogLine> = Vec::new();
            lines.push(plain_line(cat("Device: ", st.device_label.as_str())));
            let ghost first = lines_v(lines@);
            if st.running {
                lines.push(
                    plain_line(
                        "↑/↓ channel  Enter/Space play  b bass tone  a sweep all  Esc close".to_owned(),
                    ),
                );
                output_channel_lines(st, &mut lines);
            }
            let ghost middle = lines_v(lines@);
            proof {
                assert(middle =~= first + (if st.running {
                    seq![plain("↑/↓ channel  Enter/Space play  b bass tone  a sweep all  Esc close"@)]
                        + Seq::new(st.channels as nat, |ch: int| output_channel_line(*st, ch))
                } else {
                    Seq::empty()
                }));
            }
            push_error(&mut lines, &st.error);
            DialogText { title: "Test output device".to_owned(), lines, selected: None }
        },
        Modal::InputTest(st) => {
            let mut lines: Vec<DialogLine> = Vec::new();
            lines.push(plain_line(cat("Device: ", st.device_label.as_str())));
            lines.push(plain_line("Speak into the microphone — Esc close".to_owned()));
            let ghost first = lines_v(lines@);
            if st.running {
                input_channel_lines(input_channels, &mut lines);
            }
            proof {
                assert(lines_v(lines@) =~= first + (if st.running {
                    Seq::new(input_channels as nat, |ch: int| input_channel_line(ch))
                } else {
                    Seq::empty()
                }));
            }
            push_error(&mut lines, &st.error);
            DialogText { title: "Test input device".to_owned(), lines, selected: None }
        },
        Modal::SaveDialog { buffer, cursor, .. } => {
            let mut lines: Vec<DialogLine> = Vec::new();
            lines.push(path_line(buffer.as_str(), *cursor));
            lines.push(plain_line("↑/↓ suggested paths  Enter: save  Esc: cancel".to_owned()));
            proof {
                assert(lines_v(lines@) =~= seq![
                    save_line(buffer@, *cursor),
                    plain("↑/↓ suggested paths  Enter: save  Esc: cancel"@),
                ]);
            }
            DialogText { title: "Save configuration".to_owned(), lines, selected: None }
        },
        Modal::Errors { title, errors } => {
            let mut lines: Vec<DialogLine> = Vec::new();
            let mut i: usize = 0;
            while i < errors.len()
                invariant
                    i <= errors@.len(),
                    lines_v(lines@) == errors@.take(i as int).map_values(
                        |e: String| plain("• "@ + e@),
                    ),
                decreases errors@.len() - i,
            {
                let ghost before = lines_v(lines@);
                lines.push(plain_line(cat("• ", errors[i].as_str())));
                proof {
                    let t = errors@.take(i + 1);
                    assert(t =~= errors@.take(i as int).push(errors@[i as int]));
                    assert(t.map_values(|e: String| plain("• "@ + e@)) =~= errors@.take(
                        i as int,
                    ).map_values(|e: String| plain("• "@ + e@)).push(plain("• "@ + errors@[i as int]@)));
                    assert(lines_v(lines@) =~= before.push(plain("• "@ + errors@[i as int]@)));
                }
                i += 1;
            }
            let ghost before = lines_v(lines@);
            lines.push(plain_line("press any key to continue".to_owned()));
            proof {
                assert(errors@.take(errors@.len() as int) =~= errors@);
                assert(lines_v(lines@) =~= before.push(plain("press any key to continue"@)));
            }
            DialogText { title: title.clone(), lines, selected: None }
        },
        Modal::ConfirmQuit => {
            let mut lines: Vec<DialogLine> = Vec::new();
            lines.push(plain_line("Unsaved changes — quit anyway? (y/n)".to_owned()));
            proof {
                assert(lines_v(lines@) =~= seq![plain("Unsaved changes — quit anyway? (y/n)"@)]);
            }
            DialogText { title: "Confirm quit".to_owned(), lines, selected: None }
        },
        Modal::LoadFailed { path, error } => {
            let mut lines: Vec<DialogLine> = Vec::new();
            let mut first = cat("Could not parse ", path.as_str());
            first.append(":");
            lines.push(plain_line(first));
            lines.push(plain_line(error.clone()));
            lines.push(plain_line(String::new()));
            lines.push(
                plain_line("d: start from defaults (file untouched until saved)   q: quit".to_owned()),
            );
            proof {
                assert(lines_v(lines@) =~= seq![
                    plain("Could not parse "@ + path@ + ":"@),
                    plain(error@),
                    plain(Seq::empty()),
                    plain("d: start from defaults (file untouched until saved)   q: quit"@),
                ]);
            }
            DialogText { title: "Config load failed".to_owned(), lines, selected: None }
        },
    }
}

} // verus!
