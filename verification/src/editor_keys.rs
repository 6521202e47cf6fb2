//! How the configuration editor answers each key: navigation, edits,
//! pickers and dialogs, as a step from one state to the next and the work
//! left to the caller.

use crate::document::{
    jv, lemma_jv_array, lemma_jv_object, member, member_of, spec_get, spec_list_len, spec_push,
    spec_set, spec_unset, text_of, ConfigDocument, Json, JsonNumber, JsonV,
};
use crate::editor::{
    path_v, spec_edit, sweep_interval, trim, trim_text, EditKey, LineEdit, Pane, PickerItem, Seg,
    SegV,
};
use crate::editor_state::{
    as_u64, as_u64_exec, bool_choices, bool_choices_v, channel_choices, channel_choices_ok,
    choices_v, effective_exec, enum_choices, InputTestState, OutputTestState,
    extend, macro_param_choices, noun, row_v, voice_choices, effective, enum_choices_v, is_collection, is_section_level,
    item_noun, macro_param_choices_v, sections, spec_rows, voice_choices_ok, App, Choice, ChoiceV,
    EditState, Level, LevelKind, Modal, Row, RowV,
};
use crate::fields::{
    clone_path, commit_edit, commit_spec, external_view, macro_intro, parse_view, parsed_outside,
    CommitOutcome, EditTarget, FieldKind, StructListKind,
};
use crate::text::{decimal, push_decimal};
use vstd::prelude::*;

verus! {

/// A key press, as the editor reads it. `Interrupt` is Ctrl-C.
#[derive(Clone, Copy, PartialEq, Eq, Structural)]
pub enum Key {
    Char(char),
    Enter,
    Esc,
    Tab,
    Up,
    Down,
    Left,
    Right,
    Home,
    End,
    Backspace,
    Delete,
    Interrupt,
    Other,
}

/// Work the editor leaves to its caller, which reports back by calling the
/// method named.
pub enum Action {
    Nothing,
    /// List the output (or input) devices; then `show_device_picker`.
    ListDevices { output: bool, target: Vec<Seg> },
    /// Work out where the file may be saved; then `open_save_dialog`.
    ListSaveCandidates,
    /// Check the document and write it to `path`; then `save_finished`.
    Save { path: String },
    /// Start a tone test on an output device; then `output_test_started`.
    StartOutputTest { device: Option<String>, back: Option<(bool, Vec<Seg>)> },
    /// Start a level meter on an input device; then `input_test_started`.
    StartInputTest { device: Option<String>, latency_ms: u32, back: Option<(bool, Vec<Seg>)> },
    /// Stop the test running; then, when `back` is given, list the devices
    /// again for that picker.
    StopTest { back: Option<(bool, Vec<Seg>)> },
    /// Play the test tone (or the bass tone) on a channel of the test.
    PlayTone { channel: usize, bass: bool },
    /// Read `text` as a value of `kind` (a float, or JSON); then
    /// `finish_commit` with the outcome.
    ParseValue { kind: FieldKind, text: String },
    /// Write `value` as text (as JSON text when `as_json`); then
    /// `set_edit_text` with it.
    RenderValue { value: Json, as_json: bool },
}

// ---------------------------------------------------------------------------
// Small steps
// ---------------------------------------------------------------------------

/// The top level with its cursor at `c`.
pub open spec fn with_cursor(a: App, c: usize) -> Seq<Level> {
    a.levels@.update(a.levels@.len() - 1, Level { cursor: c, ..a.level() })
}

/// Whether `b` is `a` with the top level's cursor at `c`.
pub open spec fn cursor_moved(a: App, b: App, c: usize) -> bool {
    b == App { levels: b.levels, ..a } && b.levels@ == with_cursor(a, c)
}

/// What asking to quit does: confirm first when there are unsaved changes.
pub open spec fn quit_requested(a: App) -> App {
    if a.dirty {
        App { modal: Some(Modal::ConfirmQuit), ..a }
    } else {
        App { quit: true, ..a }
    }
}

/// Whether `b` is `a` showing section `idx` from its top.
pub open spec fn section_shown(a: App, b: App, idx: usize) -> bool {
    &&& b == App { section_idx: idx, levels: b.levels, ..a }
    &&& b.levels@.len() == 1
    &&& idx < 11
    &&& is_section_level(b.levels@[0], sections()[idx as int])
}

/// A key in the sidebar: move between sections, or focus the form.
pub open spec fn sidebar_step(a: App, b: App, key: Key) -> bool {
    match key {
        Key::Up => if a.section_idx > 0 {
            section_shown(a, b, (a.section_idx - 1) as usize)
        } else {
            b == a
        },
        Key::Down => if a.section_idx + 1 < 11 {
            section_shown(a, b, (a.section_idx + 1) as usize)
        } else {
            b == a
        },
        Key::Right | Key::Enter => b == App { pane: Pane::Form, ..a },
        _ => b == a,
    }
}

/// Whether `b` is `a` after the highlighted row was unset: the setting (or
/// entry) at its path removed, the cursor kept on a row when one is left.
pub open spec fn row_unset(a: App, b: App) -> bool {
    let rows = spec_rows(a);
    let c = a.level().cursor;
    if c >= rows.len() {
        b == a
    } else {
        let d = spec_unset(a.doc@, rows[c as int].path);
        let n = spec_rows(App { doc: b.doc, ..a }).len();
        &&& b.doc@ == d
        &&& b.doc.wf()
        &&& b == App { doc: b.doc, dirty: true, levels: b.levels, ..a }
        &&& b.levels@ == with_cursor(a, if c >= n && c > 0 { (c - 1) as usize } else { c })
    }
}

impl App {
    /// Put the top level's cursor at `c`.
    fn set_cursor(&mut self, c: usize)
        requires
            old(self).levels@.len() >= 1,
        ensures
            cursor_moved(*old(self), *final(self), c),
    {
        let mut top = self.levels.pop().unwrap();
        top.cursor = c;
        self.levels.push(top);
        proof {
            assert(self.levels@ =~= with_cursor(*old(self), c));
        }
    }

    /// Ask to quit (see [`quit_requested`]).
    pub fn request_quit(&mut self)
        ensures
            *final(self) == quit_requested(*old(self)),
    {
        if self.dirty {
            self.modal = Some(Modal::ConfirmQuit);
        } else {
            self.quit = true;
        }
    }

    /// Show section `idx` from its top.
    fn show_section(&mut self, idx: usize)
        requires
            idx < 11,
        ensures
            section_shown(*old(self), *final(self), idx),
    {
        self.section_idx = idx;
        let all = crate::editor::Section::all();
        let section = all[idx];
        let level = Level {
            title: section.title().to_owned(),
            path: Vec::new(),
            kind: LevelKind::Section(section),
            cursor: 0,
            intro: section.intro().to_owned(),
        };
        self.levels = vec![level];
    }

    /// A key while the sidebar has focus (see [`sidebar_step`]).
    pub fn handle_sidebar_key(&mut self, key: Key)
        requires
            old(self).wf(),
        ensures
            sidebar_step(*old(self), *final(self), key),
    {
        match key {
            Key::Up => {
                if self.section_idx > 0 {
                    self.show_section(self.section_idx - 1);
                }
            },
            Key::Down => {
                if self.section_idx + 1 < 11 {
                    self.show_section(self.section_idx + 1);
                }
            },
            Key::Right | Key::Enter => {
                self.pane = Pane::Form;
            },
            _ => {},
        }
    }

    /// Unset the highlighted row (see [`row_unset`]).
    pub fn unset_row(&mut self)
        requires
            old(self).wf(),
        ensures
            row_unset(*old(self), *final(self)),
    {
        let rows = self.rows();
        let c = self.levels[self.levels.len() - 1].cursor;
        if c >= rows.len() {
            return;
        }
        let ghost before = *self;
        self.doc.unset(rows[c].path.as_slice());
        self.dirty = true;
        let ghost mid = *self;
        let n = self.rows().len();
        proof {
            assert(spec_rows(mid) == spec_rows(App { doc: mid.doc, ..before }));
        }
        if c >= n && c > 0 {
            self.set_cursor(c - 1);
        }
        proof {
            if !(c >= n && c > 0) {
                assert(self.levels@ =~= with_cursor(before, c));
            }
        }
    }
}


// ---------------------------------------------------------------------------
// Edits, pickers and levels opened from a row
// ---------------------------------------------------------------------------

/// The mathematical form of an edit's target.
pub enum TargetV {
    Field { path: Seq<SegV>, kind: FieldKind },
    NewListItem { base: Seq<SegV>, kind: FieldKind },
    MapKey { base: Seq<SegV>, value_kind: FieldKind },
    MapValue { path: Seq<SegV>, kind: FieldKind },
}

/// The form of an edit's target.
pub open spec fn target_v(t: EditTarget) -> TargetV {
    match t {
        EditTarget::Field { path, kind } => TargetV::Field { path: path_v(path@), kind },
        EditTarget::NewListItem { base, kind } => TargetV::NewListItem { base: path_v(base@), kind },
        EditTarget::MapKey { base, value_kind } => TargetV::MapKey { base: path_v(base@), value_kind },
        EditTarget::MapValue { path, kind } => TargetV::MapValue { path: path_v(path@), kind },
    }
}

/// Whether an edit is open on `text`, cursor at its end, labelled `label`,
/// aimed at `target`, without error.
pub open spec fn edit_is(e: Option<EditState>, label: Seq<char>, text: Seq<char>, target: TargetV) -> bool {
    e matches Some(x) && x.label@ == label && x.line.buffer@ == text && x.line.cursor == text.len()
        && target_v(x.target) == target && x.error is None
}

/// The first choice at or after `i` that commits `cur` (a custom choice never
/// does), or -1.
pub open spec fn match_index(items: Seq<ChoiceV>, cur: Seq<char>, i: int) -> int
    decreases items.len() - i,
{
    if i < 0 || i >= items.len() {
        -1
    } else if !items[i].custom && items[i].insert_text == cur {
        i
    } else {
        match_index(items, cur, i + 1)
    }
}

/// Where a picker's cursor starts: on the choice matching the current value,
/// else on the first.
pub open spec fn choice_cursor(items: Seq<ChoiceV>, current: Option<Seq<char>>) -> int {
    match current {
        Some(cur) => if match_index(items, cur, 0) >= 0 {
            match_index(items, cur, 0)
        } else {
            0
        },
        None => 0,
    }
}

/// Whether a choice picker is open with these texts, target and starting
/// cursor.
pub open spec fn picker_is(
    m: Option<Modal>,
    title: Seq<char>,
    hint: Seq<char>,
    edit_label: Seq<char>,
    current: Option<Seq<char>>,
    target: TargetV,
) -> bool {
    m matches Some(Modal::ChoicePicker { title: t, hint: h, edit_label: el, items, cursor, target: tg })
        && t@ == title && h@ == hint && el@ == edit_label && target_v(tg) == target && cursor
        == choice_cursor(choices_v(items@), current)
}

/// The choices of an open picker.
pub open spec fn picker_items(m: Option<Modal>) -> Seq<ChoiceV> {
    match m {
        Some(Modal::ChoicePicker { items, .. }) => choices_v(items@),
        _ => Seq::empty(),
    }
}

/// The line under channel pickers.
pub open spec fn channel_hint() -> Seq<char> {
    "Aliases are defined in Audio > channel_aliases; numbers are 0-indexed."@
}

/// The line under voice pickers.
pub open spec fn voice_hint() -> Seq<char> {
    "Voices are created at runtime by Play commands; any name is valid."@
}

/// Whether a level has these texts, path and kind, cursor at the top.
pub open spec fn level_is(l: Level, title: Seq<char>, path: Seq<SegV>, kind: LevelKind, intro: Seq<char>) -> bool {
    l.title@ == title && path_v(l.path@) == path && l.kind == kind && l.cursor == 0 && l.intro@ == intro
}

/// Whether `b` is `a` with a level pushed on top.
pub open spec fn level_pushed(
    a: App,
    b: App,
    title: Seq<char>,
    path: Seq<SegV>,
    kind: LevelKind,
    intro: Seq<char>,
) -> bool {
    &&& b == App { levels: b.levels, ..a }
    &&& b.levels@.len() == a.levels@.len() + 1
    &&& b.levels@.drop_last() == a.levels@
    &&& level_is(b.levels@.last(), title, path, kind, intro)
}

/// The text of a number as JSON writes an integer; none for a float.
pub open spec fn number_text(n: JsonNumber) -> Option<Seq<char>> {
    match n {
        JsonNumber::Unsigned(u) => Some(decimal(u as nat)),
        JsonNumber::Signed(i) => Some(
            if i < 0 {
                "-"@ + decimal((-i) as nat)
            } else {
                decimal(i as nat)
            },
        ),
        JsonNumber::Float(_) => None,
    }
}

/// The text JSON writes for a null, a boolean or an integer; none for
/// another value.
pub open spec fn simple_text(v: JsonV) -> Option<Seq<char>> {
    match v {
        JsonV::Null => Some("null"@),
        JsonV::Bool(b) => Some(
            if b {
                "true"@
            } else {
                "false"@
            },
        ),
        JsonV::Number(n) => number_text(n),
        _ => None,
    }
}

/// Where committing a row's edit writes: a map entry in a map, else the
/// setting.
pub open spec fn row_target(a: App, row: RowV) -> TargetV {
    if a.level().kind is Entries {
        TargetV::MapValue { path: row.path, kind: row.kind }
    } else {
        TargetV::Field { path: row.path, kind: row.kind }
    }
}

/// Whether `b` is `a` with an edit of the row opened on the value's text,
/// and `act` what the caller does to write a value the editor does not: a
/// secret starts empty; a JSON value is written as JSON text; a text as
/// itself; a null, boolean or integer as JSON writes it; another value is
/// written by the caller.
pub open spec fn field_edit_started(a: App, b: App, act: Action, row: RowV) -> bool {
    let target = row_target(a, row);
    let set = spec_get(a.doc@, row.path);
    let (text, render) = if row.kind is Secret {
        (Seq::empty(), None)
    } else if row.kind is MapToJson {
        (Seq::empty(), match set { Some(v) => Some((v, true)), None => None })
    } else {
        match set {
            Some(JsonV::Str(s)) => (s, None),
            Some(v) => match simple_text(v) {
                Some(t) => (t, None),
                None => (Seq::empty(), Some((v, false))),
            },
            None => (Seq::empty(), None),
        }
    };
    &&& b == App { edit: b.edit, ..a }
    &&& edit_is(b.edit, row.label, text, target)
    &&& match render {
        Some((v, as_json)) => act matches Action::RenderValue { value, as_json: j } && jv(value)
            == v && j == as_json,
        None => act is Nothing,
    }
}

/// The memory budget set to auto mode.
pub open spec fn budget_auto() -> JsonV {
    JsonV::Object(seq![("mode"@, JsonV::Str("auto"@))])
}

/// The memory budget set to an explicit 512 MiB.
pub open spec fn budget_explicit() -> JsonV {
    JsonV::Object(
        seq![("mb"@, JsonV::Number(JsonNumber::Unsigned(512))), ("mode"@, JsonV::Str("explicit"@))],
    )
}

/// The memory budget set to unlimited.
pub open spec fn budget_unlimited() -> JsonV {
    JsonV::Object(seq![("mode"@, JsonV::Str("unlimited"@))])
}

/// Whether `b` is `a` with the memory budget at `path` moved to its next
/// mode: unset, auto, explicit, unlimited, unset again.
pub open spec fn budget_cycled(a: App, b: App, path: Seq<SegV>) -> bool {
    let mode = match spec_get(a.doc@, path) {
        Some(v) => text_of(member(v, "mode"@)),
        None => None,
    };
    &&& b == App { doc: b.doc, dirty: true, ..a }
    &&& b.doc.wf()
    &&& b.doc@ == match mode {
        None => spec_set(a.doc@, path, budget_auto()),
        Some(m) => if m == "auto"@ {
            spec_set(a.doc@, path, budget_explicit())
        } else if m == "explicit"@ {
            spec_set(a.doc@, path, budget_unlimited())
        } else {
            spec_unset(a.doc@, path)
        },
    }
}

/// A new structure for a list: required fields get placeholder values.
pub open spec fn skeleton_v(k: StructListKind) -> JsonV {
    match k {
        StructListKind::DuckingRules => JsonV::Object(
            seq![
                ("ducked_voices"@, JsonV::Array(Seq::empty())),
                ("fade_duration_ms"@, JsonV::Number(JsonNumber::Unsigned(500))),
                ("primary_voice"@, JsonV::Str(Seq::empty())),
                ("target_volume"@, JsonV::Number(JsonNumber::Float(0x3fe0000000000000))),
            ],
        ),
        StructListKind::Routes => JsonV::Object(
            seq![
                ("dest_channel"@, JsonV::Number(JsonNumber::Unsigned(0))),
                ("source_channel"@, JsonV::Number(JsonNumber::Unsigned(0))),
            ],
        ),
        StructListKind::Inputs => JsonV::Object(Seq::empty()),
    }
}

/// The path of the channel volumes.
pub open spec fn volumes_path() -> Seq<SegV> {
    seq![SegV::Key("audio"@), SegV::Key("channel_volumes"@)]
}

/// Whether `b` is `a` with only the modal changed, to a picker.
pub open spec fn picker_opened(
    a: App,
    b: App,
    title: Seq<char>,
    hint: Seq<char>,
    edit_label: Seq<char>,
    current: Option<Seq<char>>,
    target: TargetV,
) -> bool {
    b == App { modal: b.modal, ..a } && picker_is(b.modal, title, hint, edit_label, current, target)
}

/// What adding to the collection shown does: a picker or an edit for a new
/// element or key, or, for a list of structures, a new structure appended
/// and its fields opened.
pub open spec fn added(a: App, b: App, act: Action) -> bool {
    let l = a.level();
    let base = path_v(l.path@);
    let doc = a.doc@;
    let defaults = jv(a.defaults);
    match l.kind {
        LevelKind::ScalarList { elem } => act is Nothing && match elem {
            FieldKind::ChannelRef => picker_opened(
                a,
                b,
                "Add channel"@,
                channel_hint(),
                "new channel (number or alias)"@,
                None,
                TargetV::NewListItem { base, kind: FieldKind::ChannelRef },
            ) && channel_choices_ok(doc, defaults, picker_items(b.modal)),
            FieldKind::VoiceRef => picker_opened(
                a,
                b,
                "Add voice"@,
                voice_hint(),
                "new voice name"@,
                None,
                TargetV::NewListItem { base, kind: FieldKind::VoiceRef },
            ) && voice_choices_ok(doc, picker_items(b.modal)),
            _ => b == App { edit: b.edit, ..a } && edit_is(
                b.edit,
                "new entry"@,
                Seq::empty(),
                TargetV::NewListItem { base, kind: elem },
            ),
        },
        LevelKind::Entries { value_kind } => act is Nothing && if base == volumes_path() {
            picker_opened(
                a,
                b,
                "Add channel"@,
                channel_hint(),
                "channel (number or alias)"@,
                None,
                TargetV::MapKey { base, value_kind },
            ) && channel_choices_ok(doc, defaults, picker_items(b.modal))
        } else {
            b == App { edit: b.edit, ..a } && edit_is(
                b.edit,
                "new key"@,
                Seq::empty(),
                TargetV::MapKey { base, value_kind },
            )
        },
        LevelKind::MacroForm => act is Nothing && picker_opened(
            a,
            b,
            "Add parameter"@,
            "Play-command parameters; macros may also carry parameters of other commands."@,
            "new parameter name"@,
            None,
            TargetV::MapKey { base, value_kind: FieldKind::MapToJson },
        ) && picker_items(b.modal) == macro_param_choices_v(
            a.tables.macro_params@,
            match spec_get(doc, base) {
                Some(v) => v,
                None => JsonV::Null,
            },
        ),
        LevelKind::StructList(k) => {
            let d = spec_push(doc, base, skeleton_v(k));
            let n = spec_list_len(d, base);
            let mid = App { doc: b.doc, dirty: true, ..a };
            &&& act is Nothing
            &&& b.doc@ == d
            &&& b.doc.wf()
            &&& if n == 0 {
                b == mid
            } else {
                level_pushed(
                    mid,
                    b,
                    item_noun(k) + " "@ + decimal(n as nat),
                    base.push(SegV::Idx((n - 1) as usize)),
                    LevelKind::SubForm(k),
                    Seq::empty(),
                )
            }
        },
        _ => b == a && act is Nothing,
    }
}

/// What Enter on the highlighted row does, by its kind: toggle a boolean or
/// a switch; open a picker, a device list, a nested level or an edit; or
/// move a memory budget to its next mode. On an empty collection it adds.
pub open spec fn activated(a: App, b: App, act: Action) -> bool {
    let rows = spec_rows(a);
    let c = a.level().cursor;
    if c >= rows.len() {
        if is_collection(a.level().kind) {
            added(a, b, act)
        } else {
            b == a && act is Nothing
        }
    } else {
        row_activated(a, b, act, rows[c as int])
    }
}

/// What activating `row` does (see [`activated`]).
pub open spec fn row_activated(a: App, b: App, act: Action, row: RowV) -> bool {
    let doc = a.doc@;
    let defaults = jv(a.defaults);
    let value = effective(doc, defaults, row.path).0;
    let target = row_target(a, row);
    let lk = a.level().kind;
    match row.kind {
        FieldKind::Bool => {
            let cur = value matches JsonV::Bool(x) && x;
            &&& act is Nothing
            &&& b == App { doc: b.doc, dirty: true, ..a }
            &&& b.doc.wf()
            &&& b.doc@ == spec_set(doc, row.path, JsonV::Bool(!cur))
        },
        FieldKind::Flag => {
            &&& act is Nothing
            &&& b == App { doc: b.doc, dirty: true, ..a }
            &&& b.doc.wf()
            &&& b.doc@ == if spec_get(doc, row.path) is Some {
                spec_unset(doc, row.path)
            } else {
                spec_set(doc, row.path, JsonV::Object(Seq::empty()))
            }
        },
        FieldKind::Enum(options) => act is Nothing && picker_opened(
            a,
            b,
            row.label,
            Seq::empty(),
            row.label,
            text_of(Some(value)),
            target,
        ) && picker_items(b.modal) == enum_choices_v(options@),
        FieldKind::ChannelRef => act is Nothing && picker_opened(
            a,
            b,
            "Select channel"@,
            channel_hint(),
            "channel (number or alias)"@,
            match value {
                JsonV::Str(s) => Some(s),
                JsonV::Number(n) => number_text(n),
                _ => None,
            },
            target,
        ) && channel_choices_ok(doc, defaults, picker_items(b.modal)),
        FieldKind::VoiceRef => act is Nothing && picker_opened(
            a,
            b,
            "Select voice"@,
            voice_hint(),
            "voice name"@,
            text_of(Some(value)),
            target,
        ) && voice_choices_ok(doc, picker_items(b.modal)),
        FieldKind::MemoryBudget => act is Nothing && budget_cycled(a, b, row.path),
        FieldKind::OutputDevice => b == a && (act matches Action::ListDevices { output, target }
            && output && path_v(target@) == row.path),
        FieldKind::InputDevice => b == a && (act matches Action::ListDevices { output, target }
            && !output && path_v(target@) == row.path),
        FieldKind::StringList => act is Nothing && level_pushed(
            a,
            b,
            row.label,
            row.path,
            LevelKind::ScalarList { elem: FieldKind::Text },
            row.help,
        ),
        FieldKind::ChannelRefList => act is Nothing && level_pushed(
            a,
            b,
            row.label,
            row.path,
            LevelKind::ScalarList { elem: FieldKind::ChannelRef },
            row.help,
        ),
        FieldKind::VoiceRefList => act is Nothing && level_pushed(
            a,
            b,
            row.label,
            row.path,
            LevelKind::ScalarList { elem: FieldKind::VoiceRef },
            row.help,
        ),
        FieldKind::MapToUInt => act is Nothing && level_pushed(
            a,
            b,
            row.label,
            row.path,
            LevelKind::Entries { value_kind: FieldKind::UInt { min: 0, max: 65535 } },
            row.help,
        ),
        FieldKind::MapToFloat { min, max } => act is Nothing && level_pushed(
            a,
            b,
            row.label,
            row.path,
            LevelKind::Entries { value_kind: FieldKind::Float { min, max } },
            row.help,
        ),
        FieldKind::MapToJson => if lk is Entries {
            act is Nothing && level_pushed(
                a,
                b,
                row.label,
                row.path,
                LevelKind::MacroForm,
                macro_intro(row.label),
            )
        } else if lk is MacroForm {
            field_edit_started(a, b, act, row)
        } else {
            act is Nothing && level_pushed(
                a,
                b,
                row.label,
                row.path,
                LevelKind::Entries { value_kind: FieldKind::MapToJson },
                row.help,
            )
        },
        FieldKind::StructList(k) => act is Nothing && if lk is StructList {
            level_pushed(a, b, row.label, row.path, LevelKind::SubForm(k), Seq::empty())
        } else {
            level_pushed(a, b, row.label, row.path, LevelKind::StructList(k), row.help)
        },
        _ => field_edit_started(a, b, act, row),
    }
}

/// The text of an integer as JSON writes it; none for a float.
pub(crate) fn number_string(n: JsonNumber) -> (r: Option<String>)
    ensures
        match r {
            Some(s) => number_text(n) == Some(s@),
            None => number_text(n) is None,
        },
{
    match n {
        JsonNumber::Unsigned(u) => {
            let mut s = String::new();
            push_decimal(&mut s, u);
            Some(s)
        },
        JsonNumber::Signed(i) => {
            let mut s = String::new();
            if i < 0 {
                s.append("-");
                let m: u64 = (-(i as i128)) as u64;
                push_decimal(&mut s, m);
            } else {
                push_decimal(&mut s, i as u64);
            }
            Some(s)
        },
        JsonNumber::Float(_) => None,
    }
}

/// The text of a null, boolean or integer (see [`simple_text`]).
fn simple_string(v: &Json) -> (r: Option<String>)
    ensures
        match r {
            Some(s) => simple_text(jv(*v)) == Some(s@),
            None => simple_text(jv(*v)) is None,
        },
{
    match v {
        Json::Null => Some("null".to_owned()),
        Json::Bool(b) => Some(
            if *b {
                "true".to_owned()
            } else {
                "false".to_owned()
            },
        ),
        Json::Number(n) => number_string(*n),
        _ => None,
    }
}

/// A new structure for a list (see [`skeleton_v`]).
fn skeleton(k: StructListKind) -> (r: Json)
    ensures
        jv(r) == skeleton_v(k),
{
    match k {
        StructListKind::DuckingRules => {
            let ducked: Vec<Json> = Vec::new();
            proof {
                lemma_jv_array(ducked);
                assert(crate::document::item_views(ducked@) =~= Seq::<JsonV>::empty());
            }
            let es = vec![
                ("ducked_voices".to_owned(), Json::Array(ducked)),
                ("fade_duration_ms".to_owned(), Json::Number(JsonNumber::Unsigned(500))),
                ("primary_voice".to_owned(), Json::Str(String::new())),
                ("target_volume".to_owned(), Json::Number(JsonNumber::Float(0x3fe0000000000000))),
            ];
            proof {
                lemma_jv_object(es);
                assert(crate::document::entry_views(es@) =~= skeleton_v(k)->Object_0);
            }
            Json::Object(es)
        },
        StructListKind::Routes => {
            let es = vec![
                ("dest_channel".to_owned(), Json::Number(JsonNumber::Unsigned(0))),
                ("source_channel".to_owned(), Json::Number(JsonNumber::Unsigned(0))),
            ];
            proof {
                lemma_jv_object(es);
                assert(crate::document::entry_views(es@) =~= skeleton_v(k)->Object_0);
            }
            Json::Object(es)
        },
        StructListKind::Inputs => {
            let es: Vec<(String, Json)> = Vec::new();
            proof {
                crate::document::lemma_empty_object(es);
            }
            Json::Object(es)
        },
    }
}

/// A one-entry object `{"mode": mode}`.
fn mode_object(mode: &str) -> (r: Json)
    ensures
        jv(r) == JsonV::Object(seq![("mode"@, JsonV::Str(mode@))]),
{
    let es = vec![("mode".to_owned(), Json::Str(mode.to_owned()))];
    proof {
        lemma_jv_object(es);
        assert(crate::document::entry_views(es@) =~= seq![("mode"@, JsonV::Str(mode@))]);
    }
    Json::Object(es)
}

/// The first choice that commits `cur` (see [`match_index`]).
fn find_choice(items: &Vec<Choice>, cur: &str) -> (r: Option<usize>)
    ensures
        match r {
            Some(i) => match_index(choices_v(items@), cur@, 0) == i,
            None => match_index(choices_v(items@), cur@, 0) == -1,
        },
{
    let mut i: usize = 0;
    while i < items.len()
        invariant
            i <= items@.len(),
            match_index(choices_v(items@), cur@, 0) == match_index(choices_v(items@), cur@, i as int),
        decreases items@.len() - i,
    {
        if !items[i].custom && crate::keyed::same_text(items[i].insert_text.as_str(), cur) {
            return Some(i);
        }
        i += 1;
    }
    None
}

impl App {
    /// Open a choice picker with the cursor on the choice matching `current`.
    fn open_choice_picker(
        &mut self,
        title: String,
        hint: String,
        edit_label: String,
        items: Vec<Choice>,
        current: Option<String>,
        target: EditTarget,
    )
        ensures
            picker_opened(
                *old(self),
                *final(self),
                title@,
                hint@,
                edit_label@,
                match current {
                    Some(c) => Some(c@),
                    None => None,
                },
                target_v(target),
            ),
            picker_items(final(self).modal) == choices_v(items@),
    {
        let cursor: usize = match &current {
            Some(cur) => match find_choice(&items, cur.as_str()) {
                Some(i) => i,
                None => 0,
            },
            None => 0,
        };
        self.modal = Some(Modal::ChoicePicker { title, hint, edit_label, items, cursor, target });
    }

    /// Push a level on top, its cursor at the top.
    fn push_level(&mut self, title: String, path: Vec<Seg>, kind: LevelKind, intro: String)
        ensures
            level_pushed(*old(self), *final(self), title@, path_v(path@), kind, intro@),
    {
        self.levels.push(Level { title, path, kind, cursor: 0, intro });
        proof {
            assert(self.levels@.drop_last() =~= old(self).levels@);
        }
    }

    /// Open an edit of the row (see [`field_edit_started`]).
    fn start_field_edit(&mut self, row: &Row) -> (act: Action)
        requires
            old(self).wf(),
        ensures
            field_edit_started(*old(self), *final(self), act, row_v(*row)),
    {
        let target = self.row_target_exec(row);
        let (text, act) = match row.kind {
            FieldKind::Secret => (String::new(), Action::Nothing),
            FieldKind::MapToJson => match self.doc.get(row.path.as_slice()) {
                Some(v) => (
                    String::new(),
                    Action::RenderValue { value: crate::document::copy_json(v), as_json: true },
                ),
                None => (String::new(), Action::Nothing),
            },
            _ => match self.doc.get(row.path.as_slice()) {
                Some(Json::Str(s)) => (s.clone(), Action::Nothing),
                Some(v) => match simple_string(v) {
                    Some(t) => (t, Action::Nothing),
                    None => (
                        String::new(),
                        Action::RenderValue { value: crate::document::copy_json(v), as_json: false },
                    ),
                },
                None => (String::new(), Action::Nothing),
            },
        };
        let line = crate::editor::LineEdit::new(text);
        self.edit = Some(EditState { label: row.label.clone(), line, target, error: None });
        act
    }

    /// Move the memory budget at `path` to its next mode (see [`budget_cycled`]).
    fn cycle_memory_budget(&mut self, path: &Vec<Seg>)
        requires
            old(self).wf(),
        ensures
            budget_cycled(*old(self), *final(self), path_v(path@)),
    {
        let mode: Option<String> = match self.doc.get(path.as_slice()) {
            Some(v) => match member_of(v, "mode") {
                Some(Json::Str(m)) => Some(m.clone()),
                _ => None,
            },
            None => None,
        };
        match mode {
            None => {
                self.doc.set(path.as_slice(), mode_object("auto"));
            },
            Some(m) => {
                if crate::keyed::same_text(m.as_str(), "auto") {
                    let es = vec![
                        ("mb".to_owned(), Json::Number(JsonNumber::Unsigned(512))),
                        ("mode".to_owned(), Json::Str("explicit".to_owned())),
                    ];
                    proof {
                        lemma_jv_object(es);
                        assert(crate::document::entry_views(es@) =~= budget_explicit()->Object_0);
                    }
                    self.doc.set(path.as_slice(), Json::Object(es));
                } else if crate::keyed::same_text(m.as_str(), "explicit") {
                    self.doc.set(path.as_slice(), mode_object("unlimited"));
                } else {
                    self.doc.unset(path.as_slice());
                }
            },
        }
        self.dirty = true;
    }
}


/// Whether a path is that of the channel volumes.
fn is_volumes_path(p: &Vec<Seg>) -> (r: bool)
    ensures
        r == (path_v(p@) == volumes_path()),
{
    proof {
        reveal_strlit("audio");
        reveal_strlit("channel_volumes");
    }
    if p.len() != 2 {
        proof {
            assert(path_v(p@).len() != volumes_path().len());
        }
        return false;
    }
    let first = match &p[0] {
        Seg::Key(k) => crate::keyed::same_text(k.as_str(), "audio"),
        Seg::Idx(_) => false,
    };
    let second = match &p[1] {
        Seg::Key(k) => crate::keyed::same_text(k.as_str(), "channel_volumes"),
        Seg::Idx(_) => false,
    };
    proof {
        if first && second {
            assert(path_v(p@) =~= volumes_path());
        } else if !first {
            assert(path_v(p@)[0] != volumes_path()[0]);
        } else {
            assert(path_v(p@)[1] != volumes_path()[1]);
        }
    }
    first && second
}

impl App {
    /// Where committing the row's edit writes (see [`row_target`]).
    fn row_target_exec(&self, row: &Row) -> (r: EditTarget)
        requires
            self.wf(),
        ensures
            target_v(r) == row_target(*self, row_v(*row)),
    {
        match self.levels[self.levels.len() - 1].kind {
            LevelKind::Entries { .. } => EditTarget::MapValue { path: clone_path(&row.path), kind: row.kind },
            _ => EditTarget::Field { path: clone_path(&row.path), kind: row.kind },
        }
    }

    /// Add to the collection shown (see [`added`]).
    pub fn add_to_collection(&mut self) -> (act: Action)
        requires
            old(self).wf(),
        ensures
            final(self).wf(),
            added(*old(self), *final(self), act),
    {
        let top = self.levels.len() - 1;
        let path = clone_path(&self.levels[top].path);
        match self.levels[top].kind {
            LevelKind::ScalarList { elem } => {
                match elem {
                    FieldKind::ChannelRef => {
                        let items = channel_choices(&self.doc, &self.defaults);
                        self.open_choice_picker(
                            "Add channel".to_owned(),
                            "Aliases are defined in Audio > channel_aliases; numbers are 0-indexed.".to_owned(),
                            "new channel (number or alias)".to_owned(),
                            items,
                            None,
                            EditTarget::NewListItem { base: path, kind: FieldKind::ChannelRef },
                        );
                    },
                    FieldKind::VoiceRef => {
                        let items = voice_choices(&self.doc);
                        self.open_choice_picker(
                            "Add voice".to_owned(),
                            "Voices are created at runtime by Play commands; any name is valid.".to_owned(),
                            "new voice name".to_owned(),
                            items,
                            None,
                            EditTarget::NewListItem { base: path, kind: FieldKind::VoiceRef },
                        );
                    },
                    _ => {
                        self.edit = Some(
                            EditState {
                                label: "new entry".to_owned(),
                                line: LineEdit::new(String::new()),
                                target: EditTarget::NewListItem { base: path, kind: elem },
                                error: None,
                            },
                        );
                    },
                }
                Action::Nothing
            },
            LevelKind::Entries { value_kind } => {
                if is_volumes_path(&path) {
                    let items = channel_choices(&self.doc, &self.defaults);
                    self.open_choice_picker(
                        "Add channel".to_owned(),
                        "Aliases are defined in Audio > channel_aliases; numbers are 0-indexed.".to_owned(),
                        "channel (number or alias)".to_owned(),
                        items,
                        None,
                        EditTarget::MapKey { base: path, value_kind },
                    );
                } else {
                    self.edit = Some(
                        EditState {
                            label: "new key".to_owned(),
                            line: LineEdit::new(String::new()),
                            target: EditTarget::MapKey { base: path, value_kind },
                            error: None,
                        },
                    );
                }
                Action::Nothing
            },
            LevelKind::MacroForm => {
                let existing = match self.doc.get(path.as_slice()) {
                    Some(v) => crate::document::copy_json(v),
                    None => Json::Null,
                };
                let items = macro_param_choices(&self.tables.macro_params, &existing);
                self.open_choice_picker(
                    "Add parameter".to_owned(),
                    "Play-command parameters; macros may also carry parameters of other commands.".to_owned(),
                    "new parameter name".to_owned(),
                    items,
                    None,
                    EditTarget::MapKey { base: path, value_kind: FieldKind::MapToJson },
                );
                Action::Nothing
            },
            LevelKind::StructList(k) => {
                self.doc.push(path.as_slice(), skeleton(k));
                self.dirty = true;
                let n = self.doc.list_len(path.as_slice());
                if n > 0 {
                    let mut title = noun(k).to_owned();
                    title.append(" ");
                    push_decimal(&mut title, n as u64);
                    let item_path = extend(&path, Seg::Idx(n - 1));
                    self.push_level(title, item_path, LevelKind::SubForm(k), String::new());
                }
                Action::Nothing
            },
            _ => Action::Nothing,
        }
    }

    /// Enter on the highlighted row (see [`activated`]).
    pub fn activate_row(&mut self) -> (act: Action)
        requires
            old(self).wf(),
        ensures
            final(self).wf(),
            activated(*old(self), *final(self), act),
    {
        let rows = self.rows();
        let top = self.levels.len() - 1;
        let c = self.levels[top].cursor;
        if c >= rows.len() {
            if self.level_is_collection() {
                return self.add_to_collection();
            }
            return Action::Nothing;
        }
        let row = &rows[c];
        proof {
            assert(row_v(*row) == spec_rows(*old(self))[c as int]);
        }
        let lk = self.levels[top].kind;
        match row.kind {
            FieldKind::Bool => {
                let (v, _) = effective_exec(&self.doc, &self.defaults, &row.path);
                let cur = match v {
                    Json::Bool(x) => x,
                    _ => false,
                };
                self.doc.set(row.path.as_slice(), Json::Bool(!cur));
                self.dirty = true;
                Action::Nothing
            },
            FieldKind::Flag => {
                if self.doc.get(row.path.as_slice()).is_some() {
                    self.doc.unset(row.path.as_slice());
                } else {
                    let es: Vec<(String, Json)> = Vec::new();
                    proof {
                        crate::document::lemma_empty_object(es);
                    }
                    self.doc.set(row.path.as_slice(), Json::Object(es));
                }
                self.dirty = true;
                Action::Nothing
            },
            FieldKind::Enum(options) => {
                let (v, _) = effective_exec(&self.doc, &self.defaults, &row.path);
                let current = match v {
                    Json::Str(s) => Some(s),
                    _ => None,
                };
                let target = self.row_target_exec(row);
                self.open_choice_picker(
                    row.label.clone(),
                    String::new(),
                    row.label.clone(),
                    enum_choices(options),
                    current,
                    target,
                );
                Action::Nothing
            },
            FieldKind::ChannelRef => {
                let (v, _) = effective_exec(&self.doc, &self.defaults, &row.path);
                let current = match v {
                    Json::Str(s) => Some(s),
                    Json::Number(n) => number_string(n),
                    _ => None,
                };
                let target = self.row_target_exec(row);
                let items = channel_choices(&self.doc, &self.defaults);
                self.open_choice_picker(
                    "Select channel".to_owned(),
                    "Aliases are defined in Audio > channel_aliases; numbers are 0-indexed.".to_owned(),
                    "channel (number or alias)".to_owned(),
                    items,
                    current,
                    target,
                );
                Action::Nothing
            },
            FieldKind::VoiceRef => {
                let (v, _) = effective_exec(&self.doc, &self.defaults, &row.path);
                let current = match v {
                    Json::Str(s) => Some(s),
                    _ => None,
                };
                let target = self.row_target_exec(row);
                let items = voice_choices(&self.doc);
                self.open_choice_picker(
                    "Select voice".to_owned(),
                    "Voices are created at runtime by Play commands; any name is valid.".to_owned(),
                    "voice name".to_owned(),
                    items,
                    current,
                    target,
                );
                Action::Nothing
            },
            FieldKind::MemoryBudget => {
                self.cycle_memory_budget(&row.path);
                Action::Nothing
            },
            FieldKind::OutputDevice => Action::ListDevices { output: true, target: clone_path(&row.path) },
            FieldKind::InputDevice => Action::ListDevices { output: false, target: clone_path(&row.path) },
            FieldKind::StringList => {
                self.push_level(
                    row.label.clone(),
                    clone_path(&row.path),
                    LevelKind::ScalarList { elem: FieldKind::Text },
                    row.help.clone(),
                );
                Action::Nothing
            },
            FieldKind::ChannelRefList => {
                self.push_level(
                    row.label.clone(),
                    clone_path(&row.path),
                    LevelKind::ScalarList { elem: FieldKind::ChannelRef },
                    row.help.clone(),
                );
                Action::Nothing
            },
            FieldKind::VoiceRefList => {
                self.push_level(
                    row.label.clone(),
                    clone_path(&row.path),
                    LevelKind::ScalarList { elem: FieldKind::VoiceRef },
                    row.help.clone(),
                );
                Action::Nothing
            },
            FieldKind::MapToUInt => {
                self.push_level(
                    row.label.clone(),
                    clone_path(&row.path),
                    LevelKind::Entries { value_kind: FieldKind::UInt { min: 0, max: 65535 } },
                    row.help.clone(),
                );
                Action::Nothing
            },
            FieldKind::MapToFloat { min, max } => {
                self.push_level(
                    row.label.clone(),
                    clone_path(&row.path),
                    LevelKind::Entries { value_kind: FieldKind::Float { min, max } },
                    row.help.clone(),
                );
                Action::Nothing
            },
            FieldKind::MapToJson => match lk {
                LevelKind::Entries { .. } => {
                    let mut intro = "Parameters merged into commands that use \"macro\": \"".to_owned();
                    intro.append(row.label.as_str());
                    intro.append("\". Command parameters override macro parameters.");
                    self.push_level(row.label.clone(), clone_path(&row.path), LevelKind::MacroForm, intro);
                    Action::Nothing
                },
                LevelKind::MacroForm => self.start_field_edit(row),
                _ => {
                    self.push_level(
                        row.label.clone(),
                        clone_path(&row.path),
                        LevelKind::Entries { value_kind: FieldKind::MapToJson },
                        row.help.clone(),
                    );
                    Action::Nothing
                },
            },
            FieldKind::StructList(k) => {
                match lk {
                    LevelKind::StructList(_) => {
                        self.push_level(
                            row.label.clone(),
                            clone_path(&row.path),
                            LevelKind::SubForm(k),
                            String::new(),
                        );
                    },
                    _ => {
                        self.push_level(
                            row.label.clone(),
                            clone_path(&row.path),
                            LevelKind::StructList(k),
                            row.help.clone(),
                        );
                    },
                }
                Action::Nothing
            },
            _ => self.start_field_edit(row),
        }
    }
}


// ---------------------------------------------------------------------------
// Edits in progress
// ---------------------------------------------------------------------------

/// The line-edit key a key is, if any.
pub open spec fn edit_key(key: Key) -> Option<EditKey> {
    match key {
        Key::Char(c) => Some(EditKey::Char(c)),
        Key::Backspace => Some(EditKey::Backspace),
        Key::Delete => Some(EditKey::Delete),
        Key::Left => Some(EditKey::Left),
        Key::Right => Some(EditKey::Right),
        Key::Home => Some(EditKey::Home),
        Key::End => Some(EditKey::End),
        _ => None,
    }
}

/// Whether `b` is `a` with the edit's line changed by `k` (a text too long
/// to grow further, which no memory can hold, is left as it is).
pub open spec fn line_edited(a: App, b: App, k: EditKey) -> bool {
    let e = a.edit->Some_0;
    if e.line.buffer@.len() < usize::MAX {
        &&& b == App { edit: b.edit, ..a }
        &&& b.edit matches Some(x) && x == EditState { line: x.line, ..e } && (
            x.line.buffer@,
            x.line.cursor as int,
        ) == spec_edit(e.line.buffer@, e.line.cursor as int, k)
    } else {
        b == a
    }
}

/// The kind whose value an edit aimed at `t` needs read outside (a float or
/// JSON), if any.
pub open spec fn needs_outside(t: EditTarget) -> Option<FieldKind> {
    match t {
        EditTarget::Field { kind, .. } | EditTarget::NewListItem { kind, .. }
        | EditTarget::MapValue { kind, .. } => if parsed_outside(kind) {
            Some(kind)
        } else {
            None
        },
        EditTarget::MapKey { .. } => None,
    }
}

/// Whether `b` is `a` once the outcome `o` of committing the edit `e` took
/// effect: the edit closes (or shows the error, or asks for a map value),
/// the list cursor follows an appended element, a new macro's form opens;
/// the document is marked changed when it changed.
pub open spec fn outcome_applied(a: App, b: App, e: EditState, o: CommitOutcome, changed: bool) -> bool {
    let mid = App { doc: b.doc, dirty: a.dirty || changed, edit: None, ..a };
    match o {
        CommitOutcome::Closed => b == mid,
        CommitOutcome::Appended { cursor } => b == App { levels: b.levels, ..mid } && b.levels@
            == with_cursor(a, cursor),
        CommitOutcome::Rejected(m) => b == App { edit: Some(EditState { error: Some(m), ..e }), ..mid },
        CommitOutcome::MacroCreated { key, path, intro } => level_pushed(
            mid,
            b,
            key@,
            path_v(path@),
            LevelKind::MacroForm,
            intro@,
        ),
        CommitOutcome::AskValue { label, path, kind, .. } => b == App { edit: b.edit, ..mid }
            && edit_is(b.edit, label@, Seq::empty(), TargetV::MapValue { path: path_v(path@), kind }),
    }
}

/// Whether `b` is `a` after committing its edit, with `external` the value
/// read outside if one was needed (see [`commit_spec`]).
pub open spec fn commit_applied(a: App, b: App, external: Option<Result<Option<JsonV>, Seq<char>>>) -> bool {
    let e = a.edit->Some_0;
    exists|o: CommitOutcome, changed: bool|
        #![trigger commit_spec(a.doc@, b.doc@, e.target, e.line.buffer@, external, o, changed)]
        commit_spec(a.doc@, b.doc@, e.target, e.line.buffer@, external, o, changed) && b.doc.wf()
            && outcome_applied(a, b, e, o, changed)
}

/// What Enter does to an edit: commit it, or first ask the caller to read a
/// float or JSON value.
pub open spec fn committed(a: App, b: App, act: Action) -> bool {
    let e = a.edit->Some_0;
    match needs_outside(e.target) {
        Some(kind) => b == a && (act matches Action::ParseValue { kind: k, text } && k == kind
            && text@ == e.line.buffer@),
        None => act is Nothing && commit_applied(a, b, None),
    }
}

/// What a key does to an edit in progress: Esc drops it, Enter commits it,
/// the line-edit keys change its text.
pub open spec fn edit_step(a: App, b: App, key: Key, act: Action) -> bool {
    match key {
        Key::Esc => b == App { edit: None, ..a } && act is Nothing,
        Key::Enter => committed(a, b, act),
        _ => act is Nothing && match edit_key(key) {
            Some(k) => line_edited(a, b, k),
            None => b == a,
        },
    }
}

/// Whether `b` is `a` with the edit `e` holding `text`, cursor at its end.
pub open spec fn edit_text_set(a: App, b: App, e: EditState, text: Seq<char>) -> bool {
    &&& b == App { edit: b.edit, ..a }
    &&& b.edit matches Some(x) && x == EditState { line: x.line, ..e } && x.line.buffer@ == text
        && x.line.cursor == text.len()
}

impl App {
    /// Commit the edit (see [`commit_applied`]).
    fn commit(&mut self, external: Option<Result<Option<Json>, String>>)
        requires
            old(self).wf(),
            old(self).edit is Some,
            needs_outside(old(self).edit->Some_0.target) is Some ==> external is Some,
        ensures
            final(self).wf(),
            commit_applied(*old(self), *final(self), external_view(external)),
    {
        let ghost a = *self;
        let e = self.edit.take().unwrap();
        let (outcome, changed) = commit_edit(&mut self.doc, &e.target, e.line.buffer.as_str(), external);
        if changed {
            self.dirty = true;
        }
        let ghost o = outcome;
        match outcome {
            CommitOutcome::Closed => {},
            CommitOutcome::Appended { cursor } => {
                self.set_cursor(cursor);
            },
            CommitOutcome::Rejected(m) => {
                self.edit = Some(EditState { error: Some(m), ..e });
            },
            CommitOutcome::MacroCreated { key, path, intro } => {
                self.push_level(key, path, LevelKind::MacroForm, intro);
            },
            CommitOutcome::AskValue { key, label, path, kind } => {
                self.edit = Some(
                    EditState {
                        label,
                        line: LineEdit::new(String::new()),
                        target: EditTarget::MapValue { path, kind },
                        error: None,
                    },
                );
            },
        }
        proof {
            assert(outcome_applied(a, *self, e, o, changed));
        }
    }

    /// A key while an edit is open (see [`edit_step`]).
    pub fn handle_edit_key(&mut self, key: Key) -> (act: Action)
        requires
            old(self).wf(),
            old(self).edit is Some,
        ensures
            final(self).wf(),
            edit_step(*old(self), *final(self), key, act),
    {
        match key {
            Key::Esc => {
                self.edit = None;
                Action::Nothing
            },
            Key::Enter => {
                let outside = match &self.edit {
                    Some(e) => match &e.target {
                        EditTarget::Field { kind, .. } | EditTarget::NewListItem { kind, .. }
                        | EditTarget::MapValue { kind, .. } => match kind {
                            FieldKind::Float { .. } | FieldKind::MapToJson => Some(
                                (*kind, e.line.buffer.clone()),
                            ),
                            _ => None,
                        },
                        EditTarget::MapKey { .. } => None,
                    },
                    None => None,
                };
                match outside {
                    Some((kind, text)) => Action::ParseValue { kind, text },
                    None => {
                        self.commit(None);
                        Action::Nothing
                    },
                }
            },
            _ => {
                let k = match key {
                    Key::Char(c) => Some(EditKey::Char(c)),
                    Key::Backspace => Some(EditKey::Backspace),
                    Key::Delete => Some(EditKey::Delete),
                    Key::Left => Some(EditKey::Left),
                    Key::Right => Some(EditKey::Right),
                    Key::Home => Some(EditKey::Home),
                    Key::End => Some(EditKey::End),
                    _ => None,
                };
                match k {
                    Some(k) => {
                        let mut e = self.edit.take().unwrap();
                        if e.line.buffer.as_str().unicode_len() < usize::MAX {
                            e.line.apply(k);
                        }
                        self.edit = Some(e);
                    },
                    None => {},
                }
                Action::Nothing
            },
        }
    }

    /// Commit the edit with the value read outside (see [`Action::ParseValue`]).
    pub fn finish_commit(&mut self, outcome: Result<Option<Json>, String>)
        requires
            old(self).wf(),
        ensures
            final(self).wf(),
            match old(self).edit {
                Some(_) => commit_applied(*old(self), *final(self), Some(parse_view(outcome))),
                None => *final(self) == *old(self),
            },
    {
        if self.edit.is_some() {
            self.commit(Some(outcome));
        }
    }

    /// Put `text` in the edit, cursor at its end (see [`Action::RenderValue`]).
    pub fn set_edit_text(&mut self, text: String)
        requires
            old(self).wf(),
        ensures
            final(self).wf(),
            match old(self).edit {
                Some(e) => edit_text_set(*old(self), *final(self), e, text@),
                None => *final(self) == *old(self),
            },
    {
        if self.edit.is_some() {
            let mut e = self.edit.take().unwrap();
            e.line = LineEdit::new(text);
            self.edit = Some(e);
        }
    }
}


// ---------------------------------------------------------------------------
// Dialogs
// ---------------------------------------------------------------------------

/// The form of an optional text.
pub open spec fn opt_text(o: Option<String>) -> Option<Seq<char>> {
    match o {
        Some(s) => Some(s@),
        None => None,
    }
}

/// The form of a way back to a device picker.
pub open spec fn back_v(o: Option<(bool, Vec<Seg>)>) -> Option<(bool, Seq<SegV>)> {
    match o {
        Some((out, t)) => Some((out, path_v(t@))),
        None => None,
    }
}

/// The latency of the input whose device is at `target`: the `latency_ms`
/// beside it, cut to 32 bits, else 20.
pub open spec fn input_latency(doc: JsonV, target: Seq<SegV>) -> u32 {
    if target.len() >= 2 {
        match spec_get(doc, target.drop_last().push(SegV::Key("latency_ms"@))) {
            Some(v) => match as_u64(v) {
                Some(n) => n as u32,
                None => 20,
            },
            None => 20,
        }
    } else {
        20
    }
}

/// Whether `b` is `a` asking for the value of the map entry at `path`: a
/// picker for choice-like kinds, a text edit otherwise.
pub open spec fn value_editor_opened(a: App, b: App, path: Seq<SegV>, kind: FieldKind, label: Seq<char>) -> bool {
    let target = TargetV::MapValue { path, kind };
    match kind {
        FieldKind::Enum(options) => picker_opened(a, b, label, Seq::empty(), label, None, target)
            && picker_items(b.modal) == enum_choices_v(options@),
        FieldKind::Bool => picker_opened(a, b, label, Seq::empty(), label, None, target) && picker_items(
            b.modal,
        ) == bool_choices_v(),
        FieldKind::ChannelRef => picker_opened(
            a,
            b,
            "Select channel"@,
            channel_hint(),
            label,
            None,
            target,
        ) && channel_choices_ok(a.doc@, jv(a.defaults), picker_items(b.modal)),
        FieldKind::VoiceRef => picker_opened(a, b, "Select voice"@, voice_hint(), label, None, target)
            && voice_choices_ok(a.doc@, picker_items(b.modal)),
        _ => b == App { edit: b.edit, ..a } && edit_is(b.edit, label, Seq::empty(), target),
    }
}

/// Up moves a cursor up a list; Down down it, staying on the list.
pub open spec fn moved(c: usize, n: nat, key: Key) -> usize {
    match key {
        Key::Up => if c > 0 {
            (c - 1) as usize
        } else {
            0
        },
        Key::Down => if c + 1 < n {
            (c + 1) as usize
        } else {
            c
        },
        _ => c,
    }
}

/// The first save location equal to `buffer`, if any.
pub open spec fn candidate_index(cs: Seq<String>, buffer: Seq<char>, i: int) -> int
    decreases cs.len() - i,
{
    if i < 0 || i >= cs.len() {
        -1
    } else if cs[i]@ == buffer {
        i
    } else {
        candidate_index(cs, buffer, i + 1)
    }
}

/// The save location Up or Down moves to: the next (or previous) after the
/// one shown, cycling, else the first.
pub open spec fn next_candidate(cs: Seq<String>, buffer: Seq<char>, key: Key) -> int {
    let i = candidate_index(cs, buffer, 0);
    if i < 0 {
        0
    } else if key is Down {
        if i + 1 < cs.len() {
            i + 1
        } else {
            0
        }
    } else if i > 0 {
        i - 1
    } else {
        cs.len() - 1
    }
}

/// What a key does in a choice picker: move, close, or choose. Choosing a
/// custom entry opens a free-text edit; choosing a map key asks for its
/// value unless the key exists; anything else commits as if typed.
pub open spec fn choice_picker_step(a: App, b: App, key: Key, act: Action) -> bool {
    match a.modal {
        Some(Modal::ChoicePicker { title, hint, edit_label, items, cursor, target }) => {
            let closed = App { modal: None, ..a };
            match key {
                Key::Esc | Key::Char('q') => b == closed && act is Nothing,
                Key::Up | Key::Down => act is Nothing && b == App {
                    modal: Some(
                        Modal::ChoicePicker {
                            title,
                            hint,
                            edit_label,
                            items,
                            cursor: moved(cursor, items@.len(), key),
                            target,
                        },
                    ),
                    ..a
                },
                Key::Enter => if cursor >= items@.len() {
                    b == closed && act is Nothing
                } else {
                    let item = items@[cursor as int];
                    if item.custom {
                        act is Nothing && b == App { edit: b.edit, ..closed } && edit_is(
                            b.edit,
                            edit_label@,
                            Seq::empty(),
                            target_v(target),
                        )
                    } else {
                        match target {
                            EditTarget::MapKey { base, value_kind } => {
                                let path = path_v(base@).push(SegV::Key(item.insert_text@));
                                act is Nothing && if spec_get(a.doc@, path) is Some {
                                    b == App { status: b.status, ..closed } && b.status@ == "'"@
                                        + item.insert_text@ + "' already exists"@
                                } else {
                                    value_editor_opened(
                                        closed,
                                        b,
                                        path,
                                        match item.value_kind {
                                            Some(k) => k,
                                            None => value_kind,
                                        },
                                        "value for "@ + item.insert_text@,
                                    )
                                }
                            },
                            _ => committed(
                                App {
                                    edit: Some(
                                        EditState {
                                            label: edit_label,
                                            line: LineEdit {
                                                buffer: item.insert_text,
                                                cursor: item.insert_text@.len() as usize,
                                            },
                                            target,
                                            error: None,
                                        },
                                    ),
                                    ..closed
                                },
                                b,
                                act,
                            ),
                        }
                    }
                },
                _ => b == a && act is Nothing,
            }
        },
        _ => false,
    }
}

/// What a key does in a dialog.
pub open spec fn modal_step(a: App, b: App, key: Key, act: Action) -> bool {
    let closed = App { modal: None, ..a };
    match a.modal {
        Some(Modal::DevicePicker { output, items, cursor, target }) => match key {
            Key::Esc | Key::Char('q') => b == closed && act is Nothing,
            Key::Up | Key::Down => act is Nothing && b == App {
                modal: Some(
                    Modal::DevicePicker {
                        output,
                        items,
                        cursor: moved(cursor, items@.len(), key),
                        target,
                    },
                ),
                ..a
            },
            Key::Enter => {
                let name = items@[cursor as int].name;
                &&& act is Nothing
                &&& b == App { doc: b.doc, dirty: true, status: b.status, ..closed }
                &&& b.doc.wf()
                &&& b.doc@ == match name {
                    Some(n) => spec_set(a.doc@, path_v(target@), JsonV::Str(n@)),
                    None => spec_unset(a.doc@, path_v(target@)),
                }
                &&& b.status@ == "Device set to "@ + match name {
                    Some(n) => n@,
                    None => "(default)"@,
                }
            },
            Key::Char('t') => {
                let name = opt_text(items@[cursor as int].name);
                &&& b == closed
                &&& if output {
                    act matches Action::StartOutputTest { device, back } && opt_text(device) == name
                        && back_v(back) == Some((true, path_v(target@)))
                } else {
                    act matches Action::StartInputTest { device, latency_ms, back } && opt_text(
                        device,
                    ) == name && latency_ms == input_latency(a.doc@, path_v(target@)) && back_v(
                        back,
                    ) == Some((false, path_v(target@)))
                }
            },
            _ => b == a && act is Nothing,
        },
        Some(Modal::ChoicePicker { .. }) => choice_picker_step(a, b, key, act),
        Some(Modal::OutputTest(st)) => match key {
            Key::Esc | Key::Char('q') => b == closed && (act matches Action::StopTest { back }
                && back_v(back) == back_v(st.return_to_picker)),
            Key::Up | Key::Down => act is Nothing && b == App {
                modal: Some(
                    Modal::OutputTest(
                        OutputTestState {
                            cursor: moved(
                                st.cursor,
                                if st.running {
                                    st.channels as nat
                                } else {
                                    0
                                },
                                key,
                            ),
                            ..st
                        },
                    ),
                ),
                ..a
            },
            Key::Enter | Key::Char(' ') | Key::Char('b') => b == a && if st.running {
                act matches Action::PlayTone { channel, bass } && channel == st.cursor && bass == (
                key == Key::Char('b'))
            } else {
                act is Nothing
            },
            Key::Char('a') => act is Nothing && b == App {
                modal: Some(Modal::OutputTest(OutputTestState { sweep: Some((0, None)), ..st })),
                ..a
            },
            _ => b == a && act is Nothing,
        },
        Some(Modal::InputTest(st)) => match key {
            Key::Esc | Key::Char('q') => b == closed && (act matches Action::StopTest { back }
                && back_v(back) == back_v(st.return_to_picker)),
            _ => b == a && act is Nothing,
        },
        Some(Modal::SaveDialog { buffer, cursor, candidates }) => match key {
            Key::Esc => b == closed && act is Nothing,
            Key::Enter => b == closed && (act matches Action::Save { path } && path@ == trim(
                buffer@,
            )),
            Key::Up | Key::Down => {
                let n = next_candidate(candidates@, buffer@, key);
                act is Nothing && if 0 <= n < candidates@.len() {
                    b == App {
                        modal: Some(
                            Modal::SaveDialog {
                                buffer: candidates@[n],
                                cursor: candidates@[n]@.len() as usize,
                                candidates,
                            },
                        ),
                        ..a
                    }
                } else {
                    b == a
                }
            },
            Key::Char(_) | Key::Backspace | Key::Left | Key::Right => act is Nothing && if buffer@.len()
                < usize::MAX {
                b == App { modal: b.modal, ..a } && (b.modal matches Some(
                    Modal::SaveDialog { buffer: nb, cursor: nc, candidates: ncs },
                ) && ncs == candidates && (nb@, nc as int) == spec_edit(
                    buffer@,
                    cursor as int,
                    edit_key(key)->Some_0,
                ))
            } else {
                b == a
            },
            _ => b == a && act is Nothing,
        },
        Some(Modal::Errors { .. }) => b == closed && act is Nothing,
        Some(Modal::ConfirmQuit) => act is Nothing && if key == Key::Char('y') || key == Key::Char(
            'Y',
        ) {
            b == App { quit: true, ..closed }
        } else {
            b == closed
        },
        Some(Modal::LoadFailed { path, error }) => act is Nothing && match key {
            Key::Char('d') | Key::Char('D') => {
                &&& b == App { doc: b.doc, status: b.status, ..closed }
                &&& b.doc.wf()
                &&& b.doc@ == JsonV::Object(Seq::empty())
                &&& b.status@ == "Started from defaults; "@ + path@ + " is untouched until you save"@
            },
            Key::Char('q') | Key::Esc => b == App { quit: true, ..closed },
            _ => b == a,
        },
        None => b == a && act is Nothing,
    }
}

/// Where Up or Down moves a cursor (see [`moved`]).
fn moved_exec(c: usize, n: usize, key: Key) -> (r: usize)
    ensures
        r == moved(c, n as nat, key),
{
    match key {
        Key::Up => if c > 0 {
            c - 1
        } else {
            0
        },
        Key::Down => if c < n && c + 1 < n {
            c + 1
        } else {
            c
        },
        _ => c,
    }
}

/// The latency of the input whose device is at `target` (see [`input_latency`]).
fn input_latency_exec(doc: &ConfigDocument, target: &Vec<Seg>) -> (r: u32)
    ensures
        r == input_latency(doc@, path_v(target@)),
{
    if target.len() < 2 {
        return 20;
    }
    let mut p = clone_path(target);
    let _ = p.pop();
    p.push(Seg::Key("latency_ms".to_owned()));
    proof {
        assert(path_v(p@) =~= path_v(target@).drop_last().push(SegV::Key("latency_ms"@)));
    }
    match doc.get(p.as_slice()) {
        Some(v) => match as_u64_exec(v) {
            Some(n) => {
                #[verifier::truncate]
                let l = n as u32;
                l
            },
            None => 20,
        },
        None => 20,
    }
}

/// The save location Up or Down moves to (see [`next_candidate`]).
fn next_candidate_exec(cs: &Vec<String>, buffer: &str, key: Key) -> (r: usize)
    ensures
        r as int == next_candidate(cs@, buffer@, key),
{
    let mut i: usize = 0;
    while i < cs.len()
        invariant
            i <= cs@.len(),
            candidate_index(cs@, buffer@, 0) == candidate_index(cs@, buffer@, i as int),
        decreases cs@.len() - i,
    {
        if crate::keyed::same_text(cs[i].as_str(), buffer) {
            return match key {
                Key::Down => if i + 1 < cs.len() {
                    i + 1
                } else {
                    0
                },
                _ => if i > 0 {
                    i - 1
                } else {
                    cs.len() - 1
                },
            };
        }
        i += 1;
    }
    0
}

impl App {
    /// Ask for the value of the map entry at `path` (see [`value_editor_opened`]).
    fn open_value_editor(&mut self, path: Vec<Seg>, kind: FieldKind, label: String)
        requires
            old(self).wf(),
        ensures
            final(self).wf(),
            value_editor_opened(*old(self), *final(self), path_v(path@), kind, label@),
    {
        match kind {
            FieldKind::Enum(options) => {
                self.open_choice_picker(
                    label.clone(),
                    String::new(),
                    label,
                    enum_choices(options),
                    None,
                    EditTarget::MapValue { path, kind },
                );
            },
            FieldKind::Bool => {
                self.open_choice_picker(
                    label.clone(),
                    String::new(),
                    label,
                    bool_choices(),
                    None,
                    EditTarget::MapValue { path, kind },
                );
            },
            FieldKind::ChannelRef => {
                let items = channel_choices(&self.doc, &self.defaults);
                self.open_choice_picker(
                    "Select channel".to_owned(),
                    "Aliases are defined in Audio > channel_aliases; numbers are 0-indexed.".to_owned(),
                    label,
                    items,
                    None,
                    EditTarget::MapValue { path, kind },
                );
            },
            FieldKind::VoiceRef => {
                let items = voice_choices(&self.doc);
                self.open_choice_picker(
                    "Select voice".to_owned(),
                    "Voices are created at runtime by Play commands; any name is valid.".to_owned(),
                    label,
                    items,
                    None,
                    EditTarget::MapValue { path, kind },
                );
            },
            _ => {
                self.edit = Some(
                    EditState {
                        label,
                        line: LineEdit::new(String::new()),
                        target: EditTarget::MapValue { path, kind },
                        error: None,
                    },
                );
            },
        }
    }

    /// A key in a choice picker (see [`choice_picker_step`]).
    fn handle_choice_key(&mut self, key: Key) -> (act: Action)
        requires
            old(self).wf(),
            old(self).modal matches Some(Modal::ChoicePicker { .. }),
        ensures
            final(self).wf(),
            choice_picker_step(*old(self), *final(self), key, act),
    {
        let m = self.modal.take().unwrap();
        match m {
            Modal::ChoicePicker { title, hint, edit_label, items, cursor, target } => match key {
                Key::Esc | Key::Char('q') => Action::Nothing,
                Key::Up | Key::Down => {
                    let c = moved_exec(cursor, items.len(), key);
                    self.modal = Some(
                        Modal::ChoicePicker { title, hint, edit_label, items, cursor: c, target },
                    );
                    Action::Nothing
                },
                Key::Enter => {
                    if cursor >= items.len() {
                        return Action::Nothing;
                    }
                    if items[cursor].custom {
                        self.edit = Some(
                            EditState {
                                label: edit_label,
                                line: LineEdit::new(String::new()),
                                target,
                                error: None,
                            },
                        );
                        return Action::Nothing;
                    }
                    match target {
                        EditTarget::MapKey { base, value_kind } => {
                            let key_name = items[cursor].insert_text.clone();
                            let path = extend(&base, Seg::Key(key_name.clone()));
                            if self.doc.get(path.as_slice()).is_some() {
                                let mut s = "'".to_owned();
                                s.append(key_name.as_str());
                                s.append("' already exists");
                                self.status = s;
                            } else {
                                let kind = match items[cursor].value_kind {
                                    Some(k) => k,
                                    None => value_kind,
                                };
                                let mut label = "value for ".to_owned();
                                label.append(key_name.as_str());
                                self.open_value_editor(path, kind, label);
                            }
                            Action::Nothing
                        },
                        other => {
                            let text = items[cursor].insert_text.clone();
                            let n = text.as_str().unicode_len();
                            self.edit = Some(
                                EditState {
                                    label: edit_label,
                                    line: LineEdit { buffer: text, cursor: n },
                                    target: other,
                                    error: None,
                                },
                            );
                            self.handle_edit_key(Key::Enter)
                        },
                    }
                },
                _ => {
                    self.modal = Some(
                        Modal::ChoicePicker { title, hint, edit_label, items, cursor, target },
                    );
                    Action::Nothing
                },
            },
            _ => Action::Nothing,
        }
    }

    /// A key while a dialog is open (see [`modal_step`]).
    pub fn handle_modal_key(&mut self, key: Key) -> (act: Action)
        requires
            old(self).wf(),
            old(self).modal is Some,
        ensures
            final(self).wf(),
            modal_step(*old(self), *final(self), key, act),
    {
        match &self.modal {
            Some(Modal::ChoicePicker { .. }) => {
                return self.handle_choice_key(key);
            },
            _ => {},
        }
        let m = self.modal.take().unwrap();
        match m {
            Modal::DevicePicker { output, items, cursor, target } => match key {
                Key::Esc | Key::Char('q') => Action::Nothing,
                Key::Up | Key::Down => {
                    let c = moved_exec(cursor, items.len(), key);
                    self.modal = Some(Modal::DevicePicker { output, items, cursor: c, target });
                    Action::Nothing
                },
                Key::Enter => {
                    let mut status = "Device set to ".to_owned();
                    match &items[cursor].name {
                        Some(n) => {
                            self.doc.set(target.as_slice(), Json::Str(n.clone()));
                            status.append(n.as_str());
                        },
                        None => {
                            self.doc.unset(target.as_slice());
                            status.append("(default)");
                        },
                    }
                    self.dirty = true;
                    self.status = status;
                    Action::Nothing
                },
                Key::Char('t') => {
                    let name = match &items[cursor].name {
                        Some(n) => Some(n.clone()),
                        None => None,
                    };
                    if output {
                        Action::StartOutputTest { device: name, back: Some((true, target)) }
                    } else {
                        let latency_ms = input_latency_exec(&self.doc, &target);
                        Action::StartInputTest { device: name, latency_ms, back: Some((false, target)) }
                    }
                },
                _ => {
                    self.modal = Some(Modal::DevicePicker { output, items, cursor, target });
                    Action::Nothing
                },
            },
            Modal::OutputTest(st) => match key {
                Key::Esc | Key::Char('q') => Action::StopTest { back: st.return_to_picker },
                Key::Up | Key::Down => {
                    let n = if st.running {
                        st.channels
                    } else {
                        0
                    };
                    let c = moved_exec(st.cursor, n, key);
                    self.modal = Some(Modal::OutputTest(OutputTestState { cursor: c, ..st }));
                    Action::Nothing
                },
                Key::Enter | Key::Char(' ') | Key::Char('b') => {
                    let act = if st.running {
                        Action::PlayTone { channel: st.cursor, bass: key == Key::Char('b') }
                    } else {
                        Action::Nothing
                    };
                    self.modal = Some(Modal::OutputTest(st));
                    act
                },
                Key::Char('a') => {
                    self.modal = Some(Modal::OutputTest(OutputTestState { sweep: Some((0, None)), ..st }));
                    Action::Nothing
                },
                _ => {
                    self.modal = Some(Modal::OutputTest(st));
                    Action::Nothing
                },
            },
            Modal::InputTest(st) => match key {
                Key::Esc | Key::Char('q') => Action::StopTest { back: st.return_to_picker },
                _ => {
                    self.modal = Some(Modal::InputTest(st));
                    Action::Nothing
                },
            },
            Modal::SaveDialog { buffer, cursor, candidates } => match key {
                Key::Esc => Action::Nothing,
                Key::Enter => Action::Save { path: trim_text(buffer.as_str()) },
                Key::Up | Key::Down => {
                    let n = next_candidate_exec(&candidates, buffer.as_str(), key);
                    if n < candidates.len() {
                        let nb = candidates[n].clone();
                        let nc = nb.as_str().unicode_len();
                        self.modal = Some(Modal::SaveDialog { buffer: nb, cursor: nc, candidates });
                    } else {
                        self.modal = Some(Modal::SaveDialog { buffer, cursor, candidates });
                    }
                    Action::Nothing
                },
                Key::Char(_) | Key::Backspace | Key::Left | Key::Right => {
                    if buffer.as_str().unicode_len() < usize::MAX {
                        let k = match key {
                            Key::Char(c) => EditKey::Char(c),
                            Key::Backspace => EditKey::Backspace,
                            Key::Left => EditKey::Left,
                            _ => EditKey::Right,
                        };
                        let mut line = LineEdit { buffer, cursor };
                        line.apply(k);
                        self.modal = Some(
                            Modal::SaveDialog { buffer: line.buffer, cursor: line.cursor, candidates },
                        );
                    } else {
                        self.modal = Some(Modal::SaveDialog { buffer, cursor, candidates });
                    }
                    Action::Nothing
                },
                _ => {
                    self.modal = Some(Modal::SaveDialog { buffer, cursor, candidates });
                    Action::Nothing
                },
            },
            Modal::Errors { .. } => Action::Nothing,
            Modal::ConfirmQuit => {
                if key == Key::Char('y') || key == Key::Char('Y') {
                    self.quit = true;
                }
                Action::Nothing
            },
            Modal::LoadFailed { path, error } => match key {
                Key::Char('d') | Key::Char('D') => {
                    self.doc = ConfigDocument::new();
                    let mut s = "Started from defaults; ".to_owned();
                    s.append(path.as_str());
                    s.append(" is untouched until you save");
                    self.status = s;
                    Action::Nothing
                },
                Key::Char('q') | Key::Esc => {
                    self.quit = true;
                    Action::Nothing
                },
                _ => {
                    self.modal = Some(Modal::LoadFailed { path, error });
                    Action::Nothing
                },
            },
            Modal::ChoicePicker { title, hint, edit_label, items, cursor, target } => {
                self.modal = Some(
                    Modal::ChoicePicker { title, hint, edit_label, items, cursor, target },
                );
                Action::Nothing
            },
        }
    }
}


// ---------------------------------------------------------------------------
// The whole step, and what the caller reports back
// ---------------------------------------------------------------------------

/// A key in the form: move the cursor, go back up, or act on the
/// highlighted row.
pub open spec fn form_step(a: App, b: App, key: Key, act: Action) -> bool {
    let n = spec_rows(a).len();
    let c = a.level().cursor;
    match key {
        Key::Up => act is Nothing && cursor_moved(
            a,
            b,
            if c > 0 {
                (c - 1) as usize
            } else {
                0
            },
        ),
        Key::Down => act is Nothing && if n > 0 && c + 1 < n {
            cursor_moved(a, b, (c + 1) as usize)
        } else {
            b == a
        },
        Key::Left | Key::Esc => act is Nothing && if a.levels@.len() > 1 {
            b == App { levels: b.levels, ..a } && b.levels@ == a.levels@.drop_last()
        } else {
            b == App { pane: Pane::Sidebar, ..a }
        },
        Key::Enter | Key::Char(' ') => activated(a, b, act),
        Key::Delete | Key::Char('u') => act is Nothing && row_unset(a, b),
        Key::Char('d') => act is Nothing && if is_collection(a.level().kind) {
            row_unset(a, b)
        } else {
            b == a
        },
        Key::Char('a') => added(a, b, act),
        _ => b == a && act is Nothing,
    }
}

/// A key with no dialog or edit open: quit, save, switch panes, or a key
/// for the pane with focus.
pub open spec fn normal_step(a: App, b: App, key: Key, act: Action) -> bool {
    match key {
        Key::Char('q') => b == quit_requested(a) && act is Nothing,
        Key::Char('s') => b == a && act is ListSaveCandidates,
        Key::Tab => act is Nothing && b == App {
            pane: if a.pane == Pane::Sidebar {
                Pane::Form
            } else {
                Pane::Sidebar
            },
            ..a
        },
        _ => if a.pane == Pane::Sidebar {
            sidebar_step(a, b, key) && act is Nothing
        } else {
            form_step(a, b, key, act)
        },
    }
}

/// What one key does: Ctrl-C asks to quit; otherwise an open dialog takes
/// the key, else an open edit, else the sidebar or the form.
pub open spec fn key_step(a: App, b: App, key: Key, act: Action) -> bool {
    if key is Interrupt {
        b == quit_requested(a) && act is Nothing
    } else if a.modal is Some {
        modal_step(a, b, key, act)
    } else if a.edit is Some {
        edit_step(a, b, key, act)
    } else {
        normal_step(a, b, key, act)
    }
}

/// The channel each alias names, the later of two for one channel winning;
/// channels from `n` on are left out.
pub open spec fn alias_slots(list: Seq<(String, usize)>, n: nat) -> Seq<Option<Seq<char>>>
    decreases list.len(),
{
    if list.len() == 0 {
        Seq::new(n, |i: int| None)
    } else {
        let s = alias_slots(list.drop_last(), n);
        let (name, idx) = list.last();
        if idx < n {
            s.update(idx as int, Some(name@))
        } else {
            s
        }
    }
}

/// Whether `b` is `a` showing the device picker on the system default and
/// then `devices`; `error` says why listing failed.
pub open spec fn device_picker_shown(
    a: App,
    b: App,
    output: bool,
    devices: Seq<PickerItem>,
    target: Vec<Seg>,
    error: Option<String>,
) -> bool {
    &&& b == App { modal: b.modal, status: b.status, ..a }
    &&& b.modal matches Some(Modal::DevicePicker { output: o, items, cursor, target: t }) && o
        == output && t == target && cursor == 0 && items@.len() == devices.len() + 1
        && items@[0].name is None && items@[0].detail@ == "use the system default device"@
        && items@.skip(1) == devices
    &&& b.status@ == match error {
        Some(e) => "Could not list input devices: "@ + e@,
        None => a.status@,
    }
}

/// Whether `b` is `a` with the save dialog showing the first save location
/// (or "./mqttaudio.json" without any), cursor at its end.
pub open spec fn save_dialog_opened(a: App, b: App, candidates: Vec<String>) -> bool {
    &&& b == App { modal: b.modal, ..a }
    &&& b.modal matches Some(Modal::SaveDialog { buffer, cursor, candidates: cs }) && cs
        == candidates && buffer@ == (if candidates@.len() > 0 {
        candidates@[0]@
    } else {
        "./mqttaudio.json"@
    }) && cursor == buffer@.len()
}

/// What a successful save did: the backup it made of the previous file, if
/// there was one.
pub struct SaveOutcome {
    pub backup: Option<String>,
}

/// Whether `b` is `a` after saving to `path` went as `result` says: saved
/// (with the backup made, if any), or refused for the reasons given.
pub open spec fn save_recorded(a: App, b: App, path: String, result: Result<SaveOutcome, Vec<String>>) -> bool {
    match result {
        Ok(outcome) => b == App { dirty: false, loaded_from: Some(path), status: b.status, ..a }
            && b.status@ == "Saved "@ + path@ + match outcome.backup {
            Some(bak) => " (backup at "@ + bak@ + ") — restart mqttaudio to apply"@,
            None => " — restart mqttaudio to apply"@,
        },
        Err(errors) => b == App { modal: b.modal, ..a } && (b.modal matches Some(
            Modal::Errors { title, errors: es },
        ) && es == errors && title@ == "Cannot save: configuration is invalid"@),
    }
}

/// Whether `b` is `a` showing the output test: running with the channel
/// count started, or with the error; each channel's alias; no sweep.
pub open spec fn output_test_opened(
    a: App,
    b: App,
    device: Option<String>,
    started: Result<usize, String>,
    aliases: Seq<(String, usize)>,
    back: Option<(bool, Vec<Seg>)>,
) -> bool {
    &&& b == App { modal: b.modal, ..a }
    &&& b.modal matches Some(Modal::OutputTest(st)) && st.running == started is Ok && st.channels == (
    match started {
        Ok(n) => n,
        Err(_) => 0,
    }) && st.error == (match started {
        Ok(_) => None,
        Err(e) => Some(e),
    }) && st.cursor == 0 && st.sweep is None && st.device_label@ == (match device {
        Some(d) => d@,
        None => "(default)"@,
    }) && st.aliases@.map_values(|o: Option<String>| opt_text(o)) == alias_slots(
        aliases,
        st.channels as nat,
    ) && st.return_to_picker == back
}

/// Whether `b` is `a` showing the input meter, running or with the error.
pub open spec fn input_test_opened(
    a: App,
    b: App,
    device: Option<String>,
    started: Result<(), String>,
    back: Option<(bool, Vec<Seg>)>,
) -> bool {
    &&& b == App { modal: b.modal, ..a }
    &&& b.modal matches Some(Modal::InputTest(st)) && st.running == started is Ok && st.error == (
    match started {
        Ok(_) => None,
        Err(e) => Some(e),
    }) && st.device_label@ == (match device {
        Some(d) => d@,
        None => "(default)"@,
    }) && st.return_to_picker == back
}

/// Whether `b` is `a` with the test screen showing the error `e`.
pub open spec fn test_error_recorded(a: App, b: App, e: String) -> bool {
    match a.modal {
        Some(Modal::OutputTest(st)) => b == App {
            modal: Some(Modal::OutputTest(OutputTestState { error: Some(e), ..st })),
            ..a
        },
        Some(Modal::InputTest(st)) => b == App {
            modal: Some(Modal::InputTest(InputTestState { error: Some(e), ..st })),
            ..a
        },
        _ => b == a,
    }
}

/// Whether the sweep's next tone is due at `now_ms`: none played yet, or a
/// tone and a pause have passed since the last.
pub open spec fn sweep_due(st: OutputTestState, now_ms: u64) -> bool {
    st.running && st.sweep is Some && match st.sweep->Some_0.1 {
        None => true,
        Some(t) => now_ms >= t && now_ms - t >= crate::editor::TONE_DURATION_MS + 300,
    }
}

/// Periodic work at `now_ms`: when the sweep is due, play its next channel
/// (moving the cursor there), or end it after the last channel.
pub open spec fn ticked(a: App, b: App, now_ms: u64, act: Action) -> bool {
    match a.modal {
        Some(Modal::OutputTest(st)) => if sweep_due(st, now_ms) {
            let next = st.sweep->Some_0.0;
            if next < st.channels {
                b == App {
                    modal: Some(
                        Modal::OutputTest(
                            OutputTestState {
                                cursor: next,
                                sweep: Some(((next + 1) as usize, Some(now_ms))),
                                ..st
                            },
                        ),
                    ),
                    ..a
                } && (act matches Action::PlayTone { channel, bass } && channel == next && !bass)
            } else {
                b == App { modal: Some(Modal::OutputTest(OutputTestState { sweep: None, ..st })), ..a }
                    && act is Nothing
            }
        } else {
            b == a && act is Nothing
        },
        _ => b == a && act is Nothing,
    }
}

impl App {
    /// A key in the form (see [`form_step`]).
    fn handle_form_key(&mut self, key: Key) -> (act: Action)
        requires
            old(self).wf(),
        ensures
            final(self).wf(),
            form_step(*old(self), *final(self), key, act),
    {
        let n = self.rows().len();
        let c = self.levels[self.levels.len() - 1].cursor;
        match key {
            Key::Up => {
                self.set_cursor(if c > 0 {
                    c - 1
                } else {
                    0
                });
                Action::Nothing
            },
            Key::Down => {
                if n > 0 && c < n - 1 {
                    self.set_cursor(c + 1);
                }
                Action::Nothing
            },
            Key::Left | Key::Esc => {
                if self.levels.len() > 1 {
                    let _ = self.levels.pop();
                } else {
                    self.pane = Pane::Sidebar;
                }
                Action::Nothing
            },
            Key::Enter | Key::Char(' ') => self.activate_row(),
            Key::Delete | Key::Char('u') => {
                self.unset_row();
                Action::Nothing
            },
            Key::Char('d') => {
                if self.level_is_collection() {
                    self.unset_row();
                }
                Action::Nothing
            },
            Key::Char('a') => self.add_to_collection(),
            _ => Action::Nothing,
        }
    }

    /// Answer one key (see [`key_step`]).
    pub fn handle_key(&mut self, key: Key) -> (act: Action)
        requires
            old(self).wf(),
        ensures
            final(self).wf(),
            key_step(*old(self), *final(self), key, act),
    {
        if key == Key::Interrupt {
            self.request_quit();
            return Action::Nothing;
        }
        if self.modal.is_some() {
            return self.handle_modal_key(key);
        }
        if self.edit.is_some() {
            return self.handle_edit_key(key);
        }
        match key {
            Key::Char('q') => {
                self.request_quit();
                Action::Nothing
            },
            Key::Char('s') => Action::ListSaveCandidates,
            Key::Tab => {
                self.pane = match self.pane {
                    Pane::Sidebar => Pane::Form,
                    Pane::Form => Pane::Sidebar,
                };
                Action::Nothing
            },
            _ => match self.pane {
                Pane::Sidebar => {
                    self.handle_sidebar_key(key);
                    Action::Nothing
                },
                Pane::Form => self.handle_form_key(key),
            },
        }
    }

    /// Show the device picker with the devices listed (see
    /// [`Action::ListDevices`]): the system default first; `error` says why
    /// the listing failed, if it did.
    pub fn show_device_picker(
        &mut self,
        output: bool,
        devices: Vec<PickerItem>,
        target: Vec<Seg>,
        error: Option<String>,
    )
        requires
            old(self).wf(),
        ensures
            final(self).wf(),
            device_picker_shown(*old(self), *final(self), output, devices@, target, error),
    {
        let mut items: Vec<PickerItem> = Vec::new();
        items.push(PickerItem { name: None, detail: "use the system default device".to_owned() });
        let ghost first = items@;
        let mut devices = devices;
        let ghost ds = devices@;
        items.append(&mut devices);
        proof {
            assert(items@.skip(1) =~= ds);
        }
        match error {
            Some(e) => {
                let mut s = "Could not list input devices: ".to_owned();
                s.append(e.as_str());
                self.status = s;
            },
            None => {},
        }
        self.modal = Some(Modal::DevicePicker { output, items, cursor: 0, target });
    }

    /// Open the save dialog on the save locations (see
    /// [`Action::ListSaveCandidates`]), showing the first.
    pub fn open_save_dialog(&mut self, candidates: Vec<String>)
        requires
            old(self).wf(),
        ensures
            final(self).wf(),
            save_dialog_opened(*old(self), *final(self), candidates),
    {
        let buffer = if candidates.len() > 0 {
            candidates[0].clone()
        } else {
            "./mqttaudio.json".to_owned()
        };
        let cursor = buffer.as_str().unicode_len();
        self.modal = Some(Modal::SaveDialog { buffer, cursor, candidates });
    }

    /// Record how saving to `path` went (see [`Action::Save`]): saved, with
    /// the backup made if any, or refused with the reasons.
    pub fn save_finished(&mut self, path: String, result: Result<SaveOutcome, Vec<String>>)
        requires
            old(self).wf(),
        ensures
            final(self).wf(),
            save_recorded(*old(self), *final(self), path, result),
    {
        match result {
            Ok(outcome) => {
                let backup = outcome.backup;
                let mut s = "Saved ".to_owned();
                s.append(path.as_str());
                match &backup {
                    Some(b) => {
                        s.append(" (backup at ");
                        s.append(b.as_str());
                        s.append(") — restart mqttaudio to apply");
                    },
                    None => {
                        s.append(" — restart mqttaudio to apply");
                    },
                }
                proof {
                    match backup {
                        Some(bak) => {
                            assert(s@ =~= "Saved "@ + path@ + (" (backup at "@ + bak@
                                + ") — restart mqttaudio to apply"@));
                        },
                        None => {
                            assert(s@ =~= "Saved "@ + path@ + " — restart mqttaudio to apply"@);
                        },
                    }
                }
                self.dirty = false;
                self.loaded_from = Some(path);
                self.status = s;
            },
            Err(errors) => {
                self.modal = Some(
                    Modal::Errors { title: "Cannot save: configuration is invalid".to_owned(), errors },
                );
            },
        }
    }

    /// Open the output test screen (see [`Action::StartOutputTest`]):
    /// `started` is the test's channel count, or why it could not start;
    /// `aliases` names channels.
    pub fn output_test_started(
        &mut self,
        device: Option<String>,
        started: Result<usize, String>,
        aliases: Vec<(String, usize)>,
        back: Option<(bool, Vec<Seg>)>,
    )
        requires
            old(self).wf(),
        ensures
            final(self).wf(),
            output_test_opened(*old(self), *final(self), device, started, aliases@, back),
    {
        let (running, channels, error) = match started {
            Ok(n) => (true, n, None),
            Err(e) => (false, 0, Some(e)),
        };
        let mut slots: Vec<Option<String>> = Vec::new();
        let mut i: usize = 0;
        while i < channels
            invariant
                i <= channels,
                slots@.len() == i,
                forall|k: int| 0 <= k < i ==> (#[trigger] slots@[k]) is None,
            decreases channels - i,
        {
            slots.push(None);
            i += 1;
        }
        proof {
            assert(slots@.map_values(|o: Option<String>| opt_text(o)) =~= alias_slots(
                aliases@.take(0),
                channels as nat,
            ));
        }
        let mut j: usize = 0;
        while j < aliases.len()
            invariant
                j <= aliases@.len(),
                slots@.len() == channels,
                slots@.map_values(|o: Option<String>| opt_text(o)) == alias_slots(
                    aliases@.take(j as int),
                    channels as nat,
                ),
            decreases aliases@.len() - j,
        {
            let idx = aliases[j].1;
            proof {
                assert(aliases@.take(j + 1).drop_last() =~= aliases@.take(j as int));
            }
            if idx < channels {
                let name = aliases[j].0.clone();
                slots.set(idx, Some(name));
            }
            proof {
                assert(slots@.map_values(|o: Option<String>| opt_text(o)) =~= alias_slots(
                    aliases@.take(j + 1),
                    channels as nat,
                ));
            }
            j += 1;
        }
        proof {
            assert(aliases@.take(aliases@.len() as int) =~= aliases@);
        }
        let device_label = match device {
            Some(d) => d,
            None => "(default)".to_owned(),
        };
        self.modal = Some(
            Modal::OutputTest(
                OutputTestState {
                    running,
                    channels,
                    error,
                    cursor: 0,
                    sweep: None,
                    device_label,
                    aliases: slots,
                    return_to_picker: back,
                },
            ),
        );
    }

    /// Open the input meter screen (see [`Action::StartInputTest`]).
    pub fn input_test_started(
        &mut self,
        device: Option<String>,
        started: Result<(), String>,
        back: Option<(bool, Vec<Seg>)>,
    )
        requires
            old(self).wf(),
        ensures
            final(self).wf(),
            input_test_opened(*old(self), *final(self), device, started, back),
    {
        let (running, error) = match started {
            Ok(_) => (true, None),
            Err(e) => (false, Some(e)),
        };
        let device_label = match device {
            Some(d) => d,
            None => "(default)".to_owned(),
        };
        self.modal = Some(
            Modal::InputTest(InputTestState { running, error, device_label, return_to_picker: back }),
        );
    }

    /// Record an error from the running test.
    pub fn test_error(&mut self, e: String)
        requires
            old(self).wf(),
        ensures
            final(self).wf(),
            test_error_recorded(*old(self), *final(self), e),
    {
        match &self.modal {
            Some(Modal::OutputTest(_)) | Some(Modal::InputTest(_)) => {},
            _ => {
                return;
            },
        }
        let m = self.modal.take().unwrap();
        match m {
            Modal::OutputTest(st) => {
                self.modal = Some(Modal::OutputTest(OutputTestState { error: Some(e), ..st }));
            },
            Modal::InputTest(st) => {
                self.modal = Some(Modal::InputTest(InputTestState { error: Some(e), ..st }));
            },
            other => {
                self.modal = Some(other);
            },
        }
    }

    /// Periodic work at time `now_ms`: the channel sweep plays the next
    /// channel once a tone and a pause have passed since the last one, and
    /// stops after the last channel.
    pub fn tick(&mut self, now_ms: u64) -> (act: Action)
        requires
            old(self).wf(),
        ensures
            final(self).wf(),
            ticked(*old(self), *final(self), now_ms, act),
    {
        let due = match &self.modal {
            Some(Modal::OutputTest(st)) => st.running && match st.sweep {
                Some((_, None)) => true,
                Some((_, Some(t))) => now_ms >= t && now_ms - t >= sweep_interval(),
                None => false,
            },
            _ => false,
        };
        if !due {
            return Action::Nothing;
        }
        let m = self.modal.take().unwrap();
        match m {
            Modal::OutputTest(st) => {
                let next = match st.sweep {
                    Some((n, _)) => n,
                    None => 0,
                };
                if next < st.channels {
                    self.modal = Some(
                        Modal::OutputTest(
                            OutputTestState { cursor: next, sweep: Some((next + 1, Some(now_ms))), ..st },
                        ),
                    );
                    Action::PlayTone { channel: next, bass: false }
                } else {
                    self.modal = Some(Modal::OutputTest(OutputTestState { sweep: None, ..st }));
                    Action::Nothing
                }
            },
            other => {
                self.modal = Some(other);
                Action::Nothing
            },
        }
    }
}


/// Keys that only move around: the arrows, Home, End, Tab, Esc and Ctrl-C.
pub open spec fn is_navigation(key: Key) -> bool {
    key is Up || key is Down || key is Left || key is Right || key is Home || key is End
        || key is Tab || key is Esc || key is Interrupt
}

/// Moving around never edits: after a navigation key the document, and
/// whether it has unsaved changes, are as they were.
pub proof fn law_navigation_keeps_document(a: App, b: App, key: Key, act: Action)
    requires
        a.wf(),
        key_step(a, b, key, act),
        is_navigation(key),
    ensures
        b.doc == a.doc,
        b.dirty == a.dirty,
{
}


/// Every change to the document is marked as unsaved: a key that changes the
/// document leaves the editor dirty. (Starting over from the defaults after
/// a file failed to load replaces the document without marking it.)
pub proof fn law_changes_are_marked(a: App, b: App, key: Key, act: Action)
    requires
        a.wf(),
        key_step(a, b, key, act),
        b.doc@ != a.doc@,
        !(a.modal matches Some(Modal::LoadFailed { .. })),
    ensures
        b.dirty,
{
    if a.modal is None && a.edit is Some && key is Enter {
        let e = a.edit->Some_0;
        if needs_outside(e.target) is None {
            let (o, changed) = choose|o: CommitOutcome, changed: bool|
                commit_spec(a.doc@, b.doc@, e.target, e.line.buffer@, None, o, changed) && b.doc.wf()
                    && outcome_applied(a, b, e, o, changed);
            assert(changed);
        }
    }
    if a.modal matches Some(Modal::ChoicePicker { .. }) && key is Enter {
        if let Some(Modal::ChoicePicker { title, hint, edit_label, items, cursor, target }) = a.modal {
            if cursor < items@.len() && !items@[cursor as int].custom && !(target is MapKey) {
                let item = items@[cursor as int];
                let pre = App {
                    edit: Some(
                        EditState {
                            label: edit_label,
                            line: LineEdit {
                                buffer: item.insert_text,
                                cursor: item.insert_text@.len() as usize,
                            },
                            target,
                            error: None,
                        },
                    ),
                    modal: None,
                    ..a
                };
                let e = pre.edit->Some_0;
                if needs_outside(e.target) is None {
                    let (o, changed) = choose|o: CommitOutcome, changed: bool|
                        commit_spec(pre.doc@, b.doc@, e.target, e.line.buffer@, None, o, changed)
                            && b.doc.wf() && outcome_applied(pre, b, e, o, changed);
                    assert(changed);
                }
            }
        }
    }
}

} // verus!
