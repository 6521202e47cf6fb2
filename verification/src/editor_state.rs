//! The configuration editor's state and its answer to each key: sections,
//! nested forms and collections, edits, pickers and dialogs. What needs the
//! outside world (listing devices, playing test tones, writing the file) is
//! handed back as an action for the caller to perform.

use crate::document::{
    jv, lemma_jv_array, lemma_jv_object, member, member_of, spec_get, text_of,
    ConfigDocument, Json, JsonNumber, JsonV,
};
use crate::editor::{
    keys_v, path_v, section_intro, section_title, LineEdit, Pane, PickerItem, Section, Seg, SegV,
};
use crate::fields::{EditTarget, FieldKind, StructListKind};
use crate::registry::{FieldSpec, SubFieldSpec, Tables};
use crate::text::{decimal, insert_sorted, push_decimal, string_views, strictly_sorted};
use vstd::prelude::*;

verus! {

// ---------------------------------------------------------------------------
// Voices named in the document
// ---------------------------------------------------------------------------

/// The non-empty texts among the values, in order.
pub open spec fn nonempty_texts(items: Seq<JsonV>) -> Seq<Seq<char>>
    decreases items.len(),
{
    if items.len() == 0 {
        Seq::empty()
    } else {
        let front = nonempty_texts(items.drop_last());
        match items.last() {
            JsonV::Str(s) => if s.len() > 0 {
                front.push(s)
            } else {
                front
            },
            _ => front,
        }
    }
}

/// The voice each input plays under: its `voice_id` when that is a non-empty
/// text, none when it is empty, and "mic" when it has no text `voice_id`.
pub open spec fn input_voices(items: Seq<JsonV>) -> Seq<Seq<char>>
    decreases items.len(),
{
    if items.len() == 0 {
        Seq::empty()
    } else {
        let front = input_voices(items.drop_last());
        match text_of(member(items.last(), "voice_id"@)) {
            Some(v) => if v.len() > 0 {
                front.push(v)
            } else {
                front
            },
            None => front.push("mic"@),
        }
    }
}

/// The voices of one ducking rule: its non-empty primary voice, then its
/// non-empty ducked voices.
pub open spec fn rule_voices(rule: JsonV) -> Seq<Seq<char>> {
    let primary = match text_of(member(rule, "primary_voice"@)) {
        Some(p) => if p.len() > 0 {
            seq![p]
        } else {
            Seq::empty()
        },
        None => Seq::empty(),
    };
    let ducked = match member(rule, "ducked_voices"@) {
        Some(JsonV::Array(ds)) => nonempty_texts(ds),
        _ => Seq::empty(),
    };
    primary + ducked
}

/// The voices of a list of ducking rules, rule by rule.
pub open spec fn rules_voices(rules: Seq<JsonV>) -> Seq<Seq<char>>
    decreases rules.len(),
{
    if rules.len() == 0 {
        Seq::empty()
    } else {
        rules_voices(rules.drop_last()) + rule_voices(rules.last())
    }
}

/// Every voice the document names: the inputs' voices, then those of the
/// ducking rules.
pub open spec fn voice_mentions(doc: JsonV) -> Seq<Seq<char>> {
    let inputs = match member(doc, "inputs"@) {
        Some(JsonV::Array(items)) => input_voices(items),
        _ => Seq::empty(),
    };
    let rules = match member(doc, "ducking_rules"@) {
        Some(JsonV::Array(rs)) => rules_voices(rs),
        _ => Seq::empty(),
    };
    inputs + rules
}

/// Add `v` to the sorted texts, whose set is that of `seen`.
fn add_text(ids: &mut Vec<String>, v: &str, Ghost(seen): Ghost<Seq<Seq<char>>>)
    requires
        strictly_sorted(string_views(old(ids)@)),
        string_views(old(ids)@).to_set() == seen.to_set(),
    ensures
        strictly_sorted(string_views(final(ids)@)),
        string_views(final(ids)@).to_set() == seen.push(v@).to_set(),
{
    insert_sorted(ids, v.to_owned());
    proof {
        seen.lemma_push_to_set_commute(v@);
    }
}

/// Every voice name the document mentions, sorted, each once: the inputs'
/// `voice_id`s (an input without one plays under "mic") and the voices of
/// the ducking rules.
pub fn known_voice_ids(doc: &ConfigDocument) -> (r: Vec<String>)
    ensures
        strictly_sorted(string_views(r@)),
        string_views(r@).to_set() == voice_mentions(doc@).to_set(),
{
    let mut ids: Vec<String> = Vec::new();
    let ghost mut seen: Seq<Seq<char>> = Seq::empty();
    proof {
        assert(string_views(ids@) =~= Seq::<Seq<char>>::empty());
        assert(string_views(ids@).to_set() =~= seen.to_set());
    }
    let root = doc.root();
    match member_of(root, "inputs") {
        Some(Json::Array(inputs)) => {
            proof {
                lemma_jv_array(*inputs);
            }
            let ghost iv = crate::document::item_views(inputs@);
            let mut i: usize = 0;
            proof {
                assert(iv.take(0) =~= Seq::<JsonV>::empty());
            }
            while i < inputs.len()
                invariant
                    iv == crate::document::item_views(inputs@),
                    i <= inputs@.len(),
                    seen == input_voices(iv.take(i as int)),
                    strictly_sorted(string_views(ids@)),
                    string_views(ids@).to_set() == seen.to_set(),
                decreases inputs@.len() - i,
            {
                proof {
                    assert(iv.take(i + 1).drop_last() =~= iv.take(i as int));
                    assert(iv.take(i + 1).last() == jv(inputs@[i as int]));
                }
                match member_of(&inputs[i], "voice_id") {
                    Some(Json::Str(v)) => {
                        if v.as_str().unicode_len() > 0 {
                            add_text(&mut ids, v.as_str(), Ghost(seen));
                            proof {
                                seen = seen.push(v@);
                            }
                        }
                    },
                    _ => {
                        add_text(&mut ids, "mic", Ghost(seen));
                        proof {
                            seen = seen.push("mic"@);
                        }
                    },
                }
                i += 1;
            }
            proof {
                assert(iv.take(inputs@.len() as int) =~= iv);
            }
        },
        _ => {},
    }
    let ghost from_inputs = seen;
    proof {
        assert(from_inputs == match member(doc@, "inputs"@) {
            Some(JsonV::Array(items)) => input_voices(items),
            _ => Seq::empty(),
        });
        assert(seen =~= from_inputs + Seq::empty());
    }
    match member_of(root, "ducking_rules") {
        Some(Json::Array(rules)) => {
            proof {
                lemma_jv_array(*rules);
            }
            let ghost rv = crate::document::item_views(rules@);
            let mut j: usize = 0;
            proof {
                assert(rv.take(0) =~= Seq::<JsonV>::empty());
                assert(seen =~= from_inputs + rules_voices(rv.take(0)));
            }
            while j < rules.len()
                invariant
                    rv == crate::document::item_views(rules@),
                    j <= rules@.len(),
                    seen == from_inputs + rules_voices(rv.take(j as int)),
                    strictly_sorted(string_views(ids@)),
                    string_views(ids@).to_set() == seen.to_set(),
                decreases rules@.len() - j,
            {
                let rule = &rules[j];
                let ghost before = seen;
                proof {
                    assert(rv.take(j + 1).drop_last() =~= rv.take(j as int));
                    assert(rv.take(j + 1).last() == jv(*rule));
                }
                let ghost primary = match text_of(member(jv(*rule), "primary_voice"@)) {
                    Some(p) => if p.len() > 0 {
                        seq![p]
                    } else {
                        Seq::empty()
                    },
                    None => Seq::empty(),
                };
                match member_of(rule, "primary_voice") {
                    Some(Json::Str(p)) => {
                        if p.as_str().unicode_len() > 0 {
                            add_text(&mut ids, p.as_str(), Ghost(seen));
                            proof {
                                seen = seen.push(p@);
                                assert(seen =~= before + primary);
                            }
                        } else {
                            proof {
                                assert(seen =~= before + primary);
                            }
                        }
                    },
                    _ => {
                        proof {
                            assert(seen =~= before + primary);
                        }
                    },
                }
                match member_of(rule, "ducked_voices") {
                    Some(Json::Array(ducked)) => {
                        proof {
                            lemma_jv_array(*ducked);
                        }
                        let ghost dv = crate::document::item_views(ducked@);
                        let mut k: usize = 0;
                        proof {
                            assert(dv.take(0) =~= Seq::<JsonV>::empty());
                            assert(seen =~= before + primary + nonempty_texts(dv.take(0)));
                        }
                        while k < ducked.len()
                            invariant
                                dv == crate::document::item_views(ducked@),
                                k <= ducked@.len(),
                                seen == before + primary + nonempty_texts(dv.take(k as int)),
                                strictly_sorted(string_views(ids@)),
                                string_views(ids@).to_set() == seen.to_set(),
                            decreases ducked@.len() - k,
                        {
                            proof {
                                assert(dv.take(k + 1).drop_last() =~= dv.take(k as int));
                                assert(dv.take(k + 1).last() == jv(ducked@[k as int]));
                            }
                            match &ducked[k] {
                                Json::Str(d) => {
                                    if d.as_str().unicode_len() > 0 {
                                        add_text(&mut ids, d.as_str(), Ghost(seen));
                                        proof {
                                            seen = seen.push(d@);
                                        }
                                    }
                                },
                                _ => {},
                            }
                            proof {
                                assert(seen =~= before + primary + nonempty_texts(
                                    dv.take(k + 1),
                                ));
                            }
                            k += 1;
                        }
                        proof {
                            assert(dv.take(ducked@.len() as int) =~= dv);
                        }
                    },
                    _ => {
                        proof {
                            assert(seen =~= before + primary + Seq::empty());
                        }
                    },
                }
                proof {
                    assert(seen =~= from_inputs + rules_voices(rv.take(j + 1)));
                }
                j += 1;
            }
            proof {
                assert(rv.take(rules@.len() as int) =~= rv);
            }
        },
        _ => {},
    }
    proof {
        assert(seen =~= voice_mentions(doc@));
    }
    ids
}


// ---------------------------------------------------------------------------
// The editor's state
// ---------------------------------------------------------------------------

/// What a level of the editing stack shows.
#[derive(Clone, Copy)]
pub enum LevelKind {
    /// A top-level section's form.
    Section(Section),
    /// The fields of one structure of a list (a ducking rule, an input, a route).
    SubForm(StructListKind),
    /// A list of single values: texts, channel references or voice names.
    ScalarList { elem: FieldKind },
    /// A map (an object of named entries) whose values are of `value_kind`.
    Entries { value_kind: FieldKind },
    /// One macro's parameters.
    MacroForm,
    /// A list of structures.
    StructList(StructListKind),
}

/// One level of the editing stack: a form or collection at a path.
pub struct Level {
    pub title: String,
    pub path: Vec<Seg>,
    pub kind: LevelKind,
    pub cursor: usize,
    /// What the level edits; shown above its rows.
    pub intro: String,
}

/// One selectable row of the current level. `value` is what the row shows
/// (the value set, else the default); `as_json` says it is shown as JSON text.
pub struct Row {
    pub label: String,
    pub path: Vec<Seg>,
    pub kind: FieldKind,
    pub help: String,
    pub value: Json,
    pub is_set: bool,
    pub as_json: bool,
}

/// The mathematical form of a row.
pub struct RowV {
    pub label: Seq<char>,
    pub path: Seq<SegV>,
    pub kind: FieldKind,
    pub help: Seq<char>,
    pub value: JsonV,
    pub is_set: bool,
    pub as_json: bool,
}

/// The form of a row.
pub open spec fn row_v(r: Row) -> RowV {
    RowV {
        label: r.label@,
        path: path_v(r.path@),
        kind: r.kind,
        help: r.help@,
        value: jv(r.value),
        is_set: r.is_set,
        as_json: r.as_json,
    }
}

/// The forms of rows.
pub open spec fn rows_v(rs: Seq<Row>) -> Seq<RowV> {
    rs.map_values(|r: Row| row_v(r))
}

/// An edit of one line of text in progress.
pub struct EditState {
    pub label: String,
    pub line: LineEdit,
    pub target: EditTarget,
    pub error: Option<String>,
}

/// One entry of a choice picker.
pub struct Choice {
    /// Text committed, as if typed, when the entry is chosen.
    pub insert_text: String,
    pub label: String,
    pub detail: String,
    /// Choosing it opens a free-text edit instead.
    pub custom: bool,
    /// For a key picker: the kind of value this key takes.
    pub value_kind: Option<FieldKind>,
}

/// The output test screen. The test session itself is held by the caller;
/// `running` says whether one is open and `channels` how many it plays to.
pub struct OutputTestState {
    pub running: bool,
    pub channels: usize,
    pub error: Option<String>,
    pub cursor: usize,
    /// The channel sweep: the next channel and when the last tone played,
    /// in milliseconds (none: the next tone is due at once).
    pub sweep: Option<(usize, Option<u64>)>,
    pub device_label: String,
    /// The alias of each channel, if any.
    pub aliases: Vec<Option<String>>,
    /// The device picker to return to when the screen closes.
    pub return_to_picker: Option<(bool, Vec<Seg>)>,
}

/// The input level-meter screen; the session is held by the caller.
pub struct InputTestState {
    pub running: bool,
    pub error: Option<String>,
    pub device_label: String,
    pub return_to_picker: Option<(bool, Vec<Seg>)>,
}

/// A dialog over the form.
pub enum Modal {
    DevicePicker { output: bool, items: Vec<PickerItem>, cursor: usize, target: Vec<Seg> },
    /// Values to pick from; a pick commits as if typed.
    ChoicePicker {
        title: String,
        hint: String,
        edit_label: String,
        items: Vec<Choice>,
        cursor: usize,
        target: EditTarget,
    },
    OutputTest(OutputTestState),
    InputTest(InputTestState),
    SaveDialog { buffer: String, cursor: usize, candidates: Vec<String> },
    Errors { title: String, errors: Vec<String> },
    ConfirmQuit,
    LoadFailed { path: String, error: String },
}

/// The whole editor's state. `defaults` is the configuration's defaults as
/// JSON and `input_defaults` those of one live input; they are shown for
/// settings not set.
pub struct App {
    pub doc: ConfigDocument,
    pub defaults: Json,
    pub input_defaults: Json,
    pub tables: Tables,
    pub loaded_from: Option<String>,
    pub dirty: bool,
    pub section_idx: usize,
    pub pane: Pane,
    pub levels: Vec<Level>,
    pub edit: Option<EditState>,
    pub modal: Option<Modal>,
    pub status: String,
    pub quit: bool,
}

/// An edit in progress has its cursor within its text.
pub open spec fn edit_ok(e: Option<EditState>) -> bool {
    match e {
        Some(x) => x.line.wf(),
        None => true,
    }
}

/// A device picker's cursor is on an item; a save dialog's cursor is
/// within its text.
pub open spec fn modal_ok(m: Option<Modal>) -> bool {
    match m {
        Some(Modal::DevicePicker { items, cursor, .. }) => cursor < items@.len(),
        Some(Modal::SaveDialog { buffer, cursor, .. }) => cursor <= buffer@.len(),
        _ => true,
    }
}

/// The sections in sidebar order.
pub open spec fn sections() -> Seq<Section> {
    seq![
        Section::Mqtt,
        Section::Audio,
        Section::Cache,
        Section::Security,
        Section::Logging,
        Section::Http,
        Section::Ducking,
        Section::BassManagement,
        Section::Inputs,
        Section::Advanced,
        Section::Macros,
    ]
}

/// Whether a level is the form of section `s` at its top.
pub open spec fn is_section_level(l: Level, s: Section) -> bool {
    l.title@ == section_title(s) && l.path@.len() == 0 && l.kind == LevelKind::Section(s)
        && l.cursor == 0 && l.intro@ == section_intro(s)
}

/// The titles of the levels joined by " > ".
pub open spec fn breadcrumb_of(ls: Seq<Level>) -> Seq<char>
    decreases ls.len(),
{
    if ls.len() == 0 {
        Seq::empty()
    } else if ls.len() == 1 {
        ls[0].title@
    } else {
        breadcrumb_of(ls.drop_last()) + " > "@ + ls.last().title@
    }
}

/// Whether a level shows a collection one can add to and remove from.
pub open spec fn is_collection(k: LevelKind) -> bool {
    k is ScalarList || k is Entries || k is MacroForm || k is StructList
}

impl App {
    /// Levels are never empty, the section exists and the document is an object.
    pub open spec fn wf(&self) -> bool {
        &&& self.levels@.len() >= 1
        &&& self.section_idx < 11
        &&& self.doc.wf()
        &&& edit_ok(self.edit)
        &&& modal_ok(self.modal)
    }

    /// The level shown.
    pub open spec fn level(&self) -> Level {
        self.levels@.last()
    }

    /// An editor on `doc`, loaded from `loaded_from` if anything, at the first
    /// section with the sidebar focused.
    pub fn new(
        doc: ConfigDocument,
        defaults: Json,
        input_defaults: Json,
        loaded_from: Option<String>,
    ) -> (a: Self)
        requires
            doc.wf(),
        ensures
            a.wf(),
            a.doc@ == doc@,
            jv(a.defaults) == jv(defaults),
            jv(a.input_defaults) == jv(input_defaults),
            a.loaded_from == loaded_from,
            !a.dirty,
            a.section_idx == 0,
            a.pane == Pane::Sidebar,
            a.levels@.len() == 1,
            is_section_level(a.levels@[0], Section::Mqtt),
            a.edit is None,
            a.modal is None,
            !a.quit,
            a.status@ == match loaded_from {
                Some(p) => "Editing "@ + p@,
                None => "New configuration (no file found)"@,
            },
            a.tables.fields@.len() == 54,
    {
        let status = match &loaded_from {
            Some(p) => {
                let mut s = "Editing ".to_owned();
                s.append(p.as_str());
                s
            },
            None => "New configuration (no file found)".to_owned(),
        };
        let first = Section::Mqtt;
        let level = Level {
            title: first.title().to_owned(),
            path: Vec::new(),
            kind: LevelKind::Section(first),
            cursor: 0,
            intro: first.intro().to_owned(),
        };
        App {
            doc,
            defaults,
            input_defaults,
            tables: Tables::new(),
            loaded_from,
            dirty: false,
            section_idx: 0,
            pane: Pane::Sidebar,
            levels: vec![level],
            edit: None,
            modal: None,
            status,
            quit: false,
        }
    }

    /// The section chosen in the sidebar.
    pub fn current_section(&self) -> (s: Section)
        requires
            self.wf(),
        ensures
            s == sections()[self.section_idx as int],
    {
        let all = Section::all();
        all[self.section_idx]
    }

    /// The titles of the levels, joined by " > ".
    pub fn breadcrumb(&self) -> (r: String)
        ensures
            r@ == breadcrumb_of(self.levels@),
    {
        let mut out = String::new();
        let mut i: usize = 0;
        proof {
            assert(self.levels@.take(0) =~= Seq::<Level>::empty());
        }
        while i < self.levels.len()
            invariant
                i <= self.levels@.len(),
                out@ == breadcrumb_of(self.levels@.take(i as int)),
            decreases self.levels@.len() - i,
        {
            proof {
                assert(self.levels@.take(i + 1).drop_last() =~= self.levels@.take(i as int));
            }
            if i > 0 {
                out.append(" > ");
            }
            out.append(self.levels[i].title.as_str());
            i += 1;
        }
        proof {
            assert(self.levels@.take(self.levels@.len() as int) =~= self.levels@);
        }
        out
    }

    /// Whether the level shown is a collection.
    pub fn level_is_collection(&self) -> (r: bool)
        requires
            self.wf(),
        ensures
            r == is_collection(self.level().kind),
    {
        let level = &self.levels[self.levels.len() - 1];
        match level.kind {
            LevelKind::ScalarList { .. } | LevelKind::Entries { .. } | LevelKind::MacroForm
            | LevelKind::StructList(_) => true,
            _ => false,
        }
    }
}


// ---------------------------------------------------------------------------
// The rows of a level
// ---------------------------------------------------------------------------

/// The value at a path of keys in the defaults: null where a key is missing
/// or a list position is asked for.
pub open spec fn default_at(d: JsonV, path: Seq<SegV>) -> JsonV
    decreases path.len(),
{
    if path.len() == 0 {
        d
    } else {
        match path[0] {
            SegV::Key(k) => match member(d, k) {
                Some(c) => default_at(c, path.drop_first()),
                None => JsonV::Null,
            },
            SegV::Idx(_) => JsonV::Null,
        }
    }
}

/// The value shown at `path` (the one set, else the default) and whether it
/// is set.
pub open spec fn effective(doc: JsonV, defaults: JsonV, path: Seq<SegV>) -> (JsonV, bool) {
    match spec_get(doc, path) {
        Some(v) => (v, true),
        None => (default_at(defaults, path), false),
    }
}

/// The parameters a memory budget mode takes: key, kind, help, and the value
/// shown when it is not set.
pub open spec fn budget_params(mode: Seq<char>) -> Seq<(Seq<char>, FieldKind, Seq<char>, JsonV)> {
    if mode == "auto"@ {
        seq![
            (
                "fraction"@,
                FieldKind::Float { min: 0x0, max: 0x3ff0000000000000 },
                "Fraction of available RAM to target. Default 0.4."@,
                JsonV::Number(JsonNumber::Float(0x3fd999999999999a)),
            ),
            (
                "floor_mb"@,
                FieldKind::UInt { min: 1, max: 4294967295 },
                "Minimum cap in MiB, so small assets still cache on a tiny box. Default 128."@,
                JsonV::Number(JsonNumber::Unsigned(128)),
            ),
            (
                "ceiling_mb"@,
                FieldKind::UInt { min: 1, max: 4294967295 },
                "Maximum cap in MiB, so the daemon never camps all RAM. Default 1024."@,
                JsonV::Number(JsonNumber::Unsigned(1024)),
            ),
        ]
    } else if mode == "explicit"@ {
        seq![
            (
                "mb"@,
                FieldKind::UInt { min: 1, max: 4294967295 },
                "Fixed memory cache cap in MiB."@,
                JsonV::Null,
            ),
        ]
    } else {
        Seq::empty()
    }
}

/// The rows of a memory budget's parameters, shown under the budget: those
/// of its mode when it is set as an object.
pub open spec fn budget_rows(doc: JsonV, base: Seq<SegV>) -> Seq<RowV> {
    match spec_get(doc, base) {
        Some(JsonV::Object(es)) => {
            let b = JsonV::Object(es);
            let mode = match text_of(member(b, "mode"@)) {
                Some(m) => m,
                None => Seq::empty(),
            };
            let ps = budget_params(mode);
            Seq::new(
                ps.len(),
                |i: int|
                    {
                        let p = ps[i];
                        let (v, set) = match member(b, p.0) {
                            Some(v) => (v, true),
                            None => (p.3, false),
                        };
                        RowV {
                            label: "memory_budget."@ + p.0,
                            path: base.push(SegV::Key(p.0)),
                            kind: p.1,
                            help: p.2,
                            value: v,
                            is_set: set,
                            as_json: false,
                        }
                    },
            )
        },
        _ => Seq::empty(),
    }
}

/// The rows of section `s`: one per setting of the section, in order, each
/// memory budget followed by its parameters.
pub open spec fn field_rows(fs: Seq<FieldSpec>, s: Section, doc: JsonV, defaults: JsonV) -> Seq<RowV>
    decreases fs.len(),
{
    if fs.len() == 0 {
        Seq::empty()
    } else {
        let front = field_rows(fs.drop_last(), s, doc, defaults);
        let f = fs.last();
        if f.section != s {
            front
        } else {
            let p = keys_v(f.path@);
            let (v, set) = effective(doc, defaults, p);
            let row = RowV {
                label: f.label@,
                path: p,
                kind: f.kind,
                help: f.help@,
                value: v,
                is_set: set,
                as_json: false,
            };
            front.push(row) + if f.kind is MemoryBudget {
                budget_rows(doc, p)
            } else {
                Seq::empty()
            }
        }
    }
}

/// The rows of one structure's fields at `base`; unset fields show the
/// structure's default for them.
pub open spec fn sub_rows(
    specs: Seq<SubFieldSpec>,
    doc: JsonV,
    base: Seq<SegV>,
    item_defaults: JsonV,
) -> Seq<RowV> {
    Seq::new(
        specs.len(),
        |i: int|
            {
                let sp = specs[i];
                let p = base.push(SegV::Key(sp.key@));
                let (v, set) = match spec_get(doc, p) {
                    Some(v) => (v, true),
                    None => (
                        match member(item_defaults, sp.key@) {
                            Some(d) => d,
                            None => JsonV::Null,
                        },
                        false,
                    ),
                };
                RowV {
                    label: sp.label@,
                    path: p,
                    kind: sp.kind,
                    help: sp.help@,
                    value: v,
                    is_set: set,
                    as_json: false,
                }
            },
    )
}

/// The elements of the list at `path`; none when there is no list.
pub open spec fn list_items(doc: JsonV, path: Seq<SegV>) -> Seq<JsonV> {
    match spec_get(doc, path) {
        Some(JsonV::Array(items)) => items,
        _ => Seq::empty(),
    }
}

/// The help shown for an element of a list of single values.
pub open spec fn scalar_item_help(elem: FieldKind) -> Seq<char> {
    match elem {
        FieldKind::ChannelRef => "A channel number (0-indexed) or an alias defined in audio.channel_aliases."@,
        FieldKind::VoiceRef => "A voice name, as used by a Play command's \"voice\" parameter or an input's voice_id."@,
        _ => "One entry in this list."@,
    }
}

/// The help shown for an entry of a map, by the kind of its values.
pub open spec fn map_item_help(value_kind: FieldKind) -> Seq<char> {
    match value_kind {
        FieldKind::UInt { .. } => "The channel number (0-indexed) this alias refers to."@,
        FieldKind::Float { .. } => "Calibration gain for this channel (0.0 - 1.0)."@,
        FieldKind::MapToJson => "A macro: command parameters merged into commands that reference it by name."@,
        _ => "One entry in this map."@,
    }
}

/// The rows of a list of single values: numbered from 1.
pub open spec fn scalar_rows(items: Seq<JsonV>, base: Seq<SegV>, elem: FieldKind) -> Seq<RowV> {
    Seq::new(
        items.len(),
        |i: int|
            RowV {
                label: decimal((i + 1) as nat),
                path: base.push(SegV::Idx(i as usize)),
                kind: elem,
                help: scalar_item_help(elem),
                value: items[i],
                is_set: true,
                as_json: false,
            },
    )
}

/// The word for one structure of a list.
pub open spec fn item_noun(k: StructListKind) -> Seq<char> {
    match k {
        StructListKind::DuckingRules => "rule"@,
        StructListKind::Inputs => "input"@,
        StructListKind::Routes => "route"@,
    }
}

/// The rows of a list of structures: "rule 1", "rule 2", ...
pub open spec fn struct_rows(items: Seq<JsonV>, base: Seq<SegV>, k: StructListKind) -> Seq<RowV> {
    Seq::new(
        items.len(),
        |i: int|
            RowV {
                label: item_noun(k) + " "@ + decimal((i + 1) as nat),
                path: base.push(SegV::Idx(i as usize)),
                kind: FieldKind::StructList(k),
                help: "One "@ + item_noun(k) + " in this list. Enter opens its fields."@,
                value: items[i],
                is_set: true,
                as_json: false,
            },
    )
}

/// The keys of object entries.
pub open spec fn entry_keys(es: Seq<(Seq<char>, JsonV)>) -> Seq<Seq<char>> {
    es.map_values(|e: (Seq<char>, JsonV)| e.0)
}

/// The row of the entry `k` of the object `obj` at `base`.
pub open spec fn keyed_row(obj: JsonV, base: Seq<SegV>, k: Seq<char>, kind: FieldKind, help: Seq<char>) -> RowV {
    RowV {
        label: k,
        path: base.push(SegV::Key(k)),
        kind,
        help,
        value: match member(obj, k) {
            Some(v) => v,
            None => JsonV::Null,
        },
        is_set: true,
        as_json: kind is MapToJson,
    }
}

/// The position of the first known macro parameter named `k` at or after
/// `i`, or -1.
pub open spec fn param_index(ps: Seq<SubFieldSpec>, k: Seq<char>, i: int) -> int
    decreases ps.len() - i,
{
    if i < 0 || i >= ps.len() {
        -1
    } else if ps[i].key@ == k {
        i
    } else {
        param_index(ps, k, i + 1)
    }
}

/// The kind and help of a macro parameter: those of the known parameter of
/// that name, else raw JSON.
pub open spec fn macro_param_kind(ps: Seq<SubFieldSpec>, k: Seq<char>) -> (FieldKind, Seq<char>) {
    let i = param_index(ps, k, 0);
    if i >= 0 {
        (ps[i].kind, ps[i].help@)
    } else {
        (FieldKind::MapToJson, "Custom parameter; the value is raw JSON."@)
    }
}

/// The kind and help of the entry `k` of a map level: the map's value kind,
/// or, in a macro, that of the known parameter `k`.
pub open spec fn entry_kind(lk: LevelKind, params: Seq<SubFieldSpec>, k: Seq<char>) -> (FieldKind, Seq<char>) {
    match lk {
        LevelKind::Entries { value_kind } => (value_kind, map_item_help(value_kind)),
        _ => macro_param_kind(params, k),
    }
}

/// The keys of object entries in increasing order, each once.
pub open spec fn sorted_keys(es: Seq<(Seq<char>, JsonV)>) -> Seq<Seq<char>> {
    choose|ks: Seq<Seq<char>>| strictly_sorted(ks) && ks.to_set() == entry_keys(es).to_set()
}

/// The rows of the object at `base`: one per key, sorted by key, each with
/// the kind and help [`entry_kind`] gives its key. Without an object there
/// are none.
pub open spec fn keyed_rows_spec(doc: JsonV, base: Seq<SegV>, lk: LevelKind, params: Seq<SubFieldSpec>) -> Seq<RowV> {
    match spec_get(doc, base) {
        Some(JsonV::Object(es)) => {
            let ks = sorted_keys(es);
            Seq::new(
                ks.len(),
                |i: int|
                    keyed_row(
                        JsonV::Object(es),
                        base,
                        ks[i],
                        entry_kind(lk, params, ks[i]).0,
                        entry_kind(lk, params, ks[i]).1,
                    ),
            )
        },
        _ => Seq::empty(),
    }
}

/// The defaults shown for the unset fields of a structure of a list.
pub open spec fn item_defaults(a: App, k: StructListKind) -> JsonV {
    match k {
        StructListKind::Inputs => jv(a.input_defaults),
        _ => JsonV::Null,
    }
}

/// The rows of the level shown.
pub open spec fn spec_rows(a: App) -> Seq<RowV> {
    let l = a.level();
    let base = path_v(l.path@);
    let doc = a.doc@;
    match l.kind {
        LevelKind::Section(s) => field_rows(a.tables.fields@, s, doc, jv(a.defaults)),
        LevelKind::SubForm(k) => sub_rows(a.tables.sub(k), doc, base, item_defaults(a, k)),
        LevelKind::ScalarList { elem } => scalar_rows(list_items(doc, base), base, elem),
        LevelKind::Entries { .. } | LevelKind::MacroForm => keyed_rows_spec(
            doc,
            base,
            l.kind,
            a.tables.macro_params@,
        ),
        LevelKind::StructList(k) => struct_rows(list_items(doc, base), base, k),
    }
}

/// The value at a path of keys in the defaults (see [`default_at`]).
pub(crate) fn default_at_exec(d: &Json, path: &Vec<Seg>) -> (r: Json)
    ensures
        jv(r) == default_at(jv(*d), path_v(path@)),
{
    let mut cur = d;
    let mut i: usize = 0;
    proof {
        assert(path_v(path@).skip(0) =~= path_v(path@));
    }
    while i < path.len()
        invariant
            i <= path@.len(),
            default_at(jv(*d), path_v(path@)) == default_at(jv(*cur), path_v(path@).skip(i as int)),
        decreases path@.len() - i,
    {
        let ghost rest = path_v(path@).skip(i as int);
        proof {
            assert(rest.drop_first() =~= path_v(path@).skip(i + 1));
            assert(rest[0] == crate::editor::seg_v(path@[i as int]));
        }
        match &path[i] {
            Seg::Key(k) => match member_of(cur, k.as_str()) {
                Some(c) => {
                    cur = c;
                },
                None => {
                    return Json::Null;
                },
            },
            Seg::Idx(_) => {
                return Json::Null;
            },
        }
        i += 1;
    }
    proof {
        assert(path_v(path@).skip(path@.len() as int).len() == 0);
    }
    crate::document::copy_json(cur)
}

/// A path extended by one segment.
pub(crate) fn extend(base: &Vec<Seg>, seg: Seg) -> (r: Vec<Seg>)
    ensures
        path_v(r@) == path_v(base@).push(crate::editor::seg_v(seg)),
{
    let mut p = crate::fields::clone_path(base);
    p.push(seg);
    proof {
        assert(path_v(p@) =~= path_v(base@).push(crate::editor::seg_v(seg)));
    }
    p
}

/// The help of an element of a list of single values.
fn scalar_item_help_text(elem: FieldKind) -> (r: &'static str)
    ensures
        r@ == scalar_item_help(elem),
{
    match elem {
        FieldKind::ChannelRef => "A channel number (0-indexed) or an alias defined in audio.channel_aliases.",
        FieldKind::VoiceRef => "A voice name, as used by a Play command's \"voice\" parameter or an input's voice_id.",
        _ => "One entry in this list.",
    }
}

/// The help of an entry of a map.
fn map_item_help_text(value_kind: FieldKind) -> (r: &'static str)
    ensures
        r@ == map_item_help(value_kind),
{
    match value_kind {
        FieldKind::UInt { .. } => "The channel number (0-indexed) this alias refers to.",
        FieldKind::Float { .. } => "Calibration gain for this channel (0.0 - 1.0).",
        FieldKind::MapToJson => "A macro: command parameters merged into commands that reference it by name.",
        _ => "One entry in this map.",
    }
}

/// The word for one structure of a list.
pub fn noun(k: StructListKind) -> (r: &'static str)
    ensures
        r@ == item_noun(k),
{
    match k {
        StructListKind::DuckingRules => "rule",
        StructListKind::Inputs => "input",
        StructListKind::Routes => "route",
    }
}

/// The known macro parameter named `key`, if any.
pub fn macro_param_spec(params: &Vec<SubFieldSpec>, key: &str) -> (r: Option<SubFieldSpec>)
    ensures
        match r {
            Some(p) => param_index(params@, key@, 0) >= 0 && p == params@[param_index(
                params@,
                key@,
                0,
            )],
            None => param_index(params@, key@, 0) == -1,
        },
{
    let mut i: usize = 0;
    while i < params.len()
        invariant
            i <= params@.len(),
            param_index(params@, key@, 0) == param_index(params@, key@, i as int),
        decreases params@.len() - i,
    {
        if crate::keyed::same_text(params[i].key, key) {
            return Some(params[i]);
        }
        i += 1;
    }
    None
}

/// The parameter rows of a memory budget (see [`budget_rows`]).
fn push_budget_rows(doc: &ConfigDocument, base: &Vec<Seg>, rows: &mut Vec<Row>)
    ensures
        rows_v(final(rows)@) == rows_v(old(rows)@) + budget_rows(doc@, path_v(base@)),
{
    let ghost start = rows_v(rows@);
    match doc.get(base.as_slice()) {
        Some(b) => match b {
            Json::Object(_) => {
                let mode = match member_of(b, "mode") {
                    Some(Json::Str(m)) => m.as_str(),
                    _ => "",
                };
                proof {
                    reveal_strlit("");
                }
                let ghost gmode = mode@;
                let mut ps: Vec<(&'static str, FieldKind, &'static str, Json)> = Vec::new();
                if crate::keyed::same_text(mode, "auto") {
                    ps.push(
                        (
                            "fraction",
                            FieldKind::Float { min: 0x0, max: 0x3ff0000000000000 },
                            "Fraction of available RAM to target. Default 0.4.",
                            Json::Number(JsonNumber::Float(0x3fd999999999999a)),
                        ),
                    );
                    ps.push(
                        (
                            "floor_mb",
                            FieldKind::UInt { min: 1, max: 4294967295 },
                            "Minimum cap in MiB, so small assets still cache on a tiny box. Default 128.",
                            Json::Number(JsonNumber::Unsigned(128)),
                        ),
                    );
                    ps.push(
                        (
                            "ceiling_mb",
                            FieldKind::UInt { min: 1, max: 4294967295 },
                            "Maximum cap in MiB, so the daemon never camps all RAM. Default 1024.",
                            Json::Number(JsonNumber::Unsigned(1024)),
                        ),
                    );
                } else if crate::keyed::same_text(mode, "explicit") {
                    ps.push(
                        (
                            "mb",
                            FieldKind::UInt { min: 1, max: 4294967295 },
                            "Fixed memory cache cap in MiB.",
                            Json::Null,
                        ),
                    );
                }
                let ghost spec_ps = budget_params(gmode);
                proof {
                    assert(gmode == match text_of(member(jv(*b), "mode"@)) {
                        Some(m) => m,
                        None => Seq::<char>::empty(),
                    });
                    assert(ps@.len() == spec_ps.len());
                    assert(forall|k: int|
                        0 <= k < ps@.len() ==> (#[trigger] ps@[k]).0@ == spec_ps[k].0 && ps@[k].1
                            == spec_ps[k].1 && ps@[k].2@ == spec_ps[k].2 && jv(ps@[k].3)
                            == spec_ps[k].3);
                }
                let mut k: usize = 0;
                while k < ps.len()
                    invariant
                        k <= ps@.len(),
                        ps@.len() == spec_ps.len(),
                        forall|m: int|
                            0 <= m < ps@.len() ==> (#[trigger] ps@[m]).0@ == spec_ps[m].0
                                && ps@[m].1 == spec_ps[m].1 && ps@[m].2@ == spec_ps[m].2 && jv(
                                ps@[m].3,
                            ) == spec_ps[m].3,
                        spec_get(doc@, path_v(base@)) == Some(jv(*b)),
                        jv(*b) is Object,
                        spec_ps == budget_params(gmode),
                        gmode == match text_of(member(jv(*b), "mode"@)) {
                            Some(m) => m,
                            None => Seq::<char>::empty(),
                        },
                        rows_v(rows@) == start + budget_rows(doc@, path_v(base@)).take(k as int),
                    decreases ps@.len() - k,
                {
                    let key = ps[k].0;
                    let (value, is_set) = match member_of(b, key) {
                        Some(v) => (crate::document::copy_json(v), true),
                        None => (crate::document::copy_json(&ps[k].3), false),
                    };
                    let mut label = "memory_budget.".to_owned();
                    label.append(key);
                    let row = Row {
                        label,
                        path: extend(base, Seg::Key(key.to_owned())),
                        kind: ps[k].1,
                        help: ps[k].2.to_owned(),
                        value,
                        is_set,
                        as_json: false,
                    };
                    let ghost before = rows_v(rows@);
                    rows.push(row);
                    proof {
                        let all = budget_rows(doc@, path_v(base@));
                        assert(rows_v(rows@) =~= before.push(row_v(row)));
                        assert(all.take(k + 1) =~= all.take(k as int).push(all[k as int]));
                        assert(row_v(row) == all[k as int]);
                    }
                    k += 1;
                }
                proof {
                    let all = budget_rows(doc@, path_v(base@));
                    assert(all.take(ps@.len() as int) =~= all);
                }
            },
            _ => {
                proof {
                    assert(rows_v(rows@) =~= start + Seq::<RowV>::empty());
                }
            },
        },
        None => {
            proof {
                assert(rows_v(rows@) =~= start + Seq::<RowV>::empty());
            }
        },
    }
}


/// The settings of section `s`, in order.
pub open spec fn fields_of(fs: Seq<FieldSpec>, s: Section) -> Seq<FieldSpec>
    decreases fs.len(),
{
    if fs.len() == 0 {
        Seq::empty()
    } else if fs.last().section == s {
        fields_of(fs.drop_last(), s).push(fs.last())
    } else {
        fields_of(fs.drop_last(), s)
    }
}

/// The settings of section `s` among `fields`, in their order.
pub fn section_fields(fields: &Vec<FieldSpec>, s: Section) -> (r: Vec<FieldSpec>)
    ensures
        r@ == fields_of(fields@, s),
{
    let mut out: Vec<FieldSpec> = Vec::new();
    let mut i: usize = 0;
    while i < fields.len()
        invariant
            i <= fields@.len(),
            out@ == fields_of(fields@.take(i as int), s),
        decreases fields@.len() - i,
    {
        proof {
            assert(fields@.take(i + 1).drop_last() =~= fields@.take(i as int));
        }
        if fields[i].section == s {
            out.push(fields[i]);
        }
        i += 1;
    }
    proof {
        assert(fields@.take(fields@.len() as int) =~= fields@);
    }
    out
}

/// The value shown at `path` and whether it is set (see [`effective`]).
pub(crate) fn effective_exec(doc: &ConfigDocument, defaults: &Json, path: &Vec<Seg>) -> (r: (Json, bool))
    ensures
        (jv(r.0), r.1) == effective(doc@, jv(*defaults), path_v(path@)),
{
    match doc.get(path.as_slice()) {
        Some(v) => (crate::document::copy_json(v), true),
        None => (default_at_exec(defaults, path), false),
    }
}

/// The rows of section `s` (see [`field_rows`]).
fn section_rows(fields: &Vec<FieldSpec>, s: Section, doc: &ConfigDocument, defaults: &Json) -> (r: Vec<Row>)
    ensures
        rows_v(r@) == field_rows(fields@, s, doc@, jv(*defaults)),
{
    let mut rows: Vec<Row> = Vec::new();
    let mut i: usize = 0;
    proof {
        assert(fields@.take(0) =~= Seq::<FieldSpec>::empty());
        assert(rows_v(rows@) =~= Seq::<RowV>::empty());
    }
    while i < fields.len()
        invariant
            i <= fields@.len(),
            rows_v(rows@) == field_rows(fields@.take(i as int), s, doc@, jv(*defaults)),
        decreases fields@.len() - i,
    {
        let f = fields[i];
        proof {
            assert(fields@.take(i + 1).drop_last() =~= fields@.take(i as int));
            assert(fields@.take(i + 1).last() == f);
        }
        if f.section == s {
            let path = crate::editor::path_of(f.path);
            let (value, is_set) = effective_exec(doc, defaults, &path);
            let row = Row {
                label: f.label.to_owned(),
                path,
                kind: f.kind,
                help: f.help.to_owned(),
                value,
                is_set,
                as_json: false,
            };
            let ghost p = path_v(row.path@);
            let ghost before = rows_v(rows@);
            rows.push(row);
            proof {
                assert(rows_v(rows@) =~= before.push(row_v(row)));
            }
            match f.kind {
                FieldKind::MemoryBudget => {
                    let base = crate::editor::path_of(f.path);
                    push_budget_rows(doc, &base, &mut rows);
                },
                _ => {
                    proof {
                        assert(rows_v(rows@) =~= before.push(row_v(row)) + Seq::<RowV>::empty());
                    }
                },
            }
        }
        i += 1;
    }
    proof {
        assert(fields@.take(fields@.len() as int) =~= fields@);
    }
    rows
}

/// The rows of one structure's fields (see [`sub_rows`]).
fn sub_form_rows(
    specs: &Vec<SubFieldSpec>,
    doc: &ConfigDocument,
    base: &Vec<Seg>,
    item_defaults: &Json,
) -> (r: Vec<Row>)
    ensures
        rows_v(r@) == sub_rows(specs@, doc@, path_v(base@), jv(*item_defaults)),
{
    let mut rows: Vec<Row> = Vec::new();
    let mut i: usize = 0;
    while i < specs.len()
        invariant
            i <= specs@.len(),
            rows_v(rows@) == sub_rows(specs@, doc@, path_v(base@), jv(*item_defaults)).take(i as int),
        decreases specs@.len() - i,
    {
        let sp = specs[i];
        let path = extend(base, Seg::Key(sp.key.to_owned()));
        let (value, is_set) = match doc.get(path.as_slice()) {
            Some(v) => (crate::document::copy_json(v), true),
            None => match member_of(item_defaults, sp.key) {
                Some(d) => (crate::document::copy_json(d), false),
                None => (Json::Null, false),
            },
        };
        let row = Row {
            label: sp.label.to_owned(),
            path,
            kind: sp.kind,
            help: sp.help.to_owned(),
            value,
            is_set,
            as_json: false,
        };
        let ghost before = rows_v(rows@);
        rows.push(row);
        proof {
            let all = sub_rows(specs@, doc@, path_v(base@), jv(*item_defaults));
            assert(rows_v(rows@) =~= before.push(row_v(row)));
            assert(all.take(i + 1) =~= all.take(i as int).push(all[i as int]));
        }
        i += 1;
    }
    proof {
        let all = sub_rows(specs@, doc@, path_v(base@), jv(*item_defaults));
        assert(all.take(specs@.len() as int) =~= all);
    }
    rows
}

/// The rows of a list of single values or of structures (see
/// [`scalar_rows`] and [`struct_rows`]); `structs` names the structures.
fn list_rows(
    doc: &ConfigDocument,
    base: &Vec<Seg>,
    elem: FieldKind,
    structs: Option<StructListKind>,
) -> (r: Vec<Row>)
    ensures
        rows_v(r@) == match structs {
            Some(k) => struct_rows(list_items(doc@, path_v(base@)), path_v(base@), k),
            None => scalar_rows(list_items(doc@, path_v(base@)), path_v(base@), elem),
        },
{
    let mut rows: Vec<Row> = Vec::new();
    let ghost want = match structs {
        Some(k) => struct_rows(list_items(doc@, path_v(base@)), path_v(base@), k),
        None => scalar_rows(list_items(doc@, path_v(base@)), path_v(base@), elem),
    };
    match doc.get(base.as_slice()) {
        Some(Json::Array(items)) => {
            proof {
                lemma_jv_array(*items);
            }
            let mut i: usize = 0;
            while i < items.len()
                invariant
                    i <= items@.len(),
                    list_items(doc@, path_v(base@)) == crate::document::item_views(items@),
                    want == match structs {
                        Some(k) => struct_rows(list_items(doc@, path_v(base@)), path_v(base@), k),
                        None => scalar_rows(list_items(doc@, path_v(base@)), path_v(base@), elem),
                    },
                    rows_v(rows@) == want.take(i as int),
                decreases items@.len() - i,
            {
                let mut number = String::new();
                push_decimal(&mut number, (i + 1) as u64);
                let (label, kind, help) = match structs {
                    Some(k) => {
                        let mut label = noun(k).to_owned();
                        label.append(" ");
                        label.append(number.as_str());
                        let mut help = "One ".to_owned();
                        help.append(noun(k));
                        help.append(" in this list. Enter opens its fields.");
                        (label, FieldKind::StructList(k), help)
                    },
                    None => (number, elem, scalar_item_help_text(elem).to_owned()),
                };
                let row = Row {
                    label,
                    path: extend(base, Seg::Idx(i)),
                    kind,
                    help,
                    value: crate::document::copy_json(&items[i]),
                    is_set: true,
                    as_json: false,
                };
                let ghost before = rows_v(rows@);
                rows.push(row);
                proof {
                    assert(rows_v(rows@) =~= before.push(row_v(row)));
                    assert(want.take(i + 1) =~= want.take(i as int).push(want[i as int]));
                    assert(row_v(row) == want[i as int]);
                }
                i += 1;
            }
            proof {
                assert(want.take(items@.len() as int) =~= want);
            }
        },
        _ => {
            proof {
                assert(list_items(doc@, path_v(base@)).len() == 0);
                assert(rows_v(rows@) =~= want);
            }
        },
    }
    rows
}

/// The rows of the object at `base`, sorted by key (see [`keyed_rows_spec`]).
fn keyed_rows(doc: &ConfigDocument, base: &Vec<Seg>, lk: LevelKind, params: &Vec<SubFieldSpec>) -> (r: Vec<
    Row,
>)
    requires
        lk is Entries || lk is MacroForm,
    ensures
        rows_v(r@) == keyed_rows_spec(doc@, path_v(base@), lk, params@),
{
    let mut rows: Vec<Row> = Vec::new();
    match doc.get(base.as_slice()) {
        Some(obj) => match obj {
            Json::Object(es) => {
                proof {
                    lemma_jv_object(*es);
                }
                let ghost ev = crate::document::entry_views(es@);
                let mut keys: Vec<String> = Vec::new();
                let mut i: usize = 0;
                proof {
                    assert(string_views(keys@) =~= Seq::<Seq<char>>::empty());
                    assert(entry_keys(ev).take(0) =~= Seq::<Seq<char>>::empty());
                    assert(string_views(keys@).to_set() =~= entry_keys(ev).take(0).to_set());
                }
                while i < es.len()
                    invariant
                        i <= es@.len(),
                        ev == crate::document::entry_views(es@),
                        strictly_sorted(string_views(keys@)),
                        string_views(keys@).to_set() == entry_keys(ev).take(i as int).to_set(),
                    decreases es@.len() - i,
                {
                    add_text(&mut keys, es[i].0.as_str(), Ghost(entry_keys(ev).take(i as int)));
                    proof {
                        assert(entry_keys(ev).take(i as int).push(es@[i as int].0@) =~= entry_keys(
                            ev,
                        ).take(i + 1));
                    }
                    i += 1;
                }
                proof {
                    assert(entry_keys(ev).take(es@.len() as int) =~= entry_keys(ev));
                }
                let ghost obj_v = jv(*obj);
                let mut j: usize = 0;
                while j < keys.len()
                    invariant
                        j <= keys@.len(),
                        obj_v == jv(*obj),
                        obj_v == JsonV::Object(ev),
                        spec_get(doc@, path_v(base@)) == Some(obj_v),
                        rows@.len() == j,
                        forall|m: int|
                            0 <= m < j ==> #[trigger] rows_v(rows@)[m] == keyed_row(
                                obj_v,
                                path_v(base@),
                                keys@[m]@,
                                entry_kind(lk, params@, keys@[m]@).0,
                                entry_kind(lk, params@, keys@[m]@).1,
                            ),
                        forall|m: int| 0 <= m < j ==> #[trigger] rows@[m].label@ == keys@[m]@,
                    decreases keys@.len() - j,
                {
                    let key = keys[j].as_str();
                    let (kind, help) = match lk {
                        LevelKind::Entries { value_kind } => (
                            value_kind,
                            map_item_help_text(value_kind).to_owned(),
                        ),
                        _ => match macro_param_spec(params, key) {
                            Some(p) => (p.kind, p.help.to_owned()),
                            None => (
                                FieldKind::MapToJson,
                                "Custom parameter; the value is raw JSON.".to_owned(),
                            ),
                        },
                    };
                    let as_json = match kind {
                        FieldKind::MapToJson => true,
                        _ => false,
                    };
                    let value = match member_of(obj, key) {
                        Some(v) => crate::document::copy_json(v),
                        None => Json::Null,
                    };
                    let row = Row {
                        label: key.to_owned(),
                        path: extend(base, Seg::Key(key.to_owned())),
                        kind,
                        help,
                        value,
                        is_set: true,
                        as_json,
                    };
                    let ghost before = rows@;
                    rows.push(row);
                    proof {
                        assert(row_v(row) == keyed_row(
                            obj_v,
                            path_v(base@),
                            keys@[j as int]@,
                            entry_kind(lk, params@, keys@[j as int]@).0,
                            entry_kind(lk, params@, keys@[j as int]@).1,
                        ));
                        assert forall|m: int| 0 <= m < j + 1 implies #[trigger] rows_v(rows@)[m]
                            == keyed_row(
                            obj_v,
                            path_v(base@),
                            keys@[m]@,
                            entry_kind(lk, params@, keys@[m]@).0,
                            entry_kind(lk, params@, keys@[m]@).1,
                        ) by {
                            if m < j {
                                assert(rows@[m] == before[m]);
                                assert(rows_v(rows@)[m] == rows_v(before)[m]);
                            } else {
                                assert(rows_v(rows@)[m] == row_v(row));
                            }
                        }
                        assert forall|m: int| 0 <= m < j + 1 implies #[trigger] rows@[m].label@
                            == keys@[m]@ by {
                            if m < j {
                                assert(rows@[m] == before[m]);
                            }
                        }
                    }
                    j += 1;
                }
                proof {
                    let ks = sorted_keys(ev);
                    assert(strictly_sorted(ks) && ks.to_set() == entry_keys(ev).to_set());
                    crate::text::lemma_sorted_same_set(string_views(keys@), ks);
                    let want = keyed_rows_spec(doc@, path_v(base@), lk, params@);
                    assert forall|m: int| 0 <= m < rows@.len() implies rows_v(rows@)[m] == want[m] by {
                        assert(string_views(keys@)[m] == keys@[m]@);
                    }
                    assert(rows_v(rows@) =~= want);
                }
            },
            _ => {},
        },
        None => {},
    }
    rows
}

impl App {
    /// The rows of the level shown (see [`spec_rows`]).
    pub fn rows(&self) -> (r: Vec<Row>)
        requires
            self.wf(),
        ensures
            rows_v(r@) == spec_rows(*self),
    {
        let level = &self.levels[self.levels.len() - 1];
        match level.kind {
            LevelKind::Section(s) => section_rows(&self.tables.fields, s, &self.doc, &self.defaults),
            LevelKind::SubForm(k) => {
                let null = Json::Null;
                let (specs, defaults) = match k {
                    StructListKind::DuckingRules => (&self.tables.ducking_rule, &null),
                    StructListKind::Routes => (&self.tables.route, &null),
                    StructListKind::Inputs => (&self.tables.input, &self.input_defaults),
                };
                sub_form_rows(specs, &self.doc, &level.path, defaults)
            },
            LevelKind::ScalarList { elem } => list_rows(&self.doc, &level.path, elem, None),
            LevelKind::StructList(k) => list_rows(&self.doc, &level.path, FieldKind::Text, Some(k)),
            LevelKind::Entries { .. } | LevelKind::MacroForm => keyed_rows(
                &self.doc,
                &level.path,
                level.kind,
                &self.tables.macro_params,
            ),
        }
    }
}


// ---------------------------------------------------------------------------
// Choices offered by pickers
// ---------------------------------------------------------------------------

/// The mathematical form of a choice.
pub struct ChoiceV {
    pub insert_text: Seq<char>,
    pub label: Seq<char>,
    pub detail: Seq<char>,
    pub custom: bool,
    pub value_kind: Option<FieldKind>,
}

/// The form of a choice.
pub open spec fn choice_v(c: Choice) -> ChoiceV {
    ChoiceV {
        insert_text: c.insert_text@,
        label: c.label@,
        detail: c.detail@,
        custom: c.custom,
        value_kind: c.value_kind,
    }
}

/// The forms of choices.
pub open spec fn choices_v(cs: Seq<Choice>) -> Seq<ChoiceV> {
    cs.map_values(|c: Choice| choice_v(c))
}

/// A choice that commits `insert_text`.
pub open spec fn plain_choice(insert_text: Seq<char>, label: Seq<char>, detail: Seq<char>) -> ChoiceV {
    ChoiceV { insert_text, label, detail, custom: false, value_kind: None }
}

/// A choice that opens a free-text edit.
pub open spec fn custom_choice(label: Seq<char>, detail: Seq<char>) -> ChoiceV {
    ChoiceV { insert_text: Seq::empty(), label, detail, custom: true, value_kind: None }
}

fn new_choice(insert_text: &str, label: &str, detail: &str) -> (c: Choice)
    ensures
        choice_v(c) == plain_choice(insert_text@, label@, detail@),
{
    Choice {
        insert_text: insert_text.to_owned(),
        label: label.to_owned(),
        detail: detail.to_owned(),
        custom: false,
        value_kind: None,
    }
}

fn custom_entry(label: &str, detail: &str) -> (c: Choice)
    ensures
        choice_v(c) == custom_choice(label@, detail@),
{
    Choice {
        insert_text: String::new(),
        label: label.to_owned(),
        detail: detail.to_owned(),
        custom: true,
        value_kind: None,
    }
}

/// One choice per option of an enumeration.
pub open spec fn enum_choices_v(options: Seq<&str>) -> Seq<ChoiceV> {
    Seq::new(options.len(), |i: int| plain_choice(options[i]@, options[i]@, Seq::empty()))
}

/// The choices for an enumeration's options.
pub fn enum_choices(options: &'static [&'static str]) -> (r: Vec<Choice>)
    ensures
        choices_v(r@) == enum_choices_v(options@),
{
    let mut out: Vec<Choice> = Vec::new();
    let mut i: usize = 0;
    while i < options.len()
        invariant
            i <= options@.len(),
            choices_v(out@) == enum_choices_v(options@).take(i as int),
        decreases options@.len() - i,
    {
        let c = new_choice(options[i], options[i], "");
        let ghost before = choices_v(out@);
        out.push(c);
        proof {
            reveal_strlit("");
            assert(""@ =~= Seq::<char>::empty());
            assert(choices_v(out@) =~= before.push(choice_v(c)));
            assert(enum_choices_v(options@).take(i + 1) =~= enum_choices_v(options@).take(
                i as int,
            ).push(enum_choices_v(options@)[i as int]));
        }
        i += 1;
    }
    proof {
        assert(enum_choices_v(options@).take(options@.len() as int) =~= enum_choices_v(options@));
    }
    out
}

/// The choices for a boolean: true, then false.
pub open spec fn bool_choices_v() -> Seq<ChoiceV> {
    seq![
        plain_choice("true"@, "true"@, Seq::empty()),
        plain_choice("false"@, "false"@, Seq::empty()),
    ]
}

/// The choices for a boolean.
pub fn bool_choices() -> (r: Vec<Choice>)
    ensures
        choices_v(r@) == bool_choices_v(),
{
    let r = vec![new_choice("true", "true", ""), new_choice("false", "false", "")];
    proof {
        reveal_strlit("");
            assert(""@ =~= Seq::<char>::empty());
        assert(choices_v(r@) =~= bool_choices_v());
    }
    r
}

/// The choices for adding to a macro: each known parameter not yet in it,
/// typed by its kind.
pub open spec fn unused_param_choices(ps: Seq<SubFieldSpec>, existing: JsonV) -> Seq<ChoiceV>
    decreases ps.len(),
{
    if ps.len() == 0 {
        Seq::empty()
    } else {
        let front = unused_param_choices(ps.drop_last(), existing);
        let p = ps.last();
        if member(existing, p.key@) is None {
            front.push(
                ChoiceV {
                    insert_text: p.key@,
                    label: p.label@,
                    detail: p.help@,
                    custom: false,
                    value_kind: Some(p.kind),
                },
            )
        } else {
            front
        }
    }
}

/// The choices for adding a parameter to a macro holding `existing`: the
/// known parameters not already present, then a custom one.
pub open spec fn macro_param_choices_v(ps: Seq<SubFieldSpec>, existing: JsonV) -> Seq<ChoiceV> {
    unused_param_choices(ps, existing).push(
        custom_choice("other…"@, "type a parameter name; the value is raw JSON"@),
    )
}

/// The choices for adding a parameter to a macro (see [`macro_param_choices_v`]).
pub fn macro_param_choices(params: &Vec<SubFieldSpec>, existing: &Json) -> (r: Vec<Choice>)
    ensures
        choices_v(r@) == macro_param_choices_v(params@, jv(*existing)),
{
    let mut out: Vec<Choice> = Vec::new();
    let mut i: usize = 0;
    proof {
        assert(params@.take(0) =~= Seq::<SubFieldSpec>::empty());
        assert(choices_v(out@) =~= Seq::<ChoiceV>::empty());
    }
    while i < params.len()
        invariant
            i <= params@.len(),
            choices_v(out@) == unused_param_choices(params@.take(i as int), jv(*existing)),
        decreases params@.len() - i,
    {
        let p = params[i];
        proof {
            assert(params@.take(i + 1).drop_last() =~= params@.take(i as int));
            assert(params@.take(i + 1).last() == p);
        }
        if member_of(existing, p.key).is_none() {
            let c = Choice {
                insert_text: p.key.to_owned(),
                label: p.label.to_owned(),
                detail: p.help.to_owned(),
                custom: false,
                value_kind: Some(p.kind),
            };
            let ghost before = choices_v(out@);
            out.push(c);
            proof {
                assert(choices_v(out@) =~= before.push(choice_v(c)));
            }
        }
        i += 1;
    }
    proof {
        assert(params@.take(params@.len() as int) =~= params@);
    }
    let c = custom_entry("other…", "type a parameter name; the value is raw JSON");
    let ghost before = choices_v(out@);
    out.push(c);
    proof {
        assert(choices_v(out@) =~= before.push(choice_v(c)));
    }
    out
}

/// Whether `cs` are the choices for a voice: every voice the document names,
/// sorted, each once, then a custom entry.
pub open spec fn voice_choices_ok(doc: JsonV, cs: Seq<ChoiceV>) -> bool {
    let n = cs.len() - 1;
    let ids = Seq::new(n as nat, |i: int| cs[i].insert_text);
    &&& cs.len() >= 1
    &&& strictly_sorted(ids)
    &&& ids.to_set() == voice_mentions(doc).to_set()
    &&& forall|i: int| 0 <= i < n ==> #[trigger] cs[i] == plain_choice(ids[i], ids[i], Seq::empty())
    &&& cs.last() == custom_choice("other…"@, "type a new voice name"@)
}

/// The choices for a voice (see [`voice_choices_ok`]).
pub fn voice_choices(doc: &ConfigDocument) -> (r: Vec<Choice>)
    ensures
        voice_choices_ok(doc@, choices_v(r@)),
{
    let ids = known_voice_ids(doc);
    let mut out: Vec<Choice> = Vec::new();
    let mut i: usize = 0;
    while i < ids.len()
        invariant
            i <= ids@.len(),
            out@.len() == i,
            forall|m: int|
                0 <= m < i ==> #[trigger] choice_v(out@[m]) == plain_choice(
                    ids@[m]@,
                    ids@[m]@,
                    Seq::empty(),
                ),
        decreases ids@.len() - i,
    {
        let c = new_choice(ids[i].as_str(), ids[i].as_str(), "");
        proof {
            reveal_strlit("");
            assert(""@ =~= Seq::<char>::empty());
        }
        let ghost before = out@;
        out.push(c);
        proof {
            assert forall|m: int| 0 <= m < i + 1 implies #[trigger] choice_v(out@[m])
                == plain_choice(ids@[m]@, ids@[m]@, Seq::empty()) by {
                if m < i {
                    assert(out@[m] == before[m]);
                }
            }
        }
        i += 1;
    }
    let c = custom_entry("other…", "type a new voice name");
    let ghost before = out@;
    out.push(c);
    proof {
        let cs = choices_v(out@);
        let n = cs.len() - 1;
        let idsv = Seq::new(n as nat, |k: int| cs[k].insert_text);
        assert(idsv =~= string_views(ids@)) by {
            assert forall|k: int| 0 <= k < n implies idsv[k] == string_views(ids@)[k] by {
                assert(out@[k] == before[k]);
                assert(choice_v(out@[k]) == plain_choice(ids@[k]@, ids@[k]@, Seq::empty()));
            }
        }
        assert forall|k: int| 0 <= k < n implies #[trigger] cs[k] == plain_choice(
            idsv[k],
            idsv[k],
            Seq::empty(),
        ) by {
            assert(out@[k] == before[k]);
        }
    }
    out
}


// ---------------------------------------------------------------------------
// Channel choices
// ---------------------------------------------------------------------------

/// A value as an unsigned integer, when it is one.
pub open spec fn as_u64(j: JsonV) -> Option<u64> {
    match j {
        JsonV::Number(JsonNumber::Unsigned(n)) => Some(n),
        JsonV::Number(JsonNumber::Signed(n)) => if n >= 0 {
            Some(n as u64)
        } else {
            None
        },
        _ => None,
    }
}

pub(crate) fn as_u64_exec(j: &Json) -> (r: Option<u64>)
    ensures
        r == as_u64(jv(*j)),
{
    match j {
        Json::Number(JsonNumber::Unsigned(n)) => Some(*n),
        Json::Number(JsonNumber::Signed(n)) => if *n >= 0 {
            Some(*n as u64)
        } else {
            None
        },
        _ => None,
    }
}

/// The aliases with a whole-number channel, as (channel, name), in order.
pub open spec fn alias_pairs(es: Seq<(Seq<char>, JsonV)>) -> Seq<(u64, Seq<char>)>
    decreases es.len(),
{
    if es.len() == 0 {
        Seq::empty()
    } else {
        let front = alias_pairs(es.drop_last());
        match as_u64(es.last().1) {
            Some(n) => front.push((n, es.last().0)),
            None => front,
        }
    }
}

/// The path of the channel aliases.
pub open spec fn aliases_path() -> Seq<SegV> {
    seq![SegV::Key("audio"@), SegV::Key("channel_aliases"@)]
}

/// The path of the channel count.
pub open spec fn channels_path() -> Seq<SegV> {
    seq![SegV::Key("audio"@), SegV::Key("channels"@)]
}

/// The channel aliases of the document with a whole-number channel.
pub open spec fn channel_aliases(doc: JsonV) -> Seq<(u64, Seq<char>)> {
    match spec_get(doc, aliases_path()) {
        Some(JsonV::Object(es)) => alias_pairs(es),
        _ => Seq::empty(),
    }
}

/// Order of aliases: by channel, then by name.
pub open spec fn pair_lt(a: (u64, Seq<char>), b: (u64, Seq<char>)) -> bool {
    a.0 < b.0 || (a.0 == b.0 && crate::text::text_lt(a.1, b.1))
}

/// Whether aliases are in increasing order, none twice.
pub open spec fn pairs_sorted(s: Seq<(u64, Seq<char>)>) -> bool {
    forall|i: int, j: int| 0 <= i < j < s.len() ==> pair_lt(#[trigger] s[i], #[trigger] s[j])
}

proof fn lemma_pair_order(a: (u64, Seq<char>), b: (u64, Seq<char>), c: (u64, Seq<char>))
    ensures
        !pair_lt(a, a),
        pair_lt(a, b) && pair_lt(b, c) ==> pair_lt(a, c),
        a != b ==> pair_lt(a, b) || pair_lt(b, a),
{
    crate::text::lemma_text_order(a.1, b.1, c.1);
    crate::text::lemma_text_order(a.1, a.1, a.1);
}

/// One past an aliased channel, wrapping around to 0 past the largest number
/// (as unchecked 64-bit addition does).
pub open spec fn one_past(ch: u64) -> nat {
    if ch == u64::MAX {
        0
    } else {
        (ch + 1) as nat
    }
}

/// The largest of the aliased channels' [`one_past`] values (0 without any).
pub open spec fn channel_bound(s: Seq<(u64, Seq<char>)>) -> nat
    decreases s.len(),
{
    if s.len() == 0 {
        0
    } else {
        let m = channel_bound(s.drop_last());
        let c = one_past(s.last().0);
        if c > m {
            c
        } else {
            m
        }
    }
}

/// Whether some alias names channel `ch`.
pub open spec fn has_channel(s: Seq<(u64, Seq<char>)>, ch: int) -> bool {
    exists|i: int| 0 <= i < s.len() && s[i].0 == ch
}

/// The number of channels a channel picker offers: the configured count,
/// else one past the largest aliased channel (see [`channel_bound`]), else 8.
pub open spec fn channel_count(doc: JsonV, defaults: JsonV) -> nat {
    match as_u64(effective(doc, defaults, channels_path()).0) {
        Some(n) => n as nat,
        None => if channel_aliases(doc).len() > 0 {
            channel_bound(channel_aliases(doc))
        } else {
            8
        },
    }
}

/// The choice for channel `ch` by number.
pub open spec fn number_choice(ch: nat) -> ChoiceV {
    plain_choice(decimal(ch), "channel "@ + decimal(ch), Seq::empty())
}

/// The choices for the channels below `n` that no alias names.
pub open spec fn number_choices(aliases: Seq<(u64, Seq<char>)>, n: nat) -> Seq<ChoiceV>
    decreases n,
{
    if n == 0 {
        Seq::empty()
    } else {
        let front = number_choices(aliases, (n - 1) as nat);
        if has_channel(aliases, n - 1) {
            front
        } else {
            front.push(number_choice((n - 1) as nat))
        }
    }
}

/// The choice for an alias.
pub open spec fn alias_choice(p: (u64, Seq<char>)) -> ChoiceV {
    plain_choice(p.1, p.1, "channel "@ + decimal(p.0 as nat))
}

/// Whether `cs` are the choices for a channel: the aliases sorted by channel
/// then name, then the channels without an alias by number, then a custom
/// entry.
pub open spec fn channel_choices_ok(doc: JsonV, defaults: JsonV, cs: Seq<ChoiceV>) -> bool {
    exists|p: Seq<(u64, Seq<char>)>|
        #![trigger pairs_sorted(p)]
        pairs_sorted(p) && p.to_set() == channel_aliases(doc).to_set() && cs == p.map_values(
            |x: (u64, Seq<char>)| alias_choice(x),
        ) + number_choices(channel_aliases(doc), channel_count(doc, defaults)) + seq![
            custom_choice("other…"@, "type a channel number or alias"@),
        ]
}

/// The forms of (channel, name) pairs.
pub open spec fn pairs_v(v: Seq<(u64, String)>) -> Seq<(u64, Seq<char>)> {
    v.map_values(|x: (u64, String)| (x.0, x.1@))
}

fn pair_less(a: &(u64, String), b: u64, name: &str) -> (r: bool)
    ensures
        r == pair_lt((a.0, a.1@), (b, name@)),
{
    a.0 < b || (a.0 == b && crate::text::text_less(a.1.as_str(), name))
}

/// Insert an alias into the sorted aliases, unless it is there already.
fn insert_pair(v: &mut Vec<(u64, String)>, ch: u64, name: String)
    requires
        pairs_sorted(pairs_v(old(v)@)),
    ensures
        pairs_sorted(pairs_v(final(v)@)),
        pairs_v(final(v)@).to_set() == pairs_v(old(v)@).to_set().insert((ch, name@)),
{
    let ghost old_v = pairs_v(v@);
    let ghost x = (ch, name@);
    let mut i: usize = 0;
    while i < v.len() && pair_less(&v[i], ch, name.as_str())
        invariant
            old_v == pairs_v(v@),
            x == (ch, name@),
            pairs_sorted(old_v),
            i <= v@.len(),
            forall|k: int| 0 <= k < i ==> pair_lt(#[trigger] old_v[k], x),
        decreases v@.len() - i,
    {
        proof {
            assert(old_v[i as int] == (v@[i as int].0, v@[i as int].1@));
        }
        i += 1;
    }
    if i < v.len() && v[i].0 == ch && crate::keyed::same_text(v[i].1.as_str(), name.as_str()) {
        proof {
            assert(old_v[i as int] == x);
            assert(old_v.to_set().insert(x) =~= old_v.to_set());
        }
        return;
    }
    proof {
        if i < v@.len() {
            lemma_pair_order(old_v[i as int], x, x);
            assert(pair_lt(x, old_v[i as int]));
        }
    }
    v.insert(i, (ch, name));
    proof {
        let nv = pairs_v(v@);
        assert(nv =~= old_v.insert(i as int, x));
        assert forall|a: int, b: int| 0 <= a < b < nv.len() implies pair_lt(
            #[trigger] nv[a],
            #[trigger] nv[b],
        ) by {
            if b == i {
            } else if a == i {
                if b > i + 1 {
                    lemma_pair_order(x, old_v[i as int], old_v[b - 1]);
                }
            } else if a < i && b > i {
                lemma_pair_order(old_v[a], x, old_v[b - 1]);
            }
        }
        assert forall|y: (u64, Seq<char>)| nv.to_set().contains(y) <==> old_v.to_set().insert(
            x,
        ).contains(y) by {
            if old_v.to_set().contains(y) && y != x {
                let k = choose|k: int| 0 <= k < old_v.len() && old_v[k] == y;
                if k < i {
                    assert(nv[k] == y);
                } else {
                    assert(nv[k + 1] == y);
                }
            }
            if nv.to_set().contains(y) {
                let k = choose|k: int| 0 <= k < nv.len() && nv[k] == y;
                if k < i {
                    assert(old_v[k] == y);
                } else if k > i {
                    assert(old_v[k - 1] == y);
                }
            }
            if y == x {
                assert(nv[i as int] == y);
            }
        }
        assert(nv.to_set() =~= old_v.to_set().insert(x));
    }
}

/// The aliases with a whole-number channel, in document order.
fn collect_aliases(doc: &ConfigDocument) -> (r: Vec<(u64, String)>)
    ensures
        pairs_v(r@) == channel_aliases(doc@),
{
    let path = crate::editor::path_of(&["audio", "channel_aliases"]);
    proof {
        reveal_strlit("audio");
        reveal_strlit("channel_aliases");
        assert(keys_v(seq!["audio", "channel_aliases"]) =~= aliases_path());
    }
    let mut out: Vec<(u64, String)> = Vec::new();
    match doc.get(path.as_slice()) {
        Some(Json::Object(es)) => {
            proof {
                lemma_jv_object(*es);
            }
            let ghost ev = crate::document::entry_views(es@);
            let mut i: usize = 0;
            proof {
                assert(ev.take(0) =~= Seq::<(Seq<char>, JsonV)>::empty());
                assert(pairs_v(out@) =~= Seq::<(u64, Seq<char>)>::empty());
            }
            while i < es.len()
                invariant
                    i <= es@.len(),
                    ev == crate::document::entry_views(es@),
                    pairs_v(out@) == alias_pairs(ev.take(i as int)),
                decreases es@.len() - i,
            {
                proof {
                    assert(ev.take(i + 1).drop_last() =~= ev.take(i as int));
                    assert(ev.take(i + 1).last() == (es@[i as int].0@, jv(es@[i as int].1)));
                }
                match as_u64_exec(&es[i].1) {
                    Some(n) => {
                        let ghost before = pairs_v(out@);
                        let name = es[i].0.clone();
                        out.push((n, name));
                        proof {
                            assert(pairs_v(out@) =~= before.push((n, name@)));
                        }
                    },
                    None => {},
                }
                i += 1;
            }
            proof {
                assert(ev.take(es@.len() as int) =~= ev);
            }
        },
        _ => {
            proof {
                assert(pairs_v(out@) =~= Seq::<(u64, Seq<char>)>::empty());
            }
        },
    }
    out
}

/// Whether some alias names channel `ch`.
fn aliased(raw: &Vec<(u64, String)>, ch: u64) -> (r: bool)
    ensures
        r == has_channel(pairs_v(raw@), ch as int),
{
    let mut i: usize = 0;
    while i < raw.len()
        invariant
            i <= raw@.len(),
            forall|k: int| 0 <= k < i ==> (#[trigger] raw@[k]).0 != ch,
        decreases raw@.len() - i,
    {
        if raw[i].0 == ch {
            proof {
                assert(pairs_v(raw@)[i as int].0 == ch);
            }
            return true;
        }
        i += 1;
    }
    proof {
        if has_channel(pairs_v(raw@), ch as int) {
            let k = choose|k: int| 0 <= k < pairs_v(raw@).len() && pairs_v(raw@)[k].0 == ch;
            assert(raw@[k].0 == ch);
        }
    }
    false
}

/// The choices for a channel (see [`channel_choices_ok`]).
pub fn channel_choices(doc: &ConfigDocument, defaults: &Json) -> (r: Vec<Choice>)
    ensures
        channel_choices_ok(doc@, jv(*defaults), choices_v(r@)),
{
    let raw = collect_aliases(doc);
    let ghost rv = pairs_v(raw@);
    let mut sorted: Vec<(u64, String)> = Vec::new();
    let mut i: usize = 0;
    proof {
        assert(pairs_v(sorted@) =~= Seq::<(u64, Seq<char>)>::empty());
        assert(rv.take(0) =~= Seq::<(u64, Seq<char>)>::empty());
        assert(pairs_v(sorted@).to_set() =~= rv.take(0).to_set());
    }
    while i < raw.len()
        invariant
            i <= raw@.len(),
            rv == pairs_v(raw@),
            pairs_sorted(pairs_v(sorted@)),
            pairs_v(sorted@).to_set() == rv.take(i as int).to_set(),
        decreases raw@.len() - i,
    {
        insert_pair(&mut sorted, raw[i].0, raw[i].1.clone());
        proof {
            assert(rv.take(i + 1) =~= rv.take(i as int).push(rv[i as int]));
            rv.take(i as int).lemma_push_to_set_commute(rv[i as int]);
        }
        i += 1;
    }
    proof {
        assert(rv.take(raw@.len() as int) =~= rv);
    }
    let ghost sv = pairs_v(sorted@);
    let mut out: Vec<Choice> = Vec::new();
    let mut j: usize = 0;
    while j < sorted.len()
        invariant
            j <= sorted@.len(),
            sv == pairs_v(sorted@),
            choices_v(out@) == sv.map_values(|x: (u64, Seq<char>)| alias_choice(x)).take(j as int),
        decreases sorted@.len() - j,
    {
        let mut detail = "channel ".to_owned();
        push_decimal(&mut detail, sorted[j].0);
        let c = Choice {
            insert_text: sorted[j].1.clone(),
            label: sorted[j].1.clone(),
            detail,
            custom: false,
            value_kind: None,
        };
        let ghost before = choices_v(out@);
        out.push(c);
        proof {
            let all = sv.map_values(|x: (u64, Seq<char>)| alias_choice(x));
            assert(choices_v(out@) =~= before.push(choice_v(c)));
            assert(all.take(j + 1) =~= all.take(j as int).push(all[j as int]));
        }
        j += 1;
    }
    let ghost head = choices_v(out@);
    proof {
        let all = sv.map_values(|x: (u64, Seq<char>)| alias_choice(x));
        assert(all.take(sorted@.len() as int) =~= all);
    }
    let channels_path_exec = crate::editor::path_of(&["audio", "channels"]);
    proof {
        reveal_strlit("audio");
        reveal_strlit("channels");
        assert(keys_v(seq!["audio", "channels"]) =~= channels_path());
    }
    let (cv, _) = effective_exec(doc, defaults, &channels_path_exec);
    let count: u64 = match as_u64_exec(&cv) {
        Some(n) => n,
        None => if raw.len() > 0 {
            let mut m: u64 = 0;
            let mut k: usize = 0;
            proof {
                assert(rv.take(0) =~= Seq::<(u64, Seq<char>)>::empty());
            }
            while k < raw.len()
                invariant
                    k <= raw@.len(),
                    rv == pairs_v(raw@),
                    rv == channel_aliases(doc@),
                    m as nat == channel_bound(rv.take(k as int)),
                decreases raw@.len() - k,
            {
                proof {
                    assert(rv.take(k + 1).drop_last() =~= rv.take(k as int));
                }
                let c = raw[k].0;
                let past: u64 = if c == u64::MAX {
                    0
                } else {
                    c + 1
                };
                if past > m {
                    m = past;
                }
                k += 1;
            }
            proof {
                assert(rv.take(raw@.len() as int) =~= rv);
            }
            m
        } else {
            8
        },
    };
    let mut ch: u64 = 0;
    proof {
        assert(head + number_choices(rv, 0) =~= head);
    }
    while ch < count
        invariant
            ch <= count,
            count as nat == channel_count(doc@, jv(*defaults)),
            rv == pairs_v(raw@),
            rv == channel_aliases(doc@),
            choices_v(out@) == head + number_choices(rv, ch as nat),
        decreases count - ch,
    {
        if !aliased(&raw, ch) {
            let mut insert_text = String::new();
            push_decimal(&mut insert_text, ch);
            let mut label = "channel ".to_owned();
            push_decimal(&mut label, ch);
            let c = Choice { insert_text, label, detail: String::new(), custom: false, value_kind: None };
            let ghost before = choices_v(out@);
            out.push(c);
            proof {
                assert(choices_v(out@) =~= before.push(choice_v(c)));
                assert(choice_v(c) == number_choice(ch as nat));
                assert(head + number_choices(rv, (ch + 1) as nat) =~= (head + number_choices(
                    rv,
                    ch as nat,
                )).push(number_choice(ch as nat)));
            }
        }
        ch += 1;
    }
    let c = custom_entry("other…", "type a channel number or alias");
    let ghost before = choices_v(out@);
    out.push(c);
    proof {
        assert(choices_v(out@) =~= before.push(choice_v(c)));
        let cs = choices_v(out@);
        assert(cs == sv.map_values(|x: (u64, Seq<char>)| alias_choice(x)) + number_choices(
            channel_aliases(doc@),
            channel_count(doc@, jv(*defaults)),
        ) + seq![custom_choice("other…"@, "type a channel number or alias"@)]);
        assert(pairs_sorted(sv));
    }
    out
}

} // verus!
