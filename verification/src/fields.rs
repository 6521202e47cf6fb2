//! Editing one configuration setting: how typed text becomes a value for a
//! kind of setting, and what committing an edit does to the document.

use crate::document::{
    find_key, jv, spec_get, spec_list_len, spec_push, spec_set, spec_unset,
    ConfigDocument, Json, JsonNumber, JsonV,
};
use crate::editor::{path_v, trim, trim_text, Seg, SegV};
use crate::keyed::same_text;
use crate::text::{decimal, number_message, parse_u64, push_decimal, spec_parse_u64};
use vstd::prelude::*;

verus! {

/// The lists of structures the editor knows.
#[derive(Clone, Copy, Debug, PartialEq, Eq, Structural)]
pub enum StructListKind {
    DuckingRules,
    Inputs,
    Routes,
}

/// How a setting is edited and displayed.
#[derive(Clone, Copy, Debug, PartialEq)]
pub enum FieldKind {
    /// A required string.
    Text,
    /// An optional string; unset means the daemon default.
    OptionalText,
    /// An optional string shown masked.
    Secret,
    /// A boolean.
    Bool,
    /// An object whose presence switches a feature on.
    Flag,
    /// An unsigned integer within [min, max].
    UInt { min: u64, max: u64 },
    /// An optional unsigned integer within [min, max]; unset = automatic.
    OptionalUInt { min: u64, max: u64 },
    /// A float within [min, max], bounds as 64-bit IEEE-754 bit patterns.
    Float { min: u64, max: u64 },
    /// One of a fixed set of lowercase options.
    Enum(&'static [&'static str]),
    /// The output device name.
    OutputDevice,
    /// An input device name.
    InputDevice,
    /// A list of strings.
    StringList,
    /// A map of names to unsigned integers.
    MapToUInt,
    /// A map of names to floats within [min, max].
    MapToFloat { min: u64, max: u64 },
    /// A map of names to arbitrary JSON values, or a value typed as JSON.
    MapToJson,
    /// A channel number or alias.
    ChannelRef,
    /// A list of channel references.
    ChannelRefList,
    /// A voice name.
    VoiceRef,
    /// A list of voice names.
    VoiceRefList,
    /// The memory budget (auto / explicit / unlimited).
    MemoryBudget,
    /// A list of structures edited in sub-forms.
    StructList(StructListKind),
}

/// What `str::to_lowercase` gives for `s`.
pub uninterp spec fn spec_lowercase(s: Seq<char>) -> Seq<char>;

/// `str::to_lowercase`: the Unicode lower case of the text. Only that the
/// result is a function of the text is stated.
#[verifier::external_body]
pub(crate) fn lowercase(s: &str) -> (r: String)
    ensures
        r@ == spec_lowercase(s@),
{
    s.to_lowercase()
}

/// The texts joined with `sep` between them.
pub open spec fn join_texts(items: Seq<&str>, sep: Seq<char>) -> Seq<char>
    decreases items.len(),
{
    if items.len() == 0 {
        Seq::empty()
    } else if items.len() == 1 {
        items[0]@
    } else {
        join_texts(items.drop_last(), sep) + sep + items.last()@
    }
}

/// The result of an unsigned integer field for trimmed text `t`.
pub open spec fn uint_value(t: Seq<char>, min: u64, max: u64) -> Result<Option<JsonV>, Seq<char>> {
    match spec_parse_u64(t) {
        None => Err("'"@ + t + "' is not a whole number"@),
        Some(n) => if n < min || n > max {
            Err("must be between "@ + decimal(min as nat) + " and "@ + decimal(max as nat))
        } else {
            Ok(Some(JsonV::Number(JsonNumber::Unsigned(n))))
        },
    }
}

/// Whether the kind's value is computed outside: a float (parsed and
/// compared as a float) or a value typed as JSON (parsed as JSON).
pub open spec fn parsed_outside(kind: FieldKind) -> bool {
    kind is Float || kind is MapToJson
}

/// What typed text gives for a setting of `kind`, with `external` the
/// outcome computed outside for a float (the whole outcome) or for JSON (the
/// parse of the trimmed text). Text is trimmed first; empty text on an
/// optional kind means "unset" (`Ok(None)`).
pub open spec fn spec_parse_field(
    kind: FieldKind,
    input: Seq<char>,
    external: Option<Result<Option<JsonV>, Seq<char>>>,
) -> Result<Option<JsonV>, Seq<char>> {
    let t = trim(input);
    match kind {
        FieldKind::Text | FieldKind::VoiceRef => if t.len() == 0 {
            Err("a value is required"@)
        } else {
            Ok(Some(JsonV::Str(t)))
        },
        FieldKind::OptionalText | FieldKind::Secret | FieldKind::OutputDevice
        | FieldKind::InputDevice => if t.len() == 0 {
            Ok(None)
        } else {
            Ok(Some(JsonV::Str(t)))
        },
        FieldKind::UInt { min, max } => uint_value(t, min, max),
        FieldKind::OptionalUInt { min, max } => if t.len() == 0 {
            Ok(None)
        } else {
            uint_value(t, min, max)
        },
        FieldKind::Float { .. } => external->Some_0,
        FieldKind::Enum(options) => {
            let lower = spec_lowercase(t);
            if exists|i: int| 0 <= i < options@.len() && (#[trigger] options@[i])@ == lower {
                Ok(Some(JsonV::Str(lower)))
            } else {
                Err("must be one of: "@ + join_texts(options@, ", "@))
            }
        },
        FieldKind::ChannelRef => if t.len() == 0 {
            Err("a channel number or alias is required"@)
        } else {
            match spec_parse_u64(t) {
                Some(n) => Ok(Some(JsonV::Number(JsonNumber::Unsigned(n)))),
                None => Ok(Some(JsonV::Str(t))),
            }
        },
        FieldKind::MapToJson => match external->Some_0 {
            Ok(v) => Ok(v),
            Err(e) => Err("invalid JSON: "@ + e),
        },
        FieldKind::Bool => {
            let lower = spec_lowercase(t);
            if lower == "true"@ {
                Ok(Some(JsonV::Bool(true)))
            } else if lower == "false"@ {
                Ok(Some(JsonV::Bool(false)))
            } else {
                Err("must be true or false"@)
            }
        },
        _ => Err("not a text-editable field"@),
    }
}

/// The mathematical form of a parse outcome.
pub open spec fn parse_view(r: Result<Option<Json>, String>) -> Result<Option<JsonV>, Seq<char>> {
    match r {
        Ok(Some(v)) => Ok(Some(jv(v))),
        Ok(None) => Ok(None),
        Err(e) => Err(e@),
    }
}

/// The mathematical form of an optional parse outcome.
pub open spec fn external_view(x: Option<Result<Option<Json>, String>>) -> Option<
    Result<Option<JsonV>, Seq<char>>,
> {
    match x {
        Some(r) => Some(parse_view(r)),
        None => None,
    }
}

fn uint_field(t: &str, min: u64, max: u64) -> (r: Result<Option<Json>, String>)
    ensures
        parse_view(r) == uint_value(t@, min, max),
{
    match parse_u64(t) {
        None => {
            let mut m = "'".to_owned();
            m.append(t);
            m.append("' is not a whole number");
            Err(m)
        },
        Some(n) => if n < min || n > max {
            let mut m = number_message("must be between ", min, " and ");
            push_decimal(&mut m, max);
            Err(m)
        } else {
            Ok(Some(Json::Number(JsonNumber::Unsigned(n))))
        },
    }
}

/// Whether one of the texts is `t`.
fn contains_text(items: &[&str], t: &str) -> (r: bool)
    ensures
        r == exists|i: int| 0 <= i < items@.len() && (#[trigger] items@[i])@ == t@,
{
    let mut i: usize = 0;
    while i < items.len()
        invariant
            i <= items@.len(),
            forall|k: int| 0 <= k < i ==> (#[trigger] items@[k])@ != t@,
        decreases items@.len() - i,
    {
        if same_text(items[i], t) {
            return true;
        }
        i += 1;
    }
    false
}

/// Join the texts with `sep` between them.
fn join_strs(items: &[&str], sep: &str) -> (r: String)
    ensures
        r@ == join_texts(items@, sep@),
{
    let mut out = String::new();
    let mut i: usize = 0;
    proof {
        assert(items@.take(0) =~= Seq::<&str>::empty());
    }
    while i < items.len()
        invariant
            i <= items@.len(),
            out@ == join_texts(items@.take(i as int), sep@),
        decreases items@.len() - i,
    {
        proof {
            assert(items@.take(i + 1).drop_last() =~= items@.take(i as int));
        }
        if i > 0 {
            out.append(sep);
        }
        out.append(items[i]);
        proof {
            if i == 0 {
                assert(out@ =~= join_texts(items@.take(1), sep@));
            }
        }
        i += 1;
    }
    proof {
        assert(items@.take(items@.len() as int) =~= items@);
    }
    out
}

/// Parse typed text into a value for a setting of `kind` (see
/// [`spec_parse_field`]). For a float or a JSON value, `external` carries the
/// outcome computed outside.
pub fn parse_field_value(kind: &FieldKind, input: &str, external: Option<Result<Option<Json>, String>>) -> (r:
    Result<Option<Json>, String>)
    requires
        parsed_outside(*kind) ==> external is Some,
    ensures
        parse_view(r) == spec_parse_field(*kind, input@, external_view(external)),
{
    let trimmed = trim_text(input);
    let t = trimmed.as_str();
    let empty = t.unicode_len() == 0;
    match kind {
        FieldKind::Text | FieldKind::VoiceRef => if empty {
            Err("a value is required".to_owned())
        } else {
            Ok(Some(Json::Str(trimmed)))
        },
        FieldKind::OptionalText | FieldKind::Secret | FieldKind::OutputDevice
        | FieldKind::InputDevice => if empty {
            Ok(None)
        } else {
            Ok(Some(Json::Str(trimmed)))
        },
        FieldKind::UInt { min, max } => uint_field(t, *min, *max),
        FieldKind::OptionalUInt { min, max } => if empty {
            Ok(None)
        } else {
            uint_field(t, *min, *max)
        },
        FieldKind::Float { .. } => match external {
            Some(r) => r,
            None => Err("not a text-editable field".to_owned()),
        },
        FieldKind::Enum(options) => {
            let lower = lowercase(t);
            if contains_text(options, lower.as_str()) {
                return Ok(Some(Json::Str(lower)));
            }
            let mut m = "must be one of: ".to_owned();
            m.append(join_strs(options, ", ").as_str());
            Err(m)
        },
        FieldKind::ChannelRef => if empty {
            Err("a channel number or alias is required".to_owned())
        } else {
            match parse_u64(t) {
                Some(n) => Ok(Some(Json::Number(JsonNumber::Unsigned(n)))),
                None => Ok(Some(Json::Str(trimmed))),
            }
        },
        FieldKind::MapToJson => match external {
            Some(Ok(v)) => Ok(v),
            Some(Err(e)) => {
                let mut m = "invalid JSON: ".to_owned();
                m.append(e.as_str());
                Err(m)
            },
            None => Err("not a text-editable field".to_owned()),
        },
        FieldKind::Bool => {
            let lower = lowercase(t);
            if same_text(lower.as_str(), "true") {
                Ok(Some(Json::Bool(true)))
            } else if same_text(lower.as_str(), "false") {
                Ok(Some(Json::Bool(false)))
            } else {
                Err("must be true or false".to_owned())
            }
        },
        _ => Err("not a text-editable field".to_owned()),
    }
}


// ---------------------------------------------------------------------------
// Committing an edit
// ---------------------------------------------------------------------------

/// What an edit in progress does when committed.
pub enum EditTarget {
    /// Set (or unset, for optional kinds) the setting at `path`.
    Field { path: Vec<Seg>, kind: FieldKind },
    /// Append a new element to the list at `base`.
    NewListItem { base: Vec<Seg>, kind: FieldKind },
    /// First step of adding a map entry: its key. Continues with its value.
    MapKey { base: Vec<Seg>, value_kind: FieldKind },
    /// Set the map value at `path` (an existing or just-named key).
    MapValue { path: Vec<Seg>, kind: FieldKind },
}

/// What committing an edit gives.
pub enum CommitOutcome {
    /// The edit is done and closes.
    Closed,
    /// A list element was appended; the list's cursor moves to `cursor`.
    Appended { cursor: usize },
    /// The edit stays open, showing this error.
    Rejected(String),
    /// A new, empty macro was made at `path`; its parameter form opens.
    MacroCreated { key: String, path: Vec<Seg>, intro: String },
    /// The new key is free; the edit continues with its value.
    AskValue { key: String, label: String, path: Vec<Seg>, kind: FieldKind },
}

/// Whether an object at `base` has an entry `k`.
pub open spec fn has_entry(j: JsonV, base: Seq<SegV>, k: Seq<char>) -> bool {
    spec_get(j, base) matches Some(JsonV::Object(es)) && find_key(es, k, 0) >= 0
}

/// Whether `p` is `base` followed by the key `k`.
pub open spec fn key_path(p: Seq<SegV>, base: Seq<SegV>, k: Seq<char>) -> bool {
    p == base.push(SegV::Key(k))
}

/// Whether a path is the macros map.
pub open spec fn is_macros_path(p: Seq<SegV>) -> bool {
    p == seq![SegV::Key("macros"@)]
}

/// The explanation shown above a new macro's parameter form.
pub open spec fn macro_intro(key: Seq<char>) -> Seq<char> {
    "Parameters merged into commands that use \"macro\": \""@ + key
        + "\". Command parameters override macro parameters."@
}

/// Whether the outcome is `Rejected` with message `m`.
pub open spec fn rejected_with(o: CommitOutcome, m: Seq<char>) -> bool {
    o matches CommitOutcome::Rejected(e) && e@ == m
}

/// What committing a setting's value does (for a plain setting, where
/// `value_required` is false, and for a map value, where it is true).
pub open spec fn commit_value_spec(
    old: JsonV,
    new: JsonV,
    path: Seq<SegV>,
    parsed: Result<Option<JsonV>, Seq<char>>,
    value_required: bool,
    o: CommitOutcome,
    changed: bool,
) -> bool {
    match parsed {
        Ok(Some(v)) => new == spec_set(old, path, v) && o is Closed && changed,
        Ok(None) => if value_required {
            new == old && rejected_with(o, "a value is required"@) && !changed
        } else {
            new == spec_unset(old, path) && o is Closed && changed
        },
        Err(e) => new == old && rejected_with(o, e) && !changed,
    }
}

/// A copy of a path.
pub(crate) fn clone_path(p: &Vec<Seg>) -> (r: Vec<Seg>)
    ensures
        r@ == p@,
{
    let mut out: Vec<Seg> = Vec::new();
    let mut i: usize = 0;
    while i < p.len()
        invariant
            i <= p@.len(),
            out@ == p@.take(i as int),
        decreases p@.len() - i,
    {
        let seg = match &p[i] {
            Seg::Key(k) => Seg::Key(k.clone()),
            Seg::Idx(n) => Seg::Idx(*n),
        };
        proof {
            assert(seg == p@[i as int]);
        }
        out.push(seg);
        proof {
            assert(out@ =~= p@.take(i + 1));
        }
        i += 1;
    }
    proof {
        assert(p@.take(p@.len() as int) =~= p@);
    }
    out
}

fn is_macros_base(base: &Vec<Seg>) -> (r: bool)
    ensures
        r == is_macros_path(path_v(base@)),
{
    if base.len() != 1 {
        proof {
            assert(path_v(base@).len() != 1);
        }
        return false;
    }
    match &base[0] {
        Seg::Key(k) => {
            let r = same_text(k.as_str(), "macros");
            proof {
                if r {
                    assert(path_v(base@) =~= seq![SegV::Key("macros"@)]);
                } else {
                    assert(path_v(base@)[0] != SegV::Key("macros"@));
                }
            }
            r
        },
        Seg::Idx(_) => {
            proof {
                assert(path_v(base@)[0] is Idx);
            }
            false
        },
    }
}

/// What committing an edit of `buffer` aimed at `target` does: the document
/// before and after, the outcome, and whether the document changed.
/// `external` is the outcome computed outside for a float or JSON value.
pub open spec fn commit_spec(
    old: JsonV,
    new: JsonV,
    target: EditTarget,
    buffer: Seq<char>,
    external: Option<Result<Option<JsonV>, Seq<char>>>,
    o: CommitOutcome,
    changed: bool,
) -> bool {
    match target {
        EditTarget::Field { path, kind } => commit_value_spec(
            old,
            new,
            path_v(path@),
            spec_parse_field(kind, buffer, external),
            false,
            o,
            changed,
        ),
        EditTarget::MapValue { path, kind } => commit_value_spec(
            old,
            new,
            path_v(path@),
            spec_parse_field(kind, buffer, external),
            true,
            o,
            changed,
        ),
        EditTarget::NewListItem { base, kind } => match spec_parse_field(
            kind,
            buffer,
            external,
        ) {
            Ok(Some(v)) => new == spec_push(old, path_v(base@), v) && (o matches CommitOutcome::Appended {
                cursor,
            } && cursor == (if spec_list_len(new, path_v(base@)) > 0 {
                spec_list_len(new, path_v(base@)) - 1
            } else {
                0
            })) && changed,
            Ok(None) => new == old && o is Closed && !changed,
            Err(e) => new == old && rejected_with(o, e) && !changed,
        },
        EditTarget::MapKey { base, value_kind } => {
            let k = trim(buffer);
            if k.len() == 0 {
                new == old && rejected_with(o, "a key is required"@) && !changed
            } else if has_entry(old, path_v(base@), k) {
                new == old && rejected_with(o, "'"@ + k + "' already exists"@)
                    && !changed
            } else if is_macros_path(path_v(base@)) {
                o matches CommitOutcome::MacroCreated { key, path, intro } && key@ == k
                    && key_path(path_v(path@), path_v(base@), k) && intro@ == macro_intro(k) && new
                    == spec_set(old, path_v(path@), JsonV::Object(Seq::empty())) && changed
            } else {
                new == old && !changed && (o matches CommitOutcome::AskValue {
                    key,
                    label,
                    path,
                    kind,
                } && key@ == k && label@ == "value for "@ + k && key_path(path_v(path@), path_v(base@), k) && kind
                    == value_kind)
            }
        },
    }
}

/// Commit an edit of the document: parse the typed text for the target and
/// set, unset or append it; or, for a new map key, check it and continue.
/// `external` carries, for a float or JSON setting, the outcome computed
/// outside. The flag says whether the document changed.
pub fn commit_edit(
    doc: &mut ConfigDocument,
    target: &EditTarget,
    buffer: &str,
    external: Option<Result<Option<Json>, String>>,
) -> (r: (CommitOutcome, bool))
    requires
        old(doc).wf(),
        match *target {
            EditTarget::Field { kind, .. } | EditTarget::NewListItem { kind, .. }
            | EditTarget::MapValue { kind, .. } => parsed_outside(kind) ==> external is Some,
            EditTarget::MapKey { .. } => true,
        },
    ensures
        final(doc).wf(),
        commit_spec(old(doc)@, final(doc)@, *target, buffer@, external_view(external), r.0, r.1),
{
    match target {
        EditTarget::Field { path, kind } => match parse_field_value(kind, buffer, external) {
            Ok(Some(v)) => {
                doc.set(path.as_slice(), v);
                (CommitOutcome::Closed, true)
            },
            Ok(None) => {
                doc.unset(path.as_slice());
                (CommitOutcome::Closed, true)
            },
            Err(e) => (CommitOutcome::Rejected(e), false),
        },
        EditTarget::NewListItem { base, kind } => match parse_field_value(kind, buffer, external) {
            Ok(Some(v)) => {
                doc.push(base.as_slice(), v);
                let count = doc.list_len(base.as_slice());
                let cursor = if count > 0 {
                    count - 1
                } else {
                    0
                };
                (CommitOutcome::Appended { cursor }, true)
            },
            Ok(None) => (CommitOutcome::Closed, false),
            Err(e) => (CommitOutcome::Rejected(e), false),
        },
        EditTarget::MapKey { base, value_kind } => {
            let key = trim_text(buffer);
            if key.as_str().unicode_len() == 0 {
                return (CommitOutcome::Rejected("a key is required".to_owned()), false);
            }
            let mut path = clone_path(base);
            path.push(Seg::Key(key.clone()));
            proof {
                assert(path_v(path@) =~= path_v(base@).push(SegV::Key(key@)));
                crate::document::law_get_extended(doc@, path_v(base@), SegV::Key(key@));
            }
            if doc.get(path.as_slice()).is_some() {
                let mut m = "'".to_owned();
                m.append(key.as_str());
                m.append("' already exists");
                return (CommitOutcome::Rejected(m), false);
            }
            if is_macros_base(base) {
                let es: Vec<(String, Json)> = Vec::new();
                let empty = Json::Object(es);
                proof {
                    assert(jv(empty) == JsonV::Object(Seq::empty())) by {
                        crate::document::lemma_empty_object(es);
                    }
                }
                doc.set(path.as_slice(), empty);
                let mut intro = "Parameters merged into commands that use \"macro\": \"".to_owned();
                intro.append(key.as_str());
                intro.append("\". Command parameters override macro parameters.");
                return (CommitOutcome::MacroCreated { key, path, intro }, true);
            }
            let mut label = "value for ".to_owned();
            label.append(key.as_str());
            (CommitOutcome::AskValue { key, label, path, kind: *value_kind }, false)
        },
        EditTarget::MapValue { path, kind } => match parse_field_value(kind, buffer, external) {
            Ok(Some(v)) => {
                doc.set(path.as_slice(), v);
                (CommitOutcome::Closed, true)
            },
            Ok(None) => (CommitOutcome::Rejected("a value is required".to_owned()), false),
            Err(e) => (CommitOutcome::Rejected(e), false),
        },
    }
}

} // verus!
