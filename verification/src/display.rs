//! How the editor shows values: counts of list items and map entries,
//! masked secrets, memory budgets, and one-line summaries of the structures
//! in lists. The text is built from pieces; the few a float or JSON text
//! makes are left for the caller to write.

use crate::document::{jv, lemma_jv_array, lemma_jv_object, member, member_of, text_of, Json, JsonNumber, JsonV};
use crate::editor_keys::number_text;
use crate::editor_state::{as_u64, as_u64_exec, LevelKind, Row};
use crate::fields::{FieldKind, StructListKind};
use crate::text::{decimal, push_decimal};
use vstd::prelude::*;

verus! {

/// A piece of shown text.
#[derive(Debug)]
pub enum Piece {
    Text(String),
    /// A float, as Rust writes an `f64`.
    Float(u64),
    /// A number times 100, rounded to a whole number.
    Percent(JsonNumber),
    /// A value as JSON text.
    JsonText(Json),
}

/// The mathematical form of a piece.
pub enum PieceV {
    Text(Seq<char>),
    Float(u64),
    Percent(JsonNumber),
    JsonText(JsonV),
}

/// The form of a piece.
pub open spec fn piece_v(p: Piece) -> PieceV {
    match p {
        Piece::Text(s) => PieceV::Text(s@),
        Piece::Float(b) => PieceV::Float(b),
        Piece::Percent(n) => PieceV::Percent(n),
        Piece::JsonText(j) => PieceV::JsonText(jv(j)),
    }
}

/// The forms of pieces.
pub open spec fn pieces_v(ps: Seq<Piece>) -> Seq<PieceV> {
    ps.map_values(|p: Piece| piece_v(p))
}

/// Text alone.
pub open spec fn text(t: Seq<char>) -> Seq<PieceV> {
    seq![PieceV::Text(t)]
}

/// How a number is written: an integer as its decimal text, a float left to
/// the caller.
pub open spec fn number_pieces(n: JsonNumber) -> Seq<PieceV> {
    match number_text(n) {
        Some(t) => text(t),
        None => seq![PieceV::Float(n->Float_0)],
    }
}

/// "[n item]" or "[n items]".
pub open spec fn items_text(n: nat) -> Seq<char> {
    "["@ + decimal(n) + " item"@ + (if n == 1 {
        Seq::empty()
    } else {
        "s"@
    }) + "]"@
}

/// "{n entry}" or "{n entries}".
pub open spec fn entries_text(n: nat) -> Seq<char> {
    "{"@ + decimal(n) + (if n == 1 {
        " entry}"@
    } else {
        " entries}"@
    })
}

/// How a value of `kind` is shown: a secret masked, a switch as on/off,
/// lists and maps by their size, a memory budget by its mode, anything else
/// as itself.
pub open spec fn display_spec(kind: FieldKind, v: JsonV) -> Seq<PieceV> {
    match kind {
        FieldKind::Secret => text(
            if v is Null {
                "(unset)"@
            } else {
                "********"@
            },
        ),
        FieldKind::Flag => text(
            if v is Null {
                "off"@
            } else {
                "on"@
            },
        ),
        FieldKind::StringList | FieldKind::ChannelRefList | FieldKind::VoiceRefList
        | FieldKind::StructList(_) => text(
            match v {
                JsonV::Array(items) => items_text(items.len()),
                _ => items_text(0),
            },
        ),
        FieldKind::MapToUInt | FieldKind::MapToFloat { .. } | FieldKind::MapToJson => text(
            match v {
                JsonV::Object(es) => entries_text(es.len()),
                _ => entries_text(0),
            },
        ),
        FieldKind::MemoryBudget => match v {
            JsonV::Object(_) => match text_of(member(v, "mode"@)) {
                Some(m) => if m == "auto"@ {
                    let fraction = match member(v, "fraction"@) {
                        Some(JsonV::Number(n)) => n,
                        _ => JsonNumber::Float(0x3fd999999999999a),
                    };
                    let floor = match as_u64(member(v, "floor_mb"@).unwrap_or(JsonV::Null)) {
                        Some(n) => n,
                        None => 128,
                    };
                    let ceiling = match as_u64(member(v, "ceiling_mb"@).unwrap_or(JsonV::Null)) {
                        Some(n) => n,
                        None => 1024,
                    };
                    seq![
                        PieceV::Text("auto ("@),
                        PieceV::Percent(fraction),
                        PieceV::Text(
                            "% of RAM, "@ + decimal(floor as nat) + " - "@ + decimal(ceiling as nat)
                                + " MiB)"@,
                        ),
                    ]
                } else if m == "explicit"@ {
                    let mb = match as_u64(member(v, "mb"@).unwrap_or(JsonV::Null)) {
                        Some(n) => n,
                        None => 0,
                    };
                    text("explicit ("@ + decimal(mb as nat) + " MiB)"@)
                } else if m == "unlimited"@ {
                    text("unlimited"@)
                } else {
                    text("(invalid)"@)
                },
                None => text("(invalid)"@),
            },
            _ => text("(not set)"@),
        },
        _ => match v {
            JsonV::Null => text("(unset)"@),
            JsonV::Str(s) => text(s),
            JsonV::Bool(b) => text(
                if b {
                    "true"@
                } else {
                    "false"@
                },
            ),
            JsonV::Number(n) => number_pieces(n),
            _ => seq![PieceV::JsonText(v)],
        },
    }
}

fn text_piece(s: &str) -> (r: Vec<Piece>)
    ensures
        pieces_v(r@) == text(s@),
{
    let r = vec![Piece::Text(s.to_owned())];
    proof {
        assert(pieces_v(r@) =~= text(s@));
    }
    r
}

fn owned_piece(s: String) -> (r: Vec<Piece>)
    ensures
        pieces_v(r@) == text(s@),
{
    let ghost v = s@;
    let r = vec![Piece::Text(s)];
    proof {
        assert(pieces_v(r@) =~= text(v));
    }
    r
}

fn number_piece(n: JsonNumber) -> (r: Vec<Piece>)
    ensures
        pieces_v(r@) == number_pieces(n),
{
    match crate::editor_keys::number_string(n) {
        Some(t) => owned_piece(t),
        None => {
            let b = match n {
                JsonNumber::Float(b) => b,
                _ => 0,
            };
            let r = vec![Piece::Float(b)];
            proof {
                assert(pieces_v(r@) =~= number_pieces(n));
            }
            r
        },
    }
}

fn items_string(n: usize) -> (r: String)
    ensures
        r@ == items_text(n as nat),
{
    let mut s = "[".to_owned();
    push_decimal(&mut s, n as u64);
    s.append(" item");
    if n != 1 {
        s.append("s");
    }
    s.append("]");
    proof {
        reveal_strlit("");
        if n == 1 {
            assert(s@ =~= items_text(n as nat));
        } else {
            assert(s@ =~= items_text(n as nat));
        }
    }
    s
}

fn entries_string(n: usize) -> (r: String)
    ensures
        r@ == entries_text(n as nat),
{
    let mut s = "{".to_owned();
    push_decimal(&mut s, n as u64);
    if n == 1 {
        s.append(" entry}");
    } else {
        s.append(" entries}");
    }
    s
}

/// A member as an unsigned integer, or `dflt`.
fn member_u64(v: &Json, k: &str, dflt: u64) -> (r: u64)
    ensures
        r == match as_u64(member(jv(*v), k@).unwrap_or(JsonV::Null)) {
            Some(n) => n,
            None => dflt,
        },
{
    match member_of(v, k) {
        Some(x) => match as_u64_exec(x) {
            Some(n) => n,
            None => dflt,
        },
        None => dflt,
    }
}

/// How a value of `kind` is shown (see [`display_spec`]).
pub fn display_value(kind: &FieldKind, value: &Json) -> (r: Vec<Piece>)
    ensures
        pieces_v(r@) == display_spec(*kind, jv(*value)),
{
    match kind {
        FieldKind::Secret => match value {
            Json::Null => text_piece("(unset)"),
            _ => text_piece("********"),
        },
        FieldKind::Flag => match value {
            Json::Null => text_piece("off"),
            _ => text_piece("on"),
        },
        FieldKind::StringList | FieldKind::ChannelRefList | FieldKind::VoiceRefList
        | FieldKind::StructList(_) => match value {
            Json::Array(items) => {
                proof {
                    lemma_jv_array(*items);
                }
                owned_piece(items_string(items.len()))
            },
            _ => owned_piece(items_string(0)),
        },
        FieldKind::MapToUInt | FieldKind::MapToFloat { .. } | FieldKind::MapToJson => match value {
            Json::Object(es) => {
                proof {
                    lemma_jv_object(*es);
                }
                owned_piece(entries_string(es.len()))
            },
            _ => owned_piece(entries_string(0)),
        },
        FieldKind::MemoryBudget => match value {
            Json::Object(_) => match member_of(value, "mode") {
                Some(Json::Str(m)) => {
                    if crate::keyed::same_text(m.as_str(), "auto") {
                        let fraction = match member_of(value, "fraction") {
                            Some(Json::Number(n)) => *n,
                            _ => JsonNumber::Float(0x3fd999999999999a),
                        };
                        let floor = member_u64(value, "floor_mb", 128);
                        let ceiling = member_u64(value, "ceiling_mb", 1024);
                        let mut tail = "% of RAM, ".to_owned();
                        push_decimal(&mut tail, floor);
                        tail.append(" - ");
                        push_decimal(&mut tail, ceiling);
                        tail.append(" MiB)");
                        let ghost tv = tail@;
                        let r = vec![
                            Piece::Text("auto (".to_owned()),
                            Piece::Percent(fraction),
                            Piece::Text(tail),
                        ];
                        proof {
                            assert(pieces_v(r@) =~= display_spec(*kind, jv(*value)));
                        }
                        r
                    } else if crate::keyed::same_text(m.as_str(), "explicit") {
                        let mb = member_u64(value, "mb", 0);
                        let mut s = "explicit (".to_owned();
                        push_decimal(&mut s, mb);
                        s.append(" MiB)");
                        owned_piece(s)
                    } else if crate::keyed::same_text(m.as_str(), "unlimited") {
                        text_piece("unlimited")
                    } else {
                        text_piece("(invalid)")
                    }
                },
                _ => text_piece("(invalid)"),
            },
            _ => text_piece("(not set)"),
        },
        _ => match value {
            Json::Null => text_piece("(unset)"),
            Json::Str(s) => owned_piece(s.clone()),
            Json::Bool(b) => if *b {
                text_piece("true")
            } else {
                text_piece("false")
            },
            Json::Number(n) => number_piece(*n),
            _ => {
                let r = vec![Piece::JsonText(crate::document::copy_json(value))];
                proof {
                    assert(pieces_v(r@) =~= display_spec(*kind, jv(*value)));
                }
                r
            },
        },
    }
}


/// The texts among values, in order.
pub open spec fn texts_of(items: Seq<JsonV>) -> Seq<Seq<char>>
    decreases items.len(),
{
    if items.len() == 0 {
        Seq::empty()
    } else {
        let front = texts_of(items.drop_last());
        match items.last() {
            JsonV::Str(s) => front.push(s),
            _ => front,
        }
    }
}

/// Texts joined with ", ".
pub open spec fn join_comma(ts: Seq<Seq<char>>) -> Seq<char>
    decreases ts.len(),
{
    if ts.len() == 0 {
        Seq::empty()
    } else if ts.len() == 1 {
        ts[0]
    } else {
        join_comma(ts.drop_last()) + ", "@ + ts.last()
    }
}

/// How a channel reference of a route is shown: its number or alias, else "?".
pub open spec fn channel_pieces(o: Option<JsonV>) -> Seq<PieceV> {
    match o {
        Some(JsonV::Number(n)) => number_pieces(n),
        Some(JsonV::Str(s)) => text(s),
        _ => text("?"@),
    }
}

/// The one-line summary of a structure of a list.
pub open spec fn summary_spec(k: StructListKind, v: JsonV) -> Seq<PieceV> {
    if !(v is Object) {
        text("(invalid)"@)
    } else {
        match k {
            StructListKind::DuckingRules => {
                let primary = match text_of(member(v, "primary_voice"@)) {
                    Some(p) => p,
                    None => Seq::empty(),
                };
                if primary.len() == 0 {
                    text("(unconfigured — set primary_voice)"@)
                } else {
                    let ducked = match member(v, "ducked_voices"@) {
                        Some(JsonV::Array(items)) => texts_of(items),
                        _ => Seq::empty(),
                    };
                    let ducked_text = if ducked.len() == 0 {
                        "(no voices)"@
                    } else {
                        join_comma(ducked)
                    };
                    let target = match member(v, "target_volume"@) {
                        Some(JsonV::Number(n)) => n,
                        _ => JsonNumber::Float(0x3fe0000000000000),
                    };
                    let fade = match as_u64(member(v, "fade_duration_ms"@).unwrap_or(JsonV::Null)) {
                        Some(n) => n,
                        None => 500,
                    };
                    seq![
                        PieceV::Text("\""@ + primary + "\" ducks "@ + ducked_text + " → "@),
                        PieceV::Percent(target),
                        PieceV::Text("% over "@ + decimal(fade as nat) + "ms"@),
                    ]
                }
            },
            StructListKind::Routes => text("in "@) + channel_pieces(member(v, "source_channel"@))
                + text(" → out "@) + channel_pieces(member(v, "dest_channel"@)),
            StructListKind::Inputs => {
                let device = match text_of(member(v, "device"@)) {
                    Some(d) => "\""@ + d + "\""@,
                    None => "(default device)"@,
                };
                let voice = match text_of(member(v, "voice_id"@)) {
                    Some(s) => s,
                    None => "mic"@,
                };
                let routes = match member(v, "routes"@) {
                    Some(JsonV::Array(items)) => items.len(),
                    _ => 0,
                };
                let routes_text = if routes == 0 {
                    "no routes!"@
                } else if routes == 1 {
                    "1 route"@
                } else {
                    decimal(routes) + " routes"@
                };
                text(device + " → voice \""@ + voice + "\", "@ + routes_text)
            },
        }
    }
}

/// How a row of a level of kind `lk` is shown: a structure of a list by its
/// summary, a value kept as JSON as JSON text, anything else by its kind.
pub open spec fn row_display_spec(lk: LevelKind, kind: FieldKind, value: JsonV, as_json: bool) -> Seq<PieceV> {
    match lk {
        LevelKind::StructList(k) => summary_spec(k, value),
        _ => if as_json {
            seq![PieceV::JsonText(value)]
        } else {
            display_spec(kind, value)
        },
    }
}

fn channel_piece(o: Option<&Json>) -> (r: Vec<Piece>)
    ensures
        pieces_v(r@) == channel_pieces(match o {
            Some(x) => Some(jv(*x)),
            None => None,
        }),
{
    match o {
        Some(Json::Number(n)) => number_piece(*n),
        Some(Json::Str(s)) => owned_piece(s.clone()),
        _ => text_piece("?"),
    }
}

/// The summary of a ducking rule (see [`summary_spec`]).
fn summarize_rule(value: &Json) -> (r: Vec<Piece>)
    requires
        jv(*value) is Object,
    ensures
        pieces_v(r@) == summary_spec(StructListKind::DuckingRules, jv(*value)),
{
    let primary: String = match member_of(value, "primary_voice") {
        Some(Json::Str(p)) => p.clone(),
        _ => String::new(),
    };
    if primary.as_str().unicode_len() == 0 {
        return text_piece("(unconfigured — set primary_voice)");
    }
    let ghost ducked_v = match member(jv(*value), "ducked_voices"@) {
        Some(JsonV::Array(items)) => texts_of(items),
        _ => Seq::<Seq<char>>::empty(),
    };
    let mut ducked = String::new();
    let mut count: usize = 0;
    match member_of(value, "ducked_voices") {
        Some(Json::Array(items)) => {
            proof {
                lemma_jv_array(*items);
            }
            let ghost iv = crate::document::item_views(items@);
            let mut i: usize = 0;
            proof {
                assert(iv.take(0) =~= Seq::<JsonV>::empty());
            }
            while i < items.len()
                invariant
                    i <= items@.len(),
                    iv == crate::document::item_views(items@),
                    count == texts_of(iv.take(i as int)).len(),
                    count <= i,
                    ducked@ == join_comma(texts_of(iv.take(i as int))),
                decreases items@.len() - i,
            {
                let ghost ts = texts_of(iv.take(i as int));
                proof {
                    assert(iv.take(i + 1).drop_last() =~= iv.take(i as int));
                    assert(iv.take(i + 1).last() == jv(items@[i as int]));
                }
                match &items[i] {
                    Json::Str(s) => {
                        if count > 0 {
                            ducked.append(", ");
                        }
                        ducked.append(s.as_str());
                        count = count + 1;
                        proof {
                            assert(texts_of(iv.take(i + 1)) == ts.push(s@));
                            assert(ts.push(s@).drop_last() =~= ts);
                            if ts.len() == 0 {
                                assert(ducked@ =~= s@);
                            }
                        }
                    },
                    _ => {},
                }
                i += 1;
            }
            proof {
                assert(iv.take(items@.len() as int) =~= iv);
            }
        },
        _ => {},
    }
    if count == 0 {
        ducked = "(no voices)".to_owned();
    }
    let target = match member_of(value, "target_volume") {
        Some(Json::Number(n)) => *n,
        _ => JsonNumber::Float(0x3fe0000000000000),
    };
    let fade = member_u64(value, "fade_duration_ms", 500);
    let mut head = "\"".to_owned();
    head.append(primary.as_str());
    head.append("\" ducks ");
    head.append(ducked.as_str());
    head.append(" → ");
    let mut tail = "% over ".to_owned();
    push_decimal(&mut tail, fade);
    tail.append("ms");
    let ghost hv = head@;
    let ghost tv = tail@;
    proof {
        let ducked_text = if ducked_v.len() == 0 {
            "(no voices)"@
        } else {
            join_comma(ducked_v)
        };
        assert(ducked@ == ducked_text);
        assert(hv =~= "\""@ + primary@ + "\" ducks "@ + ducked_text + " → "@);
        assert(tv =~= "% over "@ + decimal(fade as nat) + "ms"@);
    }
    let r = vec![Piece::Text(head), Piece::Percent(target), Piece::Text(tail)];
    proof {
        assert(pieces_v(r@) =~= summary_spec(StructListKind::DuckingRules, jv(*value)));
    }
    r
}

/// The one-line summary of a structure of a list (see [`summary_spec`]).
pub fn summarize(k: StructListKind, value: &Json) -> (r: Vec<Piece>)
    ensures
        pieces_v(r@) == summary_spec(k, jv(*value)),
{
    match value {
        Json::Object(es) => {
            proof {
                lemma_jv_object(*es);
            }
        },
        _ => {
            proof {
                assert(!(jv(*value) is Object));
            }
            return text_piece("(invalid)");
        },
    }
    match k {
        StructListKind::DuckingRules => summarize_rule(value),
        StructListKind::Routes => {
            let mut r = text_piece("in ");
            let mut src = channel_piece(member_of(value, "source_channel"));
            let mut mid = text_piece(" → out ");
            let mut dst = channel_piece(member_of(value, "dest_channel"));
            let ghost (a, b, c, d) = (pieces_v(r@), pieces_v(src@), pieces_v(mid@), pieces_v(dst@));
            let ghost (ra, rb, rc, rd) = (r@, src@, mid@, dst@);
            r.append(&mut src);
            r.append(&mut mid);
            r.append(&mut dst);
            proof {
                assert(r@ =~= ra + rb + rc + rd);
                assert(pieces_v(r@) =~= a + b + c + d);
            }
            r
        },
        StructListKind::Inputs => {
            let mut s = match member_of(value, "device") {
                Some(Json::Str(d)) => {
                    let mut t = "\"".to_owned();
                    t.append(d.as_str());
                    t.append("\"");
                    t
                },
                _ => "(default device)".to_owned(),
            };
            s.append(" → voice \"");
            match member_of(value, "voice_id") {
                Some(Json::Str(v)) => s.append(v.as_str()),
                _ => s.append("mic"),
            }
            s.append("\", ");
            let routes: usize = match member_of(value, "routes") {
                Some(Json::Array(items)) => {
                    proof {
                        lemma_jv_array(*items);
                    }
                    items.len()
                },
                _ => 0,
            };
            let ghost before = s@;
            if routes == 0 {
                s.append("no routes!");
            } else if routes == 1 {
                s.append("1 route");
            } else {
                push_decimal(&mut s, routes as u64);
                s.append(" routes");
            }
            proof {
                let v = jv(*value);
                let device = match text_of(member(v, "device"@)) {
                    Some(d) => "\""@ + d + "\""@,
                    None => "(default device)"@,
                };
                let voice = match text_of(member(v, "voice_id"@)) {
                    Some(x) => x,
                    None => "mic"@,
                };
                let rt = if routes == 0 {
                    "no routes!"@
                } else if routes == 1 {
                    "1 route"@
                } else {
                    decimal(routes as nat) + " routes"@
                };
                assert(before =~= device + " → voice \""@ + voice + "\", "@);
                assert(s@ =~= device + " → voice \""@ + voice + "\", "@ + rt);
            }
            owned_piece(s)
        },
    }
}

/// How a row of a level of kind `lk` is shown (see [`row_display_spec`]).
pub fn row_display(lk: LevelKind, row: &Row) -> (r: Vec<Piece>)
    ensures
        pieces_v(r@) == row_display_spec(lk, row.kind, jv(row.value), row.as_json),
{
    match lk {
        LevelKind::StructList(k) => summarize(k, &row.value),
        _ => if row.as_json {
            let r = vec![Piece::JsonText(crate::document::copy_json(&row.value))];
            proof {
                assert(pieces_v(r@) =~= seq![PieceV::JsonText(jv(row.value))]);
            }
            r
        } else {
            display_value(&row.kind, &row.value)
        },
    }
}

} // verus!
