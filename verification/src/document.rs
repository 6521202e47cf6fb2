//! The configuration file as the editor keeps it: a sparse JSON document in
//! which only the settings explicitly set are present, addressed by paths of
//! keys and list positions.

use crate::editor::{path_v, seg_v, Seg, SegV};
use crate::keyed::same_text;
use vstd::prelude::*;

verus! {

// ---------------------------------------------------------------------------
// JSON values
// ---------------------------------------------------------------------------

/// A JSON number: an unsigned or signed integer, or a float kept as its
/// 64-bit IEEE-754 bit pattern.
#[derive(Clone, Copy, Debug, PartialEq, Eq, Structural)]
pub enum JsonNumber {
    Unsigned(u64),
    Signed(i64),
    Float(u64),
}

/// A JSON value. An object keeps its entries in a list; the editor never
/// holds two entries with one key.
#[derive(Debug)]
pub enum Json {
    Null,
    Bool(bool),
    Number(JsonNumber),
    Str(String),
    Array(Vec<Json>),
    Object(Vec<(String, Json)>),
}

/// The mathematical form of a JSON value.
pub enum JsonV {
    Null,
    Bool(bool),
    Number(JsonNumber),
    Str(Seq<char>),
    Array(Seq<JsonV>),
    Object(Seq<(Seq<char>, JsonV)>),
}

/// The mathematical form of a JSON value.
pub open spec fn jv(j: Json) -> JsonV
    decreases j,
{
    match j {
        Json::Null => JsonV::Null,
        Json::Bool(b) => JsonV::Bool(b),
        Json::Number(n) => JsonV::Number(n),
        Json::Str(s) => JsonV::Str(s@),
        Json::Array(items) => JsonV::Array(
            Seq::new(
                items@.len(),
                |i: int|
                    if 0 <= i < items@.len() {
                        proof {
                            assert(decreases_to!(items => items@[i]));
                        }
                        jv(items@[i])
                    } else {
                        JsonV::Null
                    },
            ),
        ),
        Json::Object(es) => JsonV::Object(
            Seq::new(
                es@.len(),
                |i: int|
                    if 0 <= i < es@.len() {
                        proof {
                            assert(decreases_to!(es => es@[i]));
                            assert(decreases_to!(es@[i] => es@[i].1));
                        }
                        (es@[i].0@, jv(es@[i].1))
                    } else {
                        (Seq::empty(), JsonV::Null)
                    },
            ),
        ),
    }
}

/// The forms of a list of values.
pub open spec fn item_views(items: Seq<Json>) -> Seq<JsonV> {
    Seq::new(items.len(), |i: int| jv(items[i]))
}

/// The forms of a list of object entries.
pub open spec fn entry_views(es: Seq<(String, Json)>) -> Seq<(Seq<char>, JsonV)> {
    Seq::new(es.len(), |i: int| (es[i].0@, jv(es[i].1)))
}

/// A list's form is the list of its elements' forms.
pub proof fn lemma_jv_array(items: Vec<Json>)
    ensures
        jv(Json::Array(items)) == JsonV::Array(item_views(items@)),
{
    assert(jv(Json::Array(items))->Array_0 =~= item_views(items@));
}

/// An object's form is the list of its entries' forms.
pub proof fn lemma_jv_object(es: Vec<(String, Json)>)
    ensures
        jv(Json::Object(es)) == JsonV::Object(entry_views(es@)),
{
    assert(jv(Json::Object(es))->Object_0 =~= entry_views(es@));
}

/// An object without entries is the empty object.
pub proof fn lemma_empty_object(es: Vec<(String, Json)>)
    requires
        es@.len() == 0,
    ensures
        jv(Json::Object(es)) == JsonV::Object(Seq::empty()),
{
    lemma_jv_object(es);
    assert(entry_views(es@) =~= Seq::<(Seq<char>, JsonV)>::empty());
}

// ---------------------------------------------------------------------------
// Objects
// ---------------------------------------------------------------------------

/// The position of the first entry at or after `i` with key `k`, or -1.
pub open spec fn find_key(es: Seq<(Seq<char>, JsonV)>, k: Seq<char>, i: int) -> int
    decreases es.len() - i,
{
    if i < 0 || i >= es.len() {
        -1
    } else if es[i].0 == k {
        i
    } else {
        find_key(es, k, i + 1)
    }
}

/// The entries of an object (none for any other value).
pub open spec fn entries_of(j: JsonV) -> Seq<(Seq<char>, JsonV)> {
    match j {
        JsonV::Object(es) => es,
        _ => Seq::empty(),
    }
}

/// The entries with `k` set to `v`: the entry with that key replaced, or a
/// new entry at the end.
pub open spec fn put_entry(es: Seq<(Seq<char>, JsonV)>, k: Seq<char>, v: JsonV) -> Seq<(Seq<char>, JsonV)> {
    let i = find_key(es, k, 0);
    if i >= 0 {
        es.update(i, (k, v))
    } else {
        es.push((k, v))
    }
}

/// The entries without key `k`.
pub open spec fn remove_key(es: Seq<(Seq<char>, JsonV)>, k: Seq<char>) -> Seq<(Seq<char>, JsonV)> {
    es.filter(other_key(k))
}

/// Whether an entry has a key other than `k`.
pub open spec fn other_key(k: Seq<char>) -> spec_fn((Seq<char>, JsonV)) -> bool {
    |e: (Seq<char>, JsonV)| e.0 != k
}

/// Where the search for a key stops.
pub proof fn lemma_find_key(es: Seq<(Seq<char>, JsonV)>, k: Seq<char>, i: int)
    requires
        0 <= i,
    ensures
        find_key(es, k, i) == -1 ==> forall|m: int| i <= m < es.len() ==> es[m].0 != k,
        find_key(es, k, i) != -1 ==> i <= find_key(es, k, i) < es.len() && es[find_key(es, k, i)].0 == k
            && forall|m: int| i <= m < find_key(es, k, i) ==> es[m].0 != k,
    decreases es.len() - i,
{
    if i < es.len() && es[i].0 != k {
        lemma_find_key(es, k, i + 1);
    }
}

proof fn lemma_find_exact(es: Seq<(Seq<char>, JsonV)>, k: Seq<char>, p: int)
    requires
        0 <= p < es.len(),
        es[p].0 == k,
        forall|m: int| 0 <= m < p ==> es[m].0 != k,
    ensures
        find_key(es, k, 0) == p,
{
    lemma_find_key(es, k, 0);
    if find_key(es, k, 0) == -1 {
        assert(es[p].0 != k);
    }
}

/// The entry with key `k` in a freshly put object is the one put.
proof fn lemma_find_put(es: Seq<(Seq<char>, JsonV)>, k: Seq<char>, v: JsonV)
    ensures
        ({
            let t = put_entry(es, k, v);
            let p = find_key(t, k, 0);
            0 <= p < t.len() && t[p] == (k, v)
        }),
{
    lemma_find_key(es, k, 0);
    let t = put_entry(es, k, v);
    let i = find_key(es, k, 0);
    if i >= 0 {
        lemma_find_exact(t, k, i);
    } else {
        lemma_find_exact(t, k, es.len() as int);
    }
}

proof fn lemma_remove_key_absent(es: Seq<(Seq<char>, JsonV)>, k: Seq<char>)
    ensures
        find_key(remove_key(es, k), k, 0) == -1,
{
    let t = remove_key(es, k);
    lemma_find_key(t, k, 0);
    if find_key(t, k, 0) != -1 {
        let p = find_key(t, k, 0);
        es.lemma_filter_pred(other_key(k), p);
    }
}

/// The position of the first entry with key `k`, as [`find_key`] gives it.
fn find_entry(es: &Vec<(String, Json)>, k: &str) -> (r: Option<usize>)
    ensures
        match r {
            Some(i) => find_key(entry_views(es@), k@, 0) == i as int,
            None => find_key(entry_views(es@), k@, 0) == -1,
        },
{
    let ghost ev = entry_views(es@);
    let mut i: usize = 0;
    while i < es.len()
        invariant
            ev == entry_views(es@),
            i <= es@.len(),
            find_key(ev, k@, 0) == find_key(ev, k@, i as int),
        decreases es@.len() - i,
    {
        if same_text(es[i].0.as_str(), k) {
            return Some(i);
        }
        i += 1;
    }
    None
}

// ---------------------------------------------------------------------------
// Reading by path
// ---------------------------------------------------------------------------

/// The value at the path's segments from `start` on, if every step exists:
/// a key names an entry of an object, a position an element of a list.
pub open spec fn get_from(j: JsonV, path: Seq<SegV>, start: int) -> Option<JsonV>
    decreases path.len() - start,
{
    if start < 0 || start >= path.len() {
        Some(j)
    } else {
        match path[start] {
            SegV::Key(k) => match j {
                JsonV::Object(es) => {
                    let i = find_key(es, k, 0);
                    if i >= 0 {
                        get_from(es[i].1, path, start + 1)
                    } else {
                        None
                    }
                },
                _ => None,
            },
            SegV::Idx(n) => match j {
                JsonV::Array(items) => if n < items.len() {
                    get_from(items[n as int], path, start + 1)
                } else {
                    None
                },
                _ => None,
            },
        }
    }
}

/// A copy of a value.
pub fn copy_json(j: &Json) -> (r: Json)
    ensures
        jv(r) == jv(*j),
    decreases *j,
{
    match j {
        Json::Null => Json::Null,
        Json::Bool(b) => Json::Bool(*b),
        Json::Number(n) => Json::Number(*n),
        Json::Str(s) => Json::Str(s.clone()),
        Json::Array(items) => {
            let mut out: Vec<Json> = Vec::new();
            let mut i: usize = 0;
            while i < items.len()
                invariant
                    *j is Array,
                    (*j)->Array_0 == *items,
                    i <= items@.len(),
                    item_views(out@) == item_views(items@).take(i as int),
                decreases items@.len() - i,
            {
                proof {
                    assert(decreases_to!(*j => (*j)->Array_0));
                    assert(decreases_to!(*items => items@));
                    assert(decreases_to!(items@ => items@[i as int]));
                }
                let c = copy_json(&items[i]);
                let ghost before = out@;
                out.push(c);
                proof {
                    assert(item_views(out@) =~= item_views(before).push(jv(c)));
                    assert(item_views(items@).take(i + 1) =~= item_views(items@).take(i as int).push(
                        jv(items@[i as int]),
                    ));
                }
                i += 1;
            }
            proof {
                assert(item_views(items@).take(items@.len() as int) =~= item_views(items@));
                lemma_jv_array(out);
                lemma_jv_array(*items);
            }
            Json::Array(out)
        },
        Json::Object(es) => {
            let mut out: Vec<(String, Json)> = Vec::new();
            let mut i: usize = 0;
            while i < es.len()
                invariant
                    *j is Object,
                    (*j)->Object_0 == *es,
                    i <= es@.len(),
                    entry_views(out@) == entry_views(es@).take(i as int),
                decreases es@.len() - i,
            {
                proof {
                    assert(decreases_to!(*j => (*j)->Object_0));
                    assert(decreases_to!(*es => es@));
                    assert(decreases_to!(es@ => es@[i as int]));
                    assert(decreases_to!(es@[i as int] => es@[i as int].1));
                }
                let c = copy_json(&es[i].1);
                let name = es[i].0.clone();
                let ghost before = out@;
                out.push((name, c));
                proof {
                    assert(entry_views(out@) =~= entry_views(before).push((name@, jv(c))));
                    assert(entry_views(es@).take(i + 1) =~= entry_views(es@).take(i as int).push(
                        (es@[i as int].0@, jv(es@[i as int].1)),
                    ));
                }
                i += 1;
            }
            proof {
                assert(entry_views(es@).take(es@.len() as int) =~= entry_views(es@));
                lemma_jv_object(out);
                lemma_jv_object(*es);
            }
            Json::Object(out)
        },
    }
}

/// The value of the entry `k` of an object; none for another value.
pub open spec fn member(j: JsonV, k: Seq<char>) -> Option<JsonV> {
    match j {
        JsonV::Object(es) => {
            let i = find_key(es, k, 0);
            if i >= 0 {
                Some(es[i].1)
            } else {
                None
            }
        },
        _ => None,
    }
}

/// The text of a string value.
pub open spec fn text_of(j: Option<JsonV>) -> Option<Seq<char>> {
    match j {
        Some(JsonV::Str(s)) => Some(s),
        _ => None,
    }
}

/// The value of the entry `k` of an object (see [`member`]).
pub fn member_of<'a>(j: &'a Json, k: &str) -> (r: Option<&'a Json>)
    ensures
        match r {
            Some(x) => member(jv(*j), k@) == Some(jv(*x)),
            None => member(jv(*j), k@) is None,
        },
{
    match j {
        Json::Object(es) => {
            proof {
                lemma_jv_object(*es);
            }
            match find_entry(es, k) {
                Some(i) => {
                    proof {
                        lemma_find_key(entry_views(es@), k@, 0);
                    }
                    Some(&es[i].1)
                },
                None => None,
            }
        },
        _ => None,
    }
}

/// The value at `path` in `j` (see [`get_from`]).
pub fn get_at<'a>(j: &'a Json, path: &[Seg], start: usize) -> (r: Option<&'a Json>)
    requires
        start <= path@.len(),
    ensures
        match r {
            Some(x) => get_from(jv(*j), path_v(path@), start as int) == Some(jv(*x)),
            None => get_from(jv(*j), path_v(path@), start as int) is None,
        },
    decreases path@.len() - start,
{
    if start >= path.len() {
        return Some(j);
    }
    match &path[start] {
        Seg::Key(k) => match j {
            Json::Object(es) => {
                proof {
                    lemma_jv_object(*es);
                }
                match find_entry(es, k.as_str()) {
                    Some(i) => {
                        proof {
                            lemma_find_key(entry_views(es@), k@, 0);
                        }
                        get_at(&es[i].1, path, start + 1)
                    },
                    None => None,
                }
            },
            _ => None,
        },
        Seg::Idx(n) => match j {
            Json::Array(items) => {
                proof {
                    lemma_jv_array(*items);
                }
                if *n < items.len() {
                    get_at(&items[*n], path, start + 1)
                } else {
                    None
                }
            },
            _ => None,
        },
    }
}


// ---------------------------------------------------------------------------
// Writing by path
// ---------------------------------------------------------------------------

/// `j` with the item the last segment names set to `v`: a key is set in `j`
/// made an object if it was not one; a position is set only in a list that
/// has it.
pub open spec fn set_last(j: JsonV, seg: SegV, v: JsonV) -> JsonV {
    match seg {
        SegV::Key(k) => JsonV::Object(put_entry(entries_of(j), k, v)),
        SegV::Idx(n) => match j {
            JsonV::Array(items) => if n < items.len() {
                JsonV::Array(items.update(n as int, v))
            } else {
                j
            },
            _ => j,
        },
    }
}

/// `j` with the value at the path's segments from `start` on set to `v`.
/// Missing objects on the way are created (and a value that is not an object
/// where a key is asked for becomes one); a position that does not exist
/// stops the walk there, leaving what lies below unchanged.
pub open spec fn set_from(j: JsonV, path: Seq<SegV>, start: int, v: JsonV) -> JsonV
    decreases path.len() - start,
{
    if start < 0 || start >= path.len() {
        j
    } else if start == path.len() - 1 {
        set_last(j, path[start], v)
    } else {
        match path[start] {
            SegV::Key(k) => {
                let es = entries_of(j);
                let i = find_key(es, k, 0);
                let child = if i >= 0 {
                    es[i].1
                } else {
                    JsonV::Object(Seq::empty())
                };
                JsonV::Object(put_entry(es, k, set_from(child, path, start + 1, v)))
            },
            SegV::Idx(n) => match j {
                JsonV::Array(items) => if n < items.len() {
                    JsonV::Array(items.update(n as int, set_from(items[n as int], path, start + 1, v)))
                } else {
                    j
                },
                _ => j,
            },
        }
    }
}

/// Set `k` to `v` among the entries.
fn put_exec(es: &mut Vec<(String, Json)>, k: &String, v: Json)
    ensures
        entry_views(final(es)@) == put_entry(entry_views(old(es)@), k@, jv(v)),
{
    let ghost ev = entry_views(es@);
    let ghost vv = jv(v);
    proof {
        lemma_find_key(ev, k@, 0);
    }
    match find_entry(es, k.as_str()) {
        Some(i) => {
            es.set(i, (k.clone(), v));
            proof {
                assert(entry_views(es@) =~= ev.update(i as int, (k@, vv)));
            }
        },
        None => {
            es.push((k.clone(), v));
            proof {
                assert(entry_views(es@) =~= ev.push((k@, vv)));
            }
        },
    }
}

/// The entries of `j` when it is an object, none otherwise.
fn into_entries(j: Json) -> (r: Vec<(String, Json)>)
    ensures
        entry_views(r@) == entries_of(jv(j)),
{
    match j {
        Json::Object(es) => {
            proof {
                lemma_jv_object(es);
            }
            es
        },
        _ => {
            let r: Vec<(String, Json)> = Vec::new();
            proof {
                assert(entry_views(r@) =~= Seq::<(Seq<char>, JsonV)>::empty());
            }
            r
        },
    }
}

fn set_last_exec(j: Json, seg: &Seg, v: Json) -> (r: Json)
    ensures
        jv(r) == set_last(jv(j), seg_v(*seg), jv(v)),
{
    match seg {
        Seg::Key(k) => {
            let mut es = into_entries(j);
            put_exec(&mut es, k, v);
            proof {
                lemma_jv_object(es);
            }
            Json::Object(es)
        },
        Seg::Idx(n) => match j {
            Json::Array(items) => {
                let mut items = items;
                let ghost iv = item_views(items@);
                proof {
                    lemma_jv_array(items);
                }
                if *n < items.len() {
                    let ghost vv = jv(v);
                    items.set(*n, v);
                    proof {
                        assert(item_views(items@) =~= iv.update(*n as int, vv));
                    }
                }
                proof {
                    lemma_jv_array(items);
                }
                Json::Array(items)
            },
            other => other,
        },
    }
}

fn set_from_exec(j: Json, path: &[Seg], start: usize, v: Json) -> (r: Json)
    requires
        start < path@.len(),
    ensures
        jv(r) == set_from(jv(j), path_v(path@), start as int, jv(v)),
    decreases path@.len() - start,
{
    if path.len() - start == 1 {
        return set_last_exec(j, &path[start], v);
    }
    let ghost jj = jv(j);
    let ghost vv = jv(v);
    match &path[start] {
        Seg::Key(k) => {
            let mut es = into_entries(j);
            let ghost ev = entry_views(es@);
            proof {
                lemma_find_key(ev, k@, 0);
            }
            match find_entry(&es, k.as_str()) {
                Some(i) => {
                    let mut entry: (String, Json) = (String::new(), Json::Null);
                    es.set_and_swap(i, &mut entry);
                    let (name, child) = entry;
                    let c2 = set_from_exec(child, path, start + 1, v);
                    let ghost cv = jv(c2);
                    let mut back = (name, c2);
                    es.set_and_swap(i, &mut back);
                    proof {
                        assert(entry_views(es@) =~= ev.update(i as int, (k@, cv)));
                        lemma_jv_object(es);
                    }
                    Json::Object(es)
                },
                None => {
                    let fresh: Vec<(String, Json)> = Vec::new();
                    proof {
                        lemma_jv_object(fresh);
                        assert(entry_views(fresh@) =~= Seq::<(Seq<char>, JsonV)>::empty());
                    }
                    let c2 = set_from_exec(Json::Object(fresh), path, start + 1, v);
                    let ghost cv = jv(c2);
                    es.push((k.clone(), c2));
                    proof {
                        assert(entry_views(es@) =~= ev.push((k@, cv)));
                        lemma_jv_object(es);
                    }
                    Json::Object(es)
                },
            }
        },
        Seg::Idx(n) => match j {
            Json::Array(items) => {
                let mut items = items;
                let ghost iv = item_views(items@);
                proof {
                    lemma_jv_array(items);
                }
                if *n < items.len() {
                    let mut slot = Json::Null;
                    items.set_and_swap(*n, &mut slot);
                    let c2 = set_from_exec(slot, path, start + 1, v);
                    let ghost cv = jv(c2);
                    items.set(*n, c2);
                    proof {
                        assert(item_views(items@) =~= iv.update(*n as int, cv));
                    }
                }
                proof {
                    lemma_jv_array(items);
                }
                Json::Array(items)
            },
            other => other,
        },
    }
}


// ---------------------------------------------------------------------------
// Removing by path, and appending to lists
// ---------------------------------------------------------------------------

/// The child a segment names, if present.
pub open spec fn child_at(j: JsonV, seg: SegV) -> Option<JsonV> {
    match seg {
        SegV::Key(k) => match j {
            JsonV::Object(es) => {
                let i = find_key(es, k, 0);
                if i >= 0 {
                    Some(es[i].1)
                } else {
                    None
                }
            },
            _ => None,
        },
        SegV::Idx(n) => match j {
            JsonV::Array(items) => if n < items.len() {
                Some(items[n as int])
            } else {
                None
            },
            _ => None,
        },
    }
}

/// `j` with the present child a segment names replaced by `c`.
pub open spec fn replace_child(j: JsonV, seg: SegV, c: JsonV) -> JsonV {
    match seg {
        SegV::Key(k) => match j {
            JsonV::Object(es) => {
                let i = find_key(es, k, 0);
                JsonV::Object(es.update(i, (es[i].0, c)))
            },
            _ => j,
        },
        SegV::Idx(n) => match j {
            JsonV::Array(items) => JsonV::Array(items.update(n as int, c)),
            _ => j,
        },
    }
}

/// `j` without the item the last segment names: an object loses the key, a
/// list the element at that position.
pub open spec fn remove_last(j: JsonV, seg: SegV) -> JsonV {
    match seg {
        SegV::Key(k) => match j {
            JsonV::Object(es) => JsonV::Object(remove_key(es, k)),
            _ => j,
        },
        SegV::Idx(n) => match j {
            JsonV::Array(items) => if n < items.len() {
                JsonV::Array(items.remove(n as int))
            } else {
                j
            },
            _ => j,
        },
    }
}

/// `j` without the object entry a key segment names (a position removes nothing).
pub open spec fn prune_child(j: JsonV, seg: SegV) -> JsonV {
    match seg {
        SegV::Key(k) => match j {
            JsonV::Object(es) => JsonV::Object(remove_key(es, k)),
            _ => j,
        },
        SegV::Idx(_) => j,
    }
}

/// Whether a value is an object without entries.
pub open spec fn is_empty_object(j: JsonV) -> bool {
    j matches JsonV::Object(es) && es.len() == 0
}

/// `j` with the item at the path's segments from `start` on removed, and the
/// objects this left empty on the way up removed from their parent objects
/// (an empty list, and the document itself, stay). The flag says whether the
/// pruning reached `j` itself.
pub open spec fn unset_from(j: JsonV, path: Seq<SegV>, start: int) -> (JsonV, bool)
    decreases path.len() - start,
{
    if start < 0 || start >= path.len() {
        (j, false)
    } else if start == path.len() - 1 {
        (remove_last(j, path[start]), true)
    } else {
        match child_at(j, path[start]) {
            None => (j, false),
            Some(c) => {
                let (c2, reached) = unset_from(c, path, start + 1);
                let j2 = replace_child(j, path[start], c2);
                if reached && is_empty_object(c2) {
                    (prune_child(j2, path[start]), true)
                } else {
                    (j2, false)
                }
            },
        }
    }
}

/// `j` with `v` appended to the list at the path's segments from `start` on;
/// unchanged when no list is there.
pub open spec fn push_from(j: JsonV, path: Seq<SegV>, start: int, v: JsonV) -> JsonV
    decreases path.len() - start,
{
    if start < 0 || start >= path.len() {
        match j {
            JsonV::Array(items) => JsonV::Array(items.push(v)),
            _ => j,
        }
    } else {
        match child_at(j, path[start]) {
            None => j,
            Some(c) => replace_child(j, path[start], push_from(c, path, start + 1, v)),
        }
    }
}

/// The entries without key `k`.
fn remove_key_exec(es: Vec<(String, Json)>, k: &str) -> (r: Vec<(String, Json)>)
    ensures
        entry_views(r@) == remove_key(entry_views(es@), k@),
{
    let mut es = es;
    let ghost ev = entry_views(es@);
    let n = es.len();
    let mut out: Vec<(String, Json)> = Vec::new();
    let mut i: usize = 0;
    proof {
        reveal(Seq::filter);
        assert(ev.take(0).filter(other_key(k@)) =~= Seq::<(Seq<char>, JsonV)>::empty());
        assert(entry_views(out@) =~= Seq::<(Seq<char>, JsonV)>::empty());
    }
    while i < n
        invariant
            n == es@.len(),
            i <= n,
            forall|m: int| i <= m < n ==> (#[trigger] entry_views(es@)[m]) == ev[m],
            ev.len() == n,
            entry_views(out@) == ev.take(i as int).filter(other_key(k@)),
        decreases n - i,
    {
        let ghost es_before = es@;
        let mut entry: (String, Json) = (String::new(), Json::Null);
        es.set_and_swap(i, &mut entry);
        let ghost e = ev[i as int];
        proof {
            assert(entry_views(es_before)[i as int] == e);
            assert((entry.0@, jv(entry.1)) == e);
            reveal(Seq::filter);
            assert(ev.take(i + 1).drop_last() =~= ev.take(i as int));
            assert(ev.take(i + 1).last() == e);
        }
        if !same_text(entry.0.as_str(), k) {
            let ghost before = entry_views(out@);
            out.push(entry);
            proof {
                assert(entry_views(out@) =~= before.push(e));
            }
        }
        proof {
            assert forall|m: int| i + 1 <= m < n implies (#[trigger] entry_views(es@)[m]) == ev[m] by {
                assert(es@[m] == es_before[m]);
                assert(entry_views(es_before)[m] == ev[m]);
            }
        }
        i += 1;
    }
    proof {
        assert(ev.take(n as int) =~= ev);
    }
    out
}

fn remove_last_exec(j: Json, seg: &Seg) -> (r: Json)
    ensures
        jv(r) == remove_last(jv(j), seg_v(*seg)),
{
    match seg {
        Seg::Key(k) => match j {
            Json::Object(es) => {
                proof {
                    lemma_jv_object(es);
                }
                let es2 = remove_key_exec(es, k.as_str());
                proof {
                    lemma_jv_object(es2);
                }
                Json::Object(es2)
            },
            other => other,
        },
        Seg::Idx(n) => match j {
            Json::Array(items) => {
                let mut items = items;
                let ghost iv = item_views(items@);
                proof {
                    lemma_jv_array(items);
                }
                if *n < items.len() {
                    let _ = items.remove(*n);
                    proof {
                        assert(item_views(items@) =~= iv.remove(*n as int));
                    }
                }
                proof {
                    lemma_jv_array(items);
                }
                Json::Array(items)
            },
            other => other,
        },
    }
}

fn is_empty_object_exec(j: &Json) -> (r: bool)
    ensures
        r == is_empty_object(jv(*j)),
{
    match j {
        Json::Object(es) => {
            proof {
                lemma_jv_object(*es);
            }
            es.len() == 0
        },
        _ => false,
    }
}

fn unset_from_exec(j: Json, path: &[Seg], start: usize) -> (r: (Json, bool))
    requires
        start <= path@.len(),
    ensures
        (jv(r.0), r.1) == unset_from(jv(j), path_v(path@), start as int),
    decreases path@.len() - start,
{
    if start >= path.len() {
        return (j, false);
    }
    if path.len() - start == 1 {
        return (remove_last_exec(j, &path[start]), true);
    }
    match &path[start] {
        Seg::Key(k) => match j {
            Json::Object(es) => {
                let mut es = es;
                let ghost ev = entry_views(es@);
                proof {
                    lemma_jv_object(es);
                    lemma_find_key(ev, k@, 0);
                }
                match find_entry(&es, k.as_str()) {
                    None => (Json::Object(es), false),
                    Some(i) => {
                        let mut entry: (String, Json) = (String::new(), Json::Null);
                        es.set_and_swap(i, &mut entry);
                        let (name, child) = entry;
                        let (c2, reached) = unset_from_exec(child, path, start + 1);
                        let empty = is_empty_object_exec(&c2);
                        let ghost cv = jv(c2);
                        let mut back = (name, c2);
                        es.set_and_swap(i, &mut back);
                        proof {
                            assert(entry_views(es@) =~= ev.update(i as int, (ev[i as int].0, cv)));
                            lemma_jv_object(es);
                        }
                        if reached && empty {
                            let es2 = remove_key_exec(es, k.as_str());
                            proof {
                                lemma_jv_object(es2);
                            }
                            (Json::Object(es2), true)
                        } else {
                            (Json::Object(es), false)
                        }
                    },
                }
            },
            other => (other, false),
        },
        Seg::Idx(n) => match j {
            Json::Array(items) => {
                let mut items = items;
                let ghost iv = item_views(items@);
                proof {
                    lemma_jv_array(items);
                }
                if *n < items.len() {
                    let mut slot = Json::Null;
                    items.set_and_swap(*n, &mut slot);
                    let (c2, reached) = unset_from_exec(slot, path, start + 1);
                    let empty = is_empty_object_exec(&c2);
                    let ghost cv = jv(c2);
                    items.set(*n, c2);
                    proof {
                        assert(item_views(items@) =~= iv.update(*n as int, cv));
                        lemma_jv_array(items);
                    }
                    (Json::Array(items), reached && empty)
                } else {
                    (Json::Array(items), false)
                }
            },
            other => (other, false),
        },
    }
}

fn push_from_exec(j: Json, path: &[Seg], start: usize, v: Json) -> (r: Json)
    requires
        start <= path@.len(),
    ensures
        jv(r) == push_from(jv(j), path_v(path@), start as int, jv(v)),
    decreases path@.len() - start,
{
    let ghost vv = jv(v);
    if start >= path.len() {
        return match j {
            Json::Array(items) => {
                let mut items = items;
                let ghost iv = item_views(items@);
                proof {
                    lemma_jv_array(items);
                }
                items.push(v);
                proof {
                    assert(item_views(items@) =~= iv.push(vv));
                    lemma_jv_array(items);
                }
                Json::Array(items)
            },
            other => other,
        };
    }
    match &path[start] {
        Seg::Key(k) => match j {
            Json::Object(es) => {
                let mut es = es;
                let ghost ev = entry_views(es@);
                proof {
                    lemma_jv_object(es);
                    lemma_find_key(ev, k@, 0);
                }
                match find_entry(&es, k.as_str()) {
                    None => Json::Object(es),
                    Some(i) => {
                        let mut entry: (String, Json) = (String::new(), Json::Null);
                        es.set_and_swap(i, &mut entry);
                        let (name, child) = entry;
                        let c2 = push_from_exec(child, path, start + 1, v);
                        let ghost cv = jv(c2);
                        let mut back = (name, c2);
                        es.set_and_swap(i, &mut back);
                        proof {
                            assert(entry_views(es@) =~= ev.update(i as int, (ev[i as int].0, cv)));
                            lemma_jv_object(es);
                        }
                        Json::Object(es)
                    },
                }
            },
            other => other,
        },
        Seg::Idx(n) => match j {
            Json::Array(items) => {
                let mut items = items;
                let ghost iv = item_views(items@);
                proof {
                    lemma_jv_array(items);
                }
                if *n < items.len() {
                    let mut slot = Json::Null;
                    items.set_and_swap(*n, &mut slot);
                    let c2 = push_from_exec(slot, path, start + 1, v);
                    let ghost cv = jv(c2);
                    items.set(*n, c2);
                    proof {
                        assert(item_views(items@) =~= iv.update(*n as int, cv));
                        lemma_jv_array(items);
                    }
                }
                Json::Array(items)
            },
            other => other,
        },
    }
}


// ---------------------------------------------------------------------------
// The document
// ---------------------------------------------------------------------------

/// The value at `path` in a whole document.
pub open spec fn spec_get(j: JsonV, path: Seq<SegV>) -> Option<JsonV> {
    get_from(j, path, 0)
}

/// A document with the value at `path` set (an empty path changes nothing).
pub open spec fn spec_set(j: JsonV, path: Seq<SegV>, v: JsonV) -> JsonV {
    set_from(j, path, 0, v)
}

/// A document with the item at `path` removed and emptied objects pruned.
pub open spec fn spec_unset(j: JsonV, path: Seq<SegV>) -> JsonV {
    unset_from(j, path, 0).0
}

/// A document with `v` appended to the list at `path`, the list created
/// (replacing whatever was there) when there was none.
pub open spec fn spec_push(j: JsonV, path: Seq<SegV>, v: JsonV) -> JsonV {
    let prep = if spec_get(j, path) matches Some(JsonV::Array(_)) {
        j
    } else {
        spec_set(j, path, JsonV::Array(Seq::empty()))
    };
    push_from(prep, path, 0, v)
}

/// The length of the list at `path` (0 when there is none).
pub open spec fn spec_list_len(j: JsonV, path: Seq<SegV>) -> nat {
    match spec_get(j, path) {
        Some(JsonV::Array(items)) => items.len(),
        _ => 0,
    }
}

/// `j` with the value at `path` replaced by null, where `path` leads to a
/// value; `j` itself otherwise.
pub open spec fn null_if_present(j: JsonV, path: Seq<SegV>) -> JsonV {
    if path.len() > 0 && spec_get(j, path) is Some {
        spec_set(j, path, JsonV::Null)
    } else {
        j
    }
}

/// Replace the value at `path` by null, where there is one.
pub fn null_at(j: Json, path: &[Seg]) -> (r: Json)
    ensures
        jv(r) == null_if_present(jv(j), path_v(path@)),
{
    if path.len() == 0 {
        return j;
    }
    let present = get_at(&j, path, 0).is_some();
    if present {
        set_from_exec(j, path, 0, Json::Null)
    } else {
        j
    }
}

/// Whether every segment of a path is a key.
pub open spec fn all_keys(path: Seq<SegV>) -> bool {
    forall|i: int| 0 <= i < path.len() ==> (#[trigger] path[i]) is Key
}

/// The configuration file being edited, kept as raw JSON so that only the
/// settings explicitly set are written back: untouched settings stay absent
/// (the daemon's compiled-in defaults apply) and unknown keys pass through.
pub struct ConfigDocument {
    root: Json,
}

impl View for ConfigDocument {
    type V = JsonV;

    closed spec fn view(&self) -> JsonV {
        jv(self.root)
    }
}

impl ConfigDocument {
    /// The document is an object.
    pub open spec fn wf(&self) -> bool {
        self@ is Object
    }

    /// An empty document (a new configuration).
    pub fn new() -> (d: Self)
        ensures
            d.wf(),
            d@ == JsonV::Object(Seq::empty()),
    {
        let es: Vec<(String, Json)> = Vec::new();
        let d = ConfigDocument { root: Json::Object(es) };
        proof {
            lemma_jv_object(es);
            assert(entry_views(es@) =~= Seq::<(Seq<char>, JsonV)>::empty());
        }
        d
    }

    /// Wrap an already-parsed configuration file; its root must be an object.
    pub fn from_value(root: Json) -> (r: Result<Self, String>)
        ensures
            match r {
                Ok(d) => d.wf() && d@ == jv(root),
                Err(e) => !(jv(root) is Object) && e@ == "config root must be a JSON object"@,
            },
    {
        match root {
            Json::Object(es) => {
                proof {
                    lemma_jv_object(es);
                }
                Ok(ConfigDocument { root: Json::Object(es) })
            },
            other => Err("config root must be a JSON object".to_owned()),
        }
    }

    /// The raw document.
    pub fn root(&self) -> (r: &Json)
        ensures
            jv(*r) == self@,
    {
        &self.root
    }

    /// The value at `path`, if explicitly set.
    pub fn get(&self, path: &[Seg]) -> (r: Option<&Json>)
        ensures
            match r {
                Some(x) => spec_get(self@, path_v(path@)) == Some(jv(*x)),
                None => spec_get(self@, path_v(path@)) is None,
            },
    {
        get_at(&self.root, path, 0)
    }

    /// Set the value at `path`, creating the objects on the way as needed;
    /// list positions on the way must already exist (lists grow by `push`).
    pub fn set(&mut self, path: &[Seg], value: Json)
        requires
            old(self).wf(),
        ensures
            final(self).wf(),
            final(self)@ == spec_set(old(self)@, path_v(path@), jv(value)),
    {
        if path.len() == 0 {
            return;
        }
        let mut root = Json::Null;
        std::mem::swap(&mut root, &mut self.root);
        self.root = set_from_exec(root, path, 0, value);
    }

    /// Remove the key (or list element) at `path`, then remove the objects
    /// this left empty, from the deepest up (never the document itself, never
    /// a list: an empty section reads the same as an absent one, but an empty
    /// list may mean something).
    pub fn unset(&mut self, path: &[Seg])
        requires
            old(self).wf(),
        ensures
            final(self).wf(),
            final(self)@ == spec_unset(old(self)@, path_v(path@)),
    {
        let mut root = Json::Null;
        std::mem::swap(&mut root, &mut self.root);
        let (r, _) = unset_from_exec(root, path, 0);
        self.root = r;
    }

    /// Append `value` to the list at `path`, creating the list if absent.
    pub fn push(&mut self, path: &[Seg], value: Json)
        requires
            old(self).wf(),
        ensures
            final(self).wf(),
            final(self)@ == spec_push(old(self)@, path_v(path@), jv(value)),
    {
        let is_array = match get_at(&self.root, path, 0) {
            Some(Json::Array(_)) => true,
            _ => false,
        };
        let mut root = Json::Null;
        std::mem::swap(&mut root, &mut self.root);
        let ghost before = jv(root);
        let prep = if is_array || path.len() == 0 {
            root
        } else {
            let empty: Vec<Json> = Vec::new();
            proof {
                lemma_jv_array(empty);
                assert(item_views(empty@) =~= Seq::<JsonV>::empty());
            }
            set_from_exec(root, path, 0, Json::Array(empty))
        };
        proof {
            assert(jv(prep) is Object);
        }
        self.root = push_from_exec(prep, path, 0, value);
    }

    /// Number of elements in the list at `path` (0 when there is none).
    pub fn list_len(&self, path: &[Seg]) -> (r: usize)
        ensures
            r == spec_list_len(self@, path_v(path@)),
    {
        match get_at(&self.root, path, 0) {
            Some(Json::Array(items)) => {
                proof {
                    lemma_jv_array(*items);
                }
                items.len()
            },
            _ => 0,
        }
    }
}

impl Default for ConfigDocument {
    fn default() -> (d: Self)
        ensures
            d.wf(),
            d@ == JsonV::Object(Seq::empty()),
    {
        ConfigDocument::new()
    }
}

// ---------------------------------------------------------------------------
// Laws of the document
// ---------------------------------------------------------------------------

proof fn lemma_find_same_keys(a: Seq<(Seq<char>, JsonV)>, b: Seq<(Seq<char>, JsonV)>, k: Seq<char>, i: int)
    requires
        a.len() == b.len(),
        forall|m: int| 0 <= m < a.len() ==> (#[trigger] a[m]).0 == b[m].0,
    ensures
        find_key(a, k, i) == find_key(b, k, i),
    decreases a.len() - i,
{
    if 0 <= i < a.len() {
        assert(a[i].0 == b[i].0);
        if a[i].0 != k {
            lemma_find_same_keys(a, b, k, i + 1);
        }
    }
}

proof fn lemma_get_set(j: JsonV, path: Seq<SegV>, start: int, v: JsonV)
    requires
        0 <= start < path.len(),
        all_keys(path),
    ensures
        get_from(set_from(j, path, start, v), path, start) == Some(v),
    decreases path.len() - start,
{
    assert(path[start] is Key);
    let k = path[start]->Key_0;
    let es = entries_of(j);
    lemma_find_key(es, k, 0);
    if start == path.len() - 1 {
        lemma_find_put(es, k, v);
        assert(get_from(v, path, start + 1) == Some(v));
    } else {
        let i = find_key(es, k, 0);
        let child = if i >= 0 {
            es[i].1
        } else {
            JsonV::Object(Seq::empty())
        };
        let c2 = set_from(child, path, start + 1, v);
        lemma_find_put(es, k, c2);
        lemma_get_set(child, path, start + 1, v);
    }
}

/// Reading a path extended by one segment reads that child of what the
/// shorter path reads.
pub proof fn law_get_extended(j: JsonV, base: Seq<SegV>, seg: SegV)
    ensures
        spec_get(j, base.push(seg)) == (match spec_get(j, base) {
            Some(x) => child_at(x, seg),
            None => None,
        }),
{
    lemma_get_extend(j, base, seg, 0);
}

proof fn lemma_get_extend(j: JsonV, base: Seq<SegV>, seg: SegV, start: int)
    requires
        0 <= start <= base.len(),
    ensures
        get_from(j, base.push(seg), start) == (match get_from(j, base, start) {
            Some(x) => child_at(x, seg),
            None => None,
        }),
    decreases base.len() - start,
{
    let p = base.push(seg);
    if start == base.len() {
        match seg {
            SegV::Key(k) => {
                if let JsonV::Object(es) = j {
                    let i = find_key(es, k, 0);
                    lemma_find_key(es, k, 0);
                    if i >= 0 {
                        assert(get_from(es[i].1, p, start + 1) == Some(es[i].1));
                    }
                }
            },
            SegV::Idx(n) => {
                if let JsonV::Array(items) = j {
                    if n < items.len() {
                        assert(get_from(items[n as int], p, start + 1) == Some(items[n as int]));
                    }
                }
            },
        }
    } else {
        assert(p[start] == base[start]);
        match base[start] {
            SegV::Key(k) => {
                if let JsonV::Object(es) = j {
                    let i = find_key(es, k, 0);
                    lemma_find_key(es, k, 0);
                    if i >= 0 {
                        lemma_get_extend(es[i].1, base, seg, start + 1);
                    }
                }
            },
            SegV::Idx(n) => {
                if let JsonV::Array(items) = j {
                    if n < items.len() {
                        lemma_get_extend(items[n as int], base, seg, start + 1);
                    }
                }
            },
        }
    }
}

/// Reading back a path of keys just set gives the value set.
pub proof fn law_get_after_set(j: JsonV, path: Seq<SegV>, v: JsonV)
    requires
        path.len() > 0,
        all_keys(path),
    ensures
        spec_get(spec_set(j, path, v), path) == Some(v),
{
    lemma_get_set(j, path, 0, v);
}

proof fn lemma_get_unset(j: JsonV, path: Seq<SegV>, start: int)
    requires
        0 <= start < path.len(),
        all_keys(path),
    ensures
        get_from(unset_from(j, path, start).0, path, start) is None,
    decreases path.len() - start,
{
    assert(path[start] is Key);
    let k = path[start]->Key_0;
    if start == path.len() - 1 {
        if let JsonV::Object(es) = j {
            lemma_remove_key_absent(es, k);
        }
    } else {
        match child_at(j, path[start]) {
            None => {},
            Some(c) => {
                lemma_get_unset(c, path, start + 1);
                let es = entries_of(j);
                let i = find_key(es, k, 0);
                lemma_find_key(es, k, 0);
                let (c2, reached) = unset_from(c, path, start + 1);
                let es2 = es.update(i, (es[i].0, c2));
                lemma_find_same_keys(es2, es, k, 0);
                if reached && is_empty_object(c2) {
                    lemma_remove_key_absent(es2, k);
                }
            },
        }
    }
}

/// A path of keys just unset reads as absent.
pub proof fn law_get_after_unset(j: JsonV, path: Seq<SegV>)
    requires
        path.len() > 0,
        all_keys(path),
    ensures
        spec_get(spec_unset(j, path), path) is None,
{
    lemma_get_unset(j, path, 0);
}

proof fn lemma_get_push(j: JsonV, path: Seq<SegV>, start: int, v: JsonV, items: Seq<JsonV>)
    requires
        0 <= start <= path.len(),
        get_from(j, path, start) == Some(JsonV::Array(items)),
    ensures
        get_from(push_from(j, path, start, v), path, start) == Some(JsonV::Array(items.push(v))),
    decreases path.len() - start,
{
    if start < path.len() {
        match path[start] {
            SegV::Key(k) => {
                let es = entries_of(j);
                let i = find_key(es, k, 0);
                lemma_find_key(es, k, 0);
                let c = es[i].1;
                lemma_get_push(c, path, start + 1, v, items);
                let es2 = es.update(i, (es[i].0, push_from(c, path, start + 1, v)));
                lemma_find_same_keys(es2, es, k, 0);
            },
            SegV::Idx(n) => {
                if let JsonV::Array(xs) = j {
                    lemma_get_push(xs[n as int], path, start + 1, v, items);
                }
            },
        }
    }
}

/// Appending to a list at a path of keys makes it one element longer (a list
/// is created where there was none).
pub proof fn law_push_grows_list(j: JsonV, path: Seq<SegV>, v: JsonV)
    requires
        path.len() > 0,
        all_keys(path),
    ensures
        spec_list_len(spec_push(j, path, v), path) == spec_list_len(j, path) + 1,
        spec_get(spec_push(j, path, v), path) matches Some(JsonV::Array(items)) && items.last() == v,
{
    if let Some(JsonV::Array(items)) = spec_get(j, path) {
        lemma_get_push(j, path, 0, v, items);
    } else {
        let prep = spec_set(j, path, JsonV::Array(Seq::empty()));
        law_get_after_set(j, path, JsonV::Array(Seq::empty()));
        lemma_get_push(prep, path, 0, v, Seq::empty());
    }
}


proof fn lemma_find_put_other(es: Seq<(Seq<char>, JsonV)>, k: Seq<char>, w: JsonV, k2: Seq<char>)
    requires
        k2 != k,
    ensures
        find_key(put_entry(es, k, w), k2, 0) == find_key(es, k2, 0),
        find_key(es, k2, 0) >= 0 ==> put_entry(es, k, w)[find_key(es, k2, 0)].1 == es[find_key(
            es,
            k2,
            0,
        )].1,
{
    let t = put_entry(es, k, w);
    let i = find_key(es, k, 0);
    lemma_find_key(es, k, 0);
    lemma_find_key(es, k2, 0);
    lemma_find_key(t, k2, 0);
    let f = find_key(es, k2, 0);
    if f >= 0 {
        assert(t[f].0 == k2);
        assert forall|m: int| 0 <= m < f implies t[m].0 != k2 by {
            assert(es[m].0 != k2);
        }
        lemma_find_exact(t, k2, f);
    } else {
        let g = find_key(t, k2, 0);
        if g >= 0 {
            if g < es.len() {
                assert(es[g].0 == t[g].0);
            }
        }
    }
}

/// Setting a path of keys leaves alone what another path reads, when the
/// two part at the key at position `i` after agreeing on `start..i`.
proof fn lemma_get_set_other(j: JsonV, p: Seq<SegV>, q: Seq<SegV>, v: JsonV, start: int, i: int)
    requires
        0 <= start <= i,
        i < p.len(),
        i < q.len(),
        all_keys(p),
        all_keys(q),
        p[i] != q[i],
        forall|m: int| start <= m < i ==> p[m] == q[m],
    ensures
        get_from(set_from(j, p, start, v), q, start) == get_from(j, q, start),
    decreases i - start,
{
    assert(p[start] is Key);
    assert(q[start] is Key);
    let kp = p[start]->Key_0;
    let kq = q[start]->Key_0;
    let es = entries_of(j);
    let idx = find_key(es, kp, 0);
    lemma_find_key(es, kp, 0);
    let child = if idx >= 0 {
        es[idx].1
    } else {
        JsonV::Object(Seq::empty())
    };
    if start < i {
        assert(p[start] == q[start]);
        let c2 = set_from(child, p, start + 1, v);
        lemma_find_put(es, kp, c2);
        lemma_get_set_other(child, p, q, v, start + 1, i);
        if !(j is Object) || idx < 0 {
            assert(q[start + 1] is Key);
        }
    } else {
        let w = if start == p.len() - 1 {
            v
        } else {
            set_from(child, p, start + 1, v)
        };
        assert(set_from(j, p, start, v) == JsonV::Object(put_entry(es, kp, w)));
        lemma_find_put_other(es, kp, w, kq);
        lemma_find_key(es, kq, 0);
    }
}

/// Setting one setting leaves every other untouched: after a path of keys is
/// set, any path of keys that is not on it reads as before (unknown and
/// untouched keys pass through).
pub proof fn law_set_leaves_others(j: JsonV, p: Seq<SegV>, q: Seq<SegV>, v: JsonV)
    requires
        all_keys(p),
        all_keys(q),
        !p.is_prefix_of(q),
        !q.is_prefix_of(p),
    ensures
        spec_get(spec_set(j, p, v), q) == spec_get(j, q),
{
    let n = if p.len() < q.len() {
        p.len()
    } else {
        q.len()
    };
    let i = choose|i: int| 0 <= i < n && p[i] != q[i] && forall|m: int| 0 <= m < i ==> p[m] == q[m];
    assert(exists|i: int| 0 <= i < n && p[i] != q[i] && forall|m: int| 0 <= m < i ==> p[m] == q[m]) by {
        lemma_first_difference(p, q, 0);
    }
    lemma_get_set_other(j, p, q, v, 0, i);
}

proof fn lemma_first_difference(p: Seq<SegV>, q: Seq<SegV>, k: int)
    requires
        0 <= k,
        !p.is_prefix_of(q),
        !q.is_prefix_of(p),
        forall|m: int| 0 <= m < k ==> p[m] == q[m],
        k <= p.len(),
        k <= q.len(),
    ensures
        exists|i: int|
            0 <= i < (if p.len() < q.len() {
                p.len()
            } else {
                q.len()
            }) && p[i] != q[i] && forall|m: int| 0 <= m < i ==> p[m] == q[m],
    decreases p.len() - k,
{
    if k == p.len() {
        assert(p.is_prefix_of(q));
    } else if k == q.len() {
        assert(q.is_prefix_of(p));
    } else if p[k] != q[k] {
        assert(0 <= k < (if p.len() < q.len() {
            p.len()
        } else {
            q.len()
        }) && p[k] != q[k] && forall|m: int| 0 <= m < k ==> p[m] == q[m]);
    } else {
        lemma_first_difference(p, q, k + 1);
    }
}


proof fn lemma_member_push(es: Seq<(Seq<char>, JsonV)>, x: (Seq<char>, JsonV), k: Seq<char>)
    ensures
        member(JsonV::Object(es.push(x)), k) == if member(JsonV::Object(es), k) is Some {
            member(JsonV::Object(es), k)
        } else if x.0 == k {
            Some(x.1)
        } else {
            None
        },
{
    let t = es.push(x);
    lemma_find_key(es, k, 0);
    lemma_find_key(t, k, 0);
    let f = find_key(es, k, 0);
    if f >= 0 {
        assert(t[f] == es[f]);
        assert forall|m: int| 0 <= m < f implies t[m].0 != k by {
            assert(t[m] == es[m]);
        }
        lemma_find_exact(t, k, f);
    } else if x.0 == k {
        assert(t[es.len() as int] == x);
        assert forall|m: int| 0 <= m < es.len() implies t[m].0 != k by {
            assert(t[m] == es[m]);
        }
        lemma_find_exact(t, k, es.len() as int);
    } else {
        let g = find_key(t, k, 0);
        if g >= 0 {
            if g < es.len() {
                assert(t[g] == es[g]);
            }
        }
    }
}

proof fn lemma_member_remove_other(es: Seq<(Seq<char>, JsonV)>, k: Seq<char>, k2: Seq<char>)
    requires
        k2 != k,
    ensures
        member(JsonV::Object(remove_key(es, k)), k2) == member(JsonV::Object(es), k2),
    decreases es.len(),
{
    reveal(Seq::filter);
    if es.len() == 0 {
        assert(remove_key(es, k) =~= es);
    } else {
        let front = es.drop_last();
        let x = es.last();
        lemma_member_remove_other(front, k, k2);
        assert(es =~= front.push(x));
        lemma_member_push(front, x, k2);
        if x.0 != k {
            assert(remove_key(es, k) == remove_key(front, k).push(x));
            lemma_member_push(remove_key(front, k), x, k2);
        } else {
            assert(remove_key(es, k) == remove_key(front, k));
        }
    }
}

proof fn lemma_member_update_other(es: Seq<(Seq<char>, JsonV)>, idx: int, c: JsonV, k2: Seq<char>)
    requires
        0 <= idx < es.len(),
        es[idx].0 != k2,
    ensures
        member(JsonV::Object(es.update(idx, (es[idx].0, c))), k2) == member(JsonV::Object(es), k2),
{
    let t = es.update(idx, (es[idx].0, c));
    lemma_find_same_keys(t, es, k2, 0);
    lemma_find_key(es, k2, 0);
}

/// Unsetting a path of keys leaves alone what another path reads, when the
/// two part at the key at position `i` after agreeing on `start..i`.
proof fn lemma_get_unset_other(j: JsonV, p: Seq<SegV>, q: Seq<SegV>, start: int, i: int)
    requires
        0 <= start <= i,
        i < p.len(),
        i < q.len(),
        all_keys(p),
        all_keys(q),
        p[i] != q[i],
        forall|m: int| start <= m < i ==> p[m] == q[m],
    ensures
        get_from(unset_from(j, p, start).0, q, start) == get_from(j, q, start),
    decreases i - start,
{
    assert(p[start] is Key);
    assert(q[start] is Key);
    let kp = p[start]->Key_0;
    let kq = q[start]->Key_0;
    if start == i {
        assert(kp != kq);
        if let JsonV::Object(es) = j {
            lemma_find_key(es, kq, 0);
            if start == p.len() - 1 {
                lemma_member_remove_other(es, kp, kq);
            } else {
                match child_at(j, p[start]) {
                    None => {},
                    Some(c) => {
                        let idx = find_key(es, kp, 0);
                        lemma_find_key(es, kp, 0);
                        let (c2, reached) = unset_from(c, p, start + 1);
                        lemma_member_update_other(es, idx, c2, kq);
                        if reached && is_empty_object(c2) {
                            lemma_member_remove_other(es.update(idx, (es[idx].0, c2)), kp, kq);
                        }
                        let es2 = es.update(idx, (es[idx].0, c2));
                        lemma_find_key(es2, kq, 0);
                        lemma_find_key(remove_key(es2, kp), kq, 0);
                    },
                }
            }
        }
    } else {
        assert(p[start] == q[start]);
        match child_at(j, p[start]) {
            None => {},
            Some(c) => {
                lemma_get_unset_other(c, p, q, start + 1, i);
                let es = entries_of(j);
                let idx = find_key(es, kp, 0);
                lemma_find_key(es, kp, 0);
                let (c2, reached) = unset_from(c, p, start + 1);
                let es2 = es.update(idx, (es[idx].0, c2));
                lemma_find_same_keys(es2, es, kp, 0);
                if reached && is_empty_object(c2) {
                    lemma_remove_key_absent(es2, kp);
                    assert(q[start + 1] is Key);
                }
            },
        }
    }
}

/// Unsetting one setting leaves every other untouched: after a path of keys
/// is unset, any path of keys that is not on it reads as before.
pub proof fn law_unset_leaves_others(j: JsonV, p: Seq<SegV>, q: Seq<SegV>)
    requires
        all_keys(p),
        all_keys(q),
        !p.is_prefix_of(q),
        !q.is_prefix_of(p),
    ensures
        spec_get(spec_unset(j, p), q) == spec_get(j, q),
{
    let n = if p.len() < q.len() {
        p.len()
    } else {
        q.len()
    };
    assert(exists|i: int| 0 <= i < n && p[i] != q[i] && forall|m: int| 0 <= m < i ==> p[m] == q[m]) by {
        lemma_first_difference(p, q, 0);
    }
    let i = choose|i: int| 0 <= i < n && p[i] != q[i] && forall|m: int| 0 <= m < i ==> p[m] == q[m];
    lemma_get_unset_other(j, p, q, 0, i);
}

} // verus!
