//! A small name-keyed map with a proved model, used for the caches' indexes and
//! the configuration's name tables.

use vstd::prelude::*;

verus! {

/// No name appears twice.
pub open spec fn distinct_names<V>(r: Seq<(String, V)>) -> bool {
    forall|i: int, j: int| 0 <= i < j < r.len() ==> r[i].0@ != r[j].0@
}

/// Whether some item is stored under `url`.
pub open spec fn has_name<V>(r: Seq<(String, V)>, url: Seq<char>) -> bool {
    exists|i: int| 0 <= i < r.len() && r[i].0@ == url
}

/// The position of the item stored under `url`, or -1.
pub open spec fn name_index<V>(r: Seq<(String, V)>, url: Seq<char>) -> int {
    if has_name(r, url) {
        choose|i: int| 0 <= i < r.len() && r[i].0@ == url
    } else {
        -1
    }
}

/// The items as a map from name to value.
pub open spec fn as_map<V>(r: Seq<(String, V)>) -> Map<Seq<char>, V> {
    Map::new(|u: Seq<char>| has_name(r, u), |u: Seq<char>| r[name_index(r, u)].1)
}

proof fn lemma_name_index<V>(r: Seq<(String, V)>, url: Seq<char>, i: int)
    requires
        distinct_names(r),
        0 <= i < r.len(),
        r[i].0@ == url,
    ensures
        name_index(r, url) == i,
        has_name(r, url),
{
    assert(has_name(r, url));
}

proof fn lemma_map_push<V>(r: Seq<(String, V)>, url: String, e: V)
    requires
        distinct_names(r),
        !has_name(r, url@),
    ensures
        distinct_names(r.push((url, e))),
        as_map(r.push((url, e))) == as_map(r).insert(url@, e),
{
    let t = r.push((url, e));
    assert forall|a: int, b: int| 0 <= a < b < t.len() implies t[a].0@ != t[b].0@ by {
        assert(t[a] == r[a]);
        if b < r.len() {
            assert(t[b] == r[b]);
        }
    }
    assert forall|u: Seq<char>| #[trigger] has_name(t, u) == (has_name(r, u) || u == url@) by {
        if has_name(r, u) {
            let i = choose|i: int| 0 <= i < r.len() && r[i].0@ == u;
            assert(t[i] == r[i]);
        }
        if u == url@ {
            assert(t[r.len() as int].0@ == u);
        }
        if has_name(t, u) && u != url@ {
            let i = choose|i: int| 0 <= i < t.len() && t[i].0@ == u;
            assert(t[i] == r[i]);
        }
    }
    assert forall|u: Seq<char>| has_name(t, u) implies t[name_index(t, u)].1 == as_map(r).insert(
        url@,
        e,
    )[u] by {
        if u == url@ {
            lemma_name_index(t, u, r.len() as int);
        } else {
            let i = name_index(r, u);
            lemma_name_index(r, u, choose|i: int| 0 <= i < r.len() && r[i].0@ == u);
            assert(t[i] == r[i]);
            lemma_name_index(t, u, i);
        }
    }
    assert(as_map(t) =~= as_map(r).insert(url@, e));
}

proof fn lemma_map_update<V>(r: Seq<(String, V)>, i: int, url: String, e: V)
    requires
        distinct_names(r),
        0 <= i < r.len(),
        r[i].0@ == url@,
    ensures
        distinct_names(r.update(i, (url, e))),
        as_map(r.update(i, (url, e))) == as_map(r).insert(url@, e),
{
    let t = r.update(i, (url, e));
    assert forall|a: int, b: int| 0 <= a < b < t.len() implies t[a].0@ != t[b].0@ by {
        assert(t[a].0@ == r[a].0@);
        assert(t[b].0@ == r[b].0@);
    }
    assert forall|u: Seq<char>| #[trigger] has_name(t, u) == has_name(r, u) by {
        if has_name(r, u) {
            let j = choose|j: int| 0 <= j < r.len() && r[j].0@ == u;
            assert(t[j].0@ == u);
        }
        if has_name(t, u) {
            let j = choose|j: int| 0 <= j < t.len() && t[j].0@ == u;
            assert(r[j].0@ == u);
        }
    }
    assert forall|u: Seq<char>| has_name(t, u) implies t[name_index(t, u)].1 == as_map(r).insert(
        url@,
        e,
    )[u] by {
        let j = choose|j: int| 0 <= j < r.len() && r[j].0@ == u;
        lemma_name_index(r, u, j);
        assert(t[j].0@ == u);
        lemma_name_index(t, u, j);
    }
    assert(as_map(t) =~= as_map(r).insert(url@, e));
}

proof fn lemma_map_remove<V>(r: Seq<(String, V)>, i: int)
    requires
        distinct_names(r),
        0 <= i < r.len(),
    ensures
        distinct_names(r.remove(i)),
        as_map(r.remove(i)) == as_map(r).remove(r[i].0@),
{
    let t = r.remove(i);
    let url = r[i].0@;
    assert forall|a: int, b: int| 0 <= a < b < t.len() implies t[a].0@ != t[b].0@ by {
        let a2 = if a < i { a } else { a + 1 };
        let b2 = if b < i { b } else { b + 1 };
        assert(t[a] == r[a2]);
        assert(t[b] == r[b2]);
    }
    assert forall|u: Seq<char>| #[trigger] has_name(t, u) == (has_name(r, u) && u != url) by {
        if has_name(t, u) {
            let j = choose|j: int| 0 <= j < t.len() && t[j].0@ == u;
            let j2 = if j < i { j } else { j + 1 };
            assert(t[j] == r[j2]);
        }
        if has_name(r, u) && u != url {
            let j = choose|j: int| 0 <= j < r.len() && r[j].0@ == u;
            assert(j != i);
            let j2 = if j < i { j } else { j - 1 };
            assert(t[j2] == r[j]);
        }
    }
    assert forall|u: Seq<char>| has_name(t, u) implies t[name_index(t, u)].1 == as_map(r).remove(
        url,
    )[u] by {
        let j = choose|j: int| 0 <= j < t.len() && t[j].0@ == u;
        let j2 = if j < i { j } else { j + 1 };
        assert(t[j] == r[j2]);
        lemma_name_index(r, u, j2);
        lemma_name_index(t, u, j);
    }
    assert(as_map(t) =~= as_map(r).remove(url));
}

proof fn lemma_map_len<V>(r: Seq<(String, V)>)
    requires
        distinct_names(r),
    ensures
        as_map(r).dom().finite(),
        as_map(r).len() == r.len(),
    decreases r.len(),
{
    if r.len() == 0 {
        assert(as_map(r).dom() =~= Set::<Seq<char>>::empty());
    } else {
        let t = r.drop_last();
        let last = r.last();
        assert(distinct_names(t));
        lemma_map_len(t);
        if has_name(t, last.0@) {
            let j = choose|j: int| 0 <= j < t.len() && t[j].0@ == last.0@;
            assert(r[j] == t[j]);
            assert(false);
        }
        lemma_map_push(t, last.0, last.1);
        assert(t.push((last.0, last.1)) =~= r);
    }
}

/// Equality of two strings' text, compared character by character.
pub(crate) fn same_text(a: &str, b: &str) -> (r: bool)
    ensures
        r == (a@ == b@),
{
    let n = a.unicode_len();
    if n != b.unicode_len() {
        return false;
    }
    let mut i: usize = 0;
    while i < n
        invariant
            n == a@.len(),
            n == b@.len(),
            i <= n,
            forall|j: int| 0 <= j < i ==> a@[j] == b@[j],
        decreases n - i,
    {
        if a.get_char(i) != b.get_char(i) {
            return false;
        }
        i += 1;
    }
    proof {
        assert(a@ =~= b@);
    }
    true
}

/// A small map from names to values, kept as a vector of `(name, value)`
/// items with no name twice. Iteration follows insertion order.
pub struct KeyedVec<V> {
    items: Vec<(String, V)>,
}

impl<V> View for KeyedVec<V> {
    type V = Map<Seq<char>, V>;

    /// Name to value.
    closed spec fn view(&self) -> Map<Seq<char>, V> {
        as_map(self.items@)
    }
}

impl<V> KeyedVec<V> {
    /// The items, in storage order.
    pub closed spec fn items(&self) -> Seq<(String, V)> {
        self.items@
    }

    /// Well-formedness: no name appears twice.
    pub closed spec fn wf(&self) -> bool {
        distinct_names(self.items@)
    }

    /// The view is the map of the items, whose names are distinct.
    pub proof fn lemma_view(&self)
        requires
            self.wf(),
        ensures
            self@ == as_map(self.items()),
            distinct_names(self.items()),
            self@.dom().finite(),
            self@.len() == self.items().len(),
    {
        lemma_map_len(self.items@);
    }

    /// An empty map.
    pub fn new() -> (m: Self)
        ensures
            m.wf(),
            m@ == Map::<Seq<char>, V>::empty(),
            m.items().len() == 0,
    {
        let m = KeyedVec { items: Vec::new() };
        assert(m@ =~= Map::<Seq<char>, V>::empty());
        m
    }

    /// The position of the item stored under `name`.
    pub fn find(&self, name: &str) -> (r: Option<usize>)
        requires
            self.wf(),
        ensures
            match r {
                Some(i) => i < self.items().len() && self.items()[i as int].0@ == name@
                    && name_index(self.items(), name@) == i && has_name(self.items(), name@),
                None => !has_name(self.items(), name@),
            },
    {
        let mut i: usize = 0;
        while i < self.items.len()
            invariant
                self.wf(),
                i <= self.items@.len(),
                forall|j: int| 0 <= j < i ==> self.items@[j].0@ != name@,
            decreases self.items@.len() - i,
        {
            if same_text(self.items[i].0.as_str(), name) {
                proof {
                    lemma_name_index(self.items@, name@, i as int);
                }
                return Some(i);
            }
            i += 1;
        }
        None
    }

    /// The item at position `i`.
    pub fn item(&self, i: usize) -> (r: &(String, V))
        requires
            i < self.items().len(),
        ensures
            *r == self.items()[i as int],
    {
        &self.items[i]
    }

    /// The value stored under `name`, if any.
    pub fn get(&self, name: &str) -> (r: Option<&V>)
        requires
            self.wf(),
        ensures
            match r {
                Some(v) => self@.contains_key(name@) && *v == self@[name@],
                None => !self@.contains_key(name@),
            },
    {
        match self.find(name) {
            Some(i) => Some(&self.items[i].1),
            None => None,
        }
    }

    /// Whether something is stored under `name`.
    pub fn contains_key(&self, name: &str) -> (r: bool)
        requires
            self.wf(),
        ensures
            r == self@.contains_key(name@),
    {
        self.find(name).is_some()
    }

    /// Store `value` under `name`, replacing what was there (in place).
    pub fn insert(&mut self, name: String, value: V)
        requires
            old(self).wf(),
        ensures
            final(self).wf(),
            final(self)@ == old(self)@.insert(name@, value),
    {
        match self.find(name.as_str()) {
            Some(i) => {
                proof {
                    lemma_map_update(self.items@, i as int, name, value);
                }
                self.items.set(i, (name, value));
            },
            None => {
                proof {
                    lemma_map_push(self.items@, name, value);
                }
                self.items.push((name, value));
            },
        }
    }

    /// Take out the value stored under `name`, returning it.
    pub fn remove(&mut self, name: &str) -> (r: Option<V>)
        requires
            old(self).wf(),
        ensures
            final(self).wf(),
            final(self)@ == old(self)@.remove(name@),
            match r {
                Some(v) => old(self)@.contains_key(name@) && v == old(self)@[name@],
                None => !old(self)@.contains_key(name@),
            },
    {
        match self.find(name) {
            Some(i) => {
                proof {
                    lemma_map_remove(self.items@, i as int);
                }
                let (_, v) = self.items.remove(i);
                Some(v)
            },
            None => {
                proof {
                    assert(self@.remove(name@) =~= self@);
                }
                None
            },
        }
    }

    /// Drop every item.
    pub fn clear(&mut self)
        requires
            old(self).wf(),
        ensures
            final(self).wf(),
            final(self)@ == Map::<Seq<char>, V>::empty(),
            final(self).items().len() == 0,
    {
        self.items.clear();
        assert(self@ =~= Map::<Seq<char>, V>::empty());
    }

    /// The number of items.
    pub fn len(&self) -> (r: usize)
        requires
            self.wf(),
        ensures
            r == self.items().len(),
            r == self@.len(),
    {
        proof {
            lemma_map_len(self.items@);
        }
        self.items.len()
    }

    /// A copy of every name, in storage order.
    pub fn names(&self) -> (r: Vec<String>)
        requires
            self.wf(),
        ensures
            r@.len() == self.items().len(),
            forall|i: int| 0 <= i < r@.len() ==> #[trigger] r@[i]@ == self.items()[i].0@,
            r@.map_values(|s: String| s@).to_set() == self@.dom(),
            r@.map_values(|s: String| s@).no_duplicates(),
    {
        let mut out: Vec<String> = Vec::new();
        let mut i: usize = 0;
        while i < self.items.len()
            invariant
                self.wf(),
                i <= self.items@.len(),
                out@.len() == i,
                forall|j: int| 0 <= j < i ==> #[trigger] out@[j]@ == self.items@[j].0@,
            decreases self.items@.len() - i,
        {
            out.push(self.items[i].0.clone());
            i += 1;
        }
        proof {
            let names = out@.map_values(|s: String| s@);
            assert forall|k: Seq<char>| names.to_set().contains(k) == self@.dom().contains(k) by {
                if names.to_set().contains(k) {
                    let j = choose|j: int| 0 <= j < names.len() && names[j] == k;
                    assert(self.items@[j].0@ == k);
                }
                if self@.dom().contains(k) {
                    let j = choose|j: int| 0 <= j < self.items@.len() && self.items@[j].0@ == k;
                    assert(names[j] == k);
                }
            }
            assert(names.to_set() =~= self@.dom());
            assert forall|a: int, b: int| 0 <= a < names.len() && 0 <= b < names.len() && a != b
                implies names[a] != names[b] by {
                if a < b {
                    assert(self.items@[a].0@ != self.items@[b].0@);
                } else {
                    assert(self.items@[b].0@ != self.items@[a].0@);
                }
            }
        }
        out
    }
}

} // verus!
