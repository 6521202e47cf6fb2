//! Memory cache for decoded audio buffers, bounded by a hard byte cap.
//!
//! Entries are kept in least-recently-used order: the front of the sequence is
//! the next eviction candidate, and every hit or store moves an entry to the back.
//! An entry whose buffer is still referenced outside the cache (it is playing) is
//! protected: it is never evicted, and its bytes count against the room left for
//! new buffers.

use crate::audio::DecodedBuffer;
use crate::config::MemoryCap;
use crate::keyed::same_text;
use std::sync::Arc;
use vstd::prelude::*;

verus! {

/// Returned by [`MemoryCache::try_put`] when a buffer cannot be cached under the
/// hard cap (only protected entries remain, or it is larger than the whole cap).
#[derive(Debug, PartialEq, Eq, Structural)]
pub struct CacheFull;

/// One resident buffer: the key it is stored under, the shared buffer, and the
/// bytes it accounts for.
pub struct ResidentEntry {
    pub key: String,
    pub buffer: Arc<DecodedBuffer>,
    pub size_bytes: usize,
}

/// Memory cache for decoded audio buffers.
pub struct MemoryCache {
    /// Resident entries, least recently used first.
    entries: Vec<ResidentEntry>,
    /// Maximum cache size in bytes (`None` = unlimited).
    max_size_bytes: Option<usize>,
    /// Bytes currently accounted for by resident entries.
    current_size_bytes: usize,
}

// ---------------------------------------------------------------------------
// The model
// ---------------------------------------------------------------------------

/// Total bytes accounted for by a sequence of entries.
pub open spec fn total_bytes(s: Seq<ResidentEntry>) -> nat
    decreases s.len(),
{
    if s.len() == 0 {
        0
    } else {
        total_bytes(s.drop_last()) + s.last().size_bytes as nat
    }
}

/// Bytes held by entries flagged as protected (still referenced outside the
/// cache), leaving out any entry stored under `except`.
pub open spec fn protected_bytes(s: Seq<ResidentEntry>, prot: Seq<bool>, except: Seq<char>) -> nat
    decreases s.len(),
{
    if s.len() == 0 {
        0
    } else {
        let i = s.len() - 1;
        protected_bytes(s.drop_last(), prot.take(i), except) + if prot[i] && s[i].key@ != except {
            s[i].size_bytes as nat
        } else {
            0nat
        }
    }
}

/// Bytes held by every entry flagged as protected.
pub open spec fn all_protected_bytes(s: Seq<ResidentEntry>, prot: Seq<bool>) -> nat
    decreases s.len(),
{
    if s.len() == 0 {
        0
    } else {
        let i = s.len() - 1;
        all_protected_bytes(s.drop_last(), prot.take(i)) + if prot[i] {
            s[i].size_bytes as nat
        } else {
            0nat
        }
    }
}

/// No two entries share a key.
pub open spec fn distinct_keys(s: Seq<ResidentEntry>) -> bool {
    forall|i: int, j: int| 0 <= i < j < s.len() ==> s[i].key@ != s[j].key@
}

/// Whether some entry is stored under `k`.
pub open spec fn has_key(s: Seq<ResidentEntry>, k: Seq<char>) -> bool {
    exists|i: int| 0 <= i < s.len() && s[i].key@ == k
}

/// The position of the entry stored under `k`, or -1 when there is none.
pub open spec fn key_index(s: Seq<ResidentEntry>, k: Seq<char>) -> int {
    if has_key(s, k) {
        choose|i: int| 0 <= i < s.len() && s[i].key@ == k
    } else {
        -1
    }
}

/// `s` with the entry stored under `k` (if any) taken out.
pub open spec fn without_key(s: Seq<ResidentEntry>, k: Seq<char>) -> Seq<ResidentEntry> {
    let i = key_index(s, k);
    if i < 0 {
        s
    } else {
        s.remove(i)
    }
}

/// The protection flags aligned with `without_key(s, k)`.
pub open spec fn flags_without_key(s: Seq<ResidentEntry>, prot: Seq<bool>, k: Seq<char>) -> Seq<bool> {
    let i = key_index(s, k);
    if i < 0 {
        prot
    } else {
        prot.remove(i)
    }
}

/// The first unprotected position, or -1 when every entry is protected.
pub open spec fn first_evictable(prot: Seq<bool>) -> int
    decreases prot.len(),
{
    if prot.len() == 0 {
        -1
    } else if !prot[0] {
        0
    } else {
        let j = first_evictable(prot.drop_first());
        if j < 0 {
            -1
        } else {
            j + 1
        }
    }
}

/// Evict unprotected entries in least-recently-used order until `need` more
/// bytes fit under `cap`, or nothing evictable is left. Returns the survivors
/// and their protection flags.
pub open spec fn evict_lru(s: Seq<ResidentEntry>, prot: Seq<bool>, need: nat, cap: nat) -> (
    Seq<ResidentEntry>,
    Seq<bool>,
)
    decreases s.len(),
{
    if total_bytes(s) + need <= cap {
        (s, prot)
    } else {
        let i = first_evictable(prot);
        if i < 0 || i >= s.len() || s.len() != prot.len() {
            (s, prot)
        } else {
            evict_lru(s.remove(i), prot.remove(i), need, cap)
        }
    }
}

/// `a - b`, or 0 when `b > a`.
pub open spec fn saturating_diff(a: int, b: int) -> int {
    if a >= b {
        a - b
    } else {
        0
    }
}

/// Whether a buffer of `size` bytes is refused under `cap` given the protection
/// flags: it is larger than the whole cap, or than what is left of the cap once
/// every evictable entry (and any entry it replaces) is gone.
pub open spec fn refuses(
    s: Seq<ResidentEntry>,
    prot: Seq<bool>,
    cap: Option<usize>,
    key: Seq<char>,
    size: int,
) -> bool {
    match cap {
        None => false,
        Some(max) => size > max || size > saturating_diff(max as int, protected_bytes(s, prot, key) as int),
    }
}

/// The entries after admitting `buffer` under `key`: any entry it replaces is
/// taken out, unprotected entries are evicted in LRU order until it fits under
/// the cap, and the new entry becomes the most recently used.
pub open spec fn admitted(
    s: Seq<ResidentEntry>,
    prot: Seq<bool>,
    cap: Option<usize>,
    key: String,
    buffer: Arc<DecodedBuffer>,
) -> Seq<ResidentEntry> {
    let size = buffer.spec_size_bytes();
    let base = without_key(s, key@);
    let base_prot = flags_without_key(s, prot, key@);
    let kept = match cap {
        None => base,
        Some(max) => evict_lru(base, base_prot, size as nat, max as nat).0,
    };
    kept.push(ResidentEntry { key, buffer, size_bytes: size as usize })
}

/// Whether `out` is what storing `buffer` under `key` may leave of `s` under
/// `cap`: for the reference counts the buffers have when it stores (which
/// only the running program knows), the unchanged entries when the buffer is
/// refused, the admitted ones otherwise.
pub open spec fn stored(
    s: Seq<ResidentEntry>,
    cap: Option<usize>,
    key: String,
    buffer: Arc<DecodedBuffer>,
    out: Seq<ResidentEntry>,
) -> bool {
    exists|c: Seq<usize>|
        #![trigger refuses(s, flags_of(c), cap, key@, buffer.spec_size_bytes())]
        observed(c, s) && if refuses(s, flags_of(c), cap, key@, buffer.spec_size_bytes()) {
            out == s
        } else {
            out == admitted(s, flags_of(c), cap, key, buffer)
        }
}

/// `s` with the entry at position `i` moved to the most-recently-used end.
pub open spec fn touched(s: Seq<ResidentEntry>, i: int) -> Seq<ResidentEntry> {
    s.remove(i).push(s[i])
}

/// The byte cap a [`MemoryCap`] stands for.
pub open spec fn cap_bytes(cap: MemoryCap) -> Option<usize> {
    match cap {
        MemoryCap::Unlimited => None,
        MemoryCap::Bytes(n) => Some(n),
    }
}

impl View for MemoryCache {
    type V = Seq<ResidentEntry>;

    /// Resident entries, least recently used first.
    closed spec fn view(&self) -> Seq<ResidentEntry> {
        self.entries@
    }
}

impl MemoryCache {
    /// The hard cap in bytes, `None` when unlimited.
    pub closed spec fn cap(&self) -> Option<usize> {
        self.max_size_bytes
    }

    /// Well-formedness: keys are distinct, every entry accounts for exactly its
    /// buffer's bytes, the running total matches, and the total is within the cap.
    pub closed spec fn wf(&self) -> bool {
        &&& distinct_keys(self.entries@)
        &&& forall|i: int|
            0 <= i < self.entries@.len() ==> #[trigger] self.entries@[i].size_bytes
                == self.entries@[i].buffer.spec_size_bytes()
        &&& self.current_size_bytes == total_bytes(self.entries@)
        &&& match self.max_size_bytes {
            None => true,
            Some(max) => self.current_size_bytes <= max,
        }
    }

    /// Bytes accounted for by resident entries.
    pub open spec fn spec_current(&self) -> nat {
        total_bytes(self@)
    }
}


// ---------------------------------------------------------------------------
// Lemmas about the model
// ---------------------------------------------------------------------------

proof fn lemma_total_push(s: Seq<ResidentEntry>, e: ResidentEntry)
    ensures
        total_bytes(s.push(e)) == total_bytes(s) + e.size_bytes,
{
    assert(s.push(e).drop_last() =~= s);
}

proof fn lemma_total_remove(s: Seq<ResidentEntry>, i: int)
    requires
        0 <= i < s.len(),
    ensures
        total_bytes(s.remove(i)) + s[i].size_bytes == total_bytes(s),
    decreases s.len(),
{
    if i == s.len() - 1 {
        assert(s.remove(i) =~= s.drop_last());
    } else {
        let t = s.drop_last();
        assert(s.remove(i).drop_last() =~= t.remove(i));
        assert(s.remove(i).last() == s.last());
        lemma_total_remove(t, i);
    }
}

proof fn lemma_total_prefix(s: Seq<ResidentEntry>, i: int)
    requires
        0 <= i <= s.len(),
    ensures
        total_bytes(s.take(i)) <= total_bytes(s),
    decreases s.len(),
{
    if i < s.len() {
        assert(s.drop_last().take(i) =~= s.take(i));
        lemma_total_prefix(s.drop_last(), i);
    } else {
        assert(s.take(i) =~= s);
    }
}

proof fn lemma_protected_le_total(s: Seq<ResidentEntry>, prot: Seq<bool>, ex: Seq<char>)
    ensures
        protected_bytes(s, prot, ex) <= total_bytes(s),
    decreases s.len(),
{
    if s.len() > 0 {
        lemma_protected_le_total(s.drop_last(), prot.take(s.len() - 1), ex);
    }
}

proof fn lemma_all_protected_le_total(s: Seq<ResidentEntry>, prot: Seq<bool>)
    ensures
        all_protected_bytes(s, prot) <= total_bytes(s),
    decreases s.len(),
{
    if s.len() > 0 {
        lemma_all_protected_le_total(s.drop_last(), prot.take(s.len() - 1));
    }
}

/// Leaving one key out never adds protected bytes.
proof fn lemma_protected_le_all(s: Seq<ResidentEntry>, prot: Seq<bool>, k: Seq<char>)
    ensures
        protected_bytes(s, prot, k) <= all_protected_bytes(s, prot),
    decreases s.len(),
{
    if s.len() > 0 {
        lemma_protected_le_all(s.drop_last(), prot.take(s.len() - 1), k);
    }
}

proof fn lemma_protected_remove(s: Seq<ResidentEntry>, prot: Seq<bool>, ex: Seq<char>, i: int)
    requires
        s.len() == prot.len(),
        0 <= i < s.len(),
    ensures
        protected_bytes(s.remove(i), prot.remove(i), ex) + (if prot[i] && s[i].key@ != ex {
            s[i].size_bytes as nat
        } else {
            0nat
        }) == protected_bytes(s, prot, ex),
    decreases s.len(),
{
    let n = s.len() - 1;
    if i == n {
        assert(s.remove(i) =~= s.drop_last());
        assert(prot.remove(i) =~= prot.take(n));
    } else {
        let t = s.drop_last();
        let q = prot.take(n);
        assert(s.remove(i).drop_last() =~= t.remove(i));
        assert(prot.remove(i).take(n - 1) =~= q.remove(i));
        assert(s.remove(i)[n - 1] == s[n]);
        assert(prot.remove(i)[n - 1] == prot[n]);
        lemma_protected_remove(t, q, ex, i);
    }
}

proof fn lemma_protected_all(s: Seq<ResidentEntry>, prot: Seq<bool>, ex: Seq<char>)
    requires
        s.len() == prot.len(),
        forall|j: int| 0 <= j < prot.len() ==> prot[j],
        !has_key(s, ex),
    ensures
        protected_bytes(s, prot, ex) == total_bytes(s),
    decreases s.len(),
{
    if s.len() > 0 {
        let n = s.len() - 1;
        assert(s[n].key@ != ex);
        let t = s.drop_last();
        assert forall|j: int| 0 <= j < t.len() implies t[j].key@ != ex by {
            assert(s[j].key@ != ex);
        }
        lemma_protected_all(t, prot.take(n), ex);
    }
}

proof fn lemma_first_evictable(prot: Seq<bool>)
    ensures
        -1 <= first_evictable(prot) < prot.len(),
        first_evictable(prot) == -1 ==> forall|j: int| 0 <= j < prot.len() ==> prot[j],
        first_evictable(prot) >= 0 ==> !prot[first_evictable(prot)],
        forall|j: int| 0 <= j < first_evictable(prot) ==> prot[j],
    decreases prot.len(),
{
    if prot.len() > 0 && prot[0] {
        let t = prot.drop_first();
        lemma_first_evictable(t);
        assert forall|j: int| 0 < j < prot.len() implies prot[j] == t[j - 1] by {}
    }
}

proof fn lemma_distinct_remove(s: Seq<ResidentEntry>, i: int)
    requires
        distinct_keys(s),
        0 <= i < s.len(),
    ensures
        distinct_keys(s.remove(i)),
        forall|k: Seq<char>| has_key(s.remove(i), k) ==> has_key(s, k),
{
    let r = s.remove(i);
    assert forall|a: int, b: int| 0 <= a < b < r.len() implies r[a].key@ != r[b].key@ by {
        let a2 = if a < i { a } else { a + 1 };
        let b2 = if b < i { b } else { b + 1 };
        assert(r[a] == s[a2]);
        assert(r[b] == s[b2]);
    }
    assert forall|k: Seq<char>| has_key(r, k) implies has_key(s, k) by {
        let a = choose|a: int| 0 <= a < r.len() && r[a].key@ == k;
        let a2 = if a < i { a } else { a + 1 };
        assert(r[a] == s[a2]);
    }
}

proof fn lemma_key_index(s: Seq<ResidentEntry>, k: Seq<char>, i: int)
    requires
        distinct_keys(s),
        0 <= i < s.len(),
        s[i].key@ == k,
    ensures
        key_index(s, k) == i,
{
    assert(has_key(s, k));
}

proof fn lemma_without_key(s: Seq<ResidentEntry>, prot: Seq<bool>, k: Seq<char>)
    requires
        distinct_keys(s),
        s.len() == prot.len(),
    ensures
        distinct_keys(without_key(s, k)),
        !has_key(without_key(s, k), k),
        without_key(s, k).len() == flags_without_key(s, prot, k).len(),
        forall|k2: Seq<char>| has_key(without_key(s, k), k2) ==> has_key(s, k2),
        protected_bytes(without_key(s, k), flags_without_key(s, prot, k), k) == protected_bytes(
            s,
            prot,
            k,
        ),
        total_bytes(without_key(s, k)) + (if has_key(s, k) {
            s[key_index(s, k)].size_bytes as nat
        } else {
            0nat
        }) == total_bytes(s),
{
    if has_key(s, k) {
        let i = key_index(s, k);
        lemma_distinct_remove(s, i);
        lemma_protected_remove(s, prot, k, i);
        lemma_total_remove(s, i);
        let r = s.remove(i);
        if has_key(r, k) {
            let a = choose|a: int| 0 <= a < r.len() && r[a].key@ == k;
            let a2 = if a < i { a } else { a + 1 };
            assert(r[a] == s[a2]);
        }
    }
}

/// Eviction leaves the evictable-free remainder within the cap, keeps the keys
/// distinct, and never removes a protected entry.
proof fn lemma_evict(s: Seq<ResidentEntry>, prot: Seq<bool>, need: nat, cap: nat, ex: Seq<char>)
    requires
        s.len() == prot.len(),
        distinct_keys(s),
        !has_key(s, ex),
        protected_bytes(s, prot, ex) + need <= cap,
    ensures
        total_bytes(evict_lru(s, prot, need, cap).0) + need <= cap,
        evict_lru(s, prot, need, cap).0.len() == evict_lru(s, prot, need, cap).1.len(),
        distinct_keys(evict_lru(s, prot, need, cap).0),
        forall|k: Seq<char>| has_key(evict_lru(s, prot, need, cap).0, k) ==> has_key(s, k),
        forall|j: int|
            0 <= j < s.len() && prot[j] ==> exists|m: int|
                0 <= m < evict_lru(s, prot, need, cap).0.len() && evict_lru(s, prot, need, cap).0[m]
                    == s[j],
    decreases s.len(),
{
    if total_bytes(s) + need <= cap {
        assert forall|j: int| 0 <= j < s.len() && prot[j] implies exists|m: int|
            0 <= m < evict_lru(s, prot, need, cap).0.len() && evict_lru(s, prot, need, cap).0[m]
                == s[j] by {
            assert(evict_lru(s, prot, need, cap).0[j] == s[j]);
        }
    } else {
        lemma_first_evictable(prot);
        let i = first_evictable(prot);
        if i < 0 {
            lemma_protected_all(s, prot, ex);
            assert(false);
        } else {
            let r = s.remove(i);
            let q = prot.remove(i);
            lemma_protected_remove(s, prot, ex, i);
            lemma_distinct_remove(s, i);
            lemma_evict(r, q, need, cap, ex);
            let out = evict_lru(r, q, need, cap).0;
            assert(evict_lru(s, prot, need, cap).0 == out);
            assert forall|j: int| 0 <= j < s.len() && prot[j] implies exists|m: int|
                0 <= m < out.len() && out[m] == s[j] by {
                let j2 = if j < i { j } else { j - 1 };
                assert(j != i);
                assert(r[j2] == s[j]);
                assert(q[j2] == prot[j]);
            }
        }
    }
}


proof fn lemma_distinct_push(s: Seq<ResidentEntry>, e: ResidentEntry)
    requires
        distinct_keys(s),
        !has_key(s, e.key@),
    ensures
        distinct_keys(s.push(e)),
{
    let t = s.push(e);
    assert forall|a: int, b: int| 0 <= a < b < t.len() implies t[a].key@ != t[b].key@ by {
        if b == s.len() {
            assert(t[a] == s[a]);
        } else {
            assert(t[a] == s[a]);
            assert(t[b] == s[b]);
        }
    }
}

/// Every entry accounts for exactly its buffer's bytes.
pub open spec fn sizes_match(s: Seq<ResidentEntry>) -> bool {
    forall|i: int| 0 <= i < s.len() ==> #[trigger] s[i].size_bytes == s[i].buffer.spec_size_bytes()
}

proof fn lemma_sizes_remove(s: Seq<ResidentEntry>, i: int)
    requires
        sizes_match(s),
        0 <= i < s.len(),
    ensures
        sizes_match(s.remove(i)),
{
    let r = s.remove(i);
    assert forall|j: int| 0 <= j < r.len() implies #[trigger] r[j].size_bytes
        == r[j].buffer.spec_size_bytes() by {
        if j < i {
            assert(r[j] == s[j]);
        } else {
            assert(r[j] == s[j + 1]);
        }
    }
}

proof fn lemma_sizes_push(s: Seq<ResidentEntry>, e: ResidentEntry)
    requires
        sizes_match(s),
        e.size_bytes == e.buffer.spec_size_bytes(),
    ensures
        sizes_match(s.push(e)),
{
    let t = s.push(e);
    assert forall|j: int| 0 <= j < t.len() implies #[trigger] t[j].size_bytes
        == t[j].buffer.spec_size_bytes() by {
        if j < s.len() {
            assert(t[j] == s[j]);
        }
    }
}

proof fn lemma_first_evictable_is(prot: Seq<bool>, i: int)
    requires
        0 <= i < prot.len(),
        !prot[i],
        forall|j: int| 0 <= j < i ==> prot[j],
    ensures
        first_evictable(prot) == i,
{
    lemma_first_evictable(prot);
    let f = first_evictable(prot);
    if f < 0 {
        assert(prot[i]);
    } else if f < i {
        assert(prot[f]);
    } else if f > i {
        assert(prot[i]);
    }
}

/// How many `Arc`s share this buffer (`Arc::strong_count`). At least the one
/// the cache holds; anything more is a reference held outside the cache.
#[verifier::external_body]
fn strong_count(a: &Arc<DecodedBuffer>) -> (n: usize)
    ensures
        n >= 1,
{
    Arc::strong_count(a)
}

/// Another handle to the same buffer (`Arc::clone`).
#[verifier::external_body]
fn share(a: &Arc<DecodedBuffer>) -> (r: Arc<DecodedBuffer>)
    ensures
        r == *a,
{
    Arc::clone(a)
}

/// The position of the first `false` flag, if any.
fn first_evictable_index(prot: &Vec<bool>) -> (r: Option<usize>)
    ensures
        match r {
            Some(i) => i < prot@.len() && first_evictable(prot@) == i,
            None => first_evictable(prot@) == -1,
        },
{
    let mut i: usize = 0;
    while i < prot.len()
        invariant
            i <= prot@.len(),
            forall|j: int| 0 <= j < i ==> prot@[j],
        decreases prot@.len() - i,
    {
        if !prot[i] {
            proof {
                lemma_first_evictable_is(prot@, i as int);
            }
            return Some(i);
        }
        i += 1;
    }
    proof {
        lemma_first_evictable(prot@);
        if first_evictable(prot@) >= 0 {
            assert(prot@[first_evictable(prot@)]);
        }
    }
    None
}

impl MemoryCache {
    /// A new empty cache with no size limit.
    pub fn new() -> (c: Self)
        ensures
            c.wf(),
            c@ == Seq::<ResidentEntry>::empty(),
            c.cap() == None::<usize>,
    {
        MemoryCache { entries: Vec::new(), max_size_bytes: None, current_size_bytes: 0 }
    }

    /// A new empty cache limited to `max_size` bytes; `0` means unlimited.
    pub fn with_max_size(max_size: usize) -> (c: Self)
        ensures
            c.wf(),
            c@ == Seq::<ResidentEntry>::empty(),
            c.cap() == (if max_size == 0 {
                None
            } else {
                Some(max_size)
            }),
    {
        MemoryCache {
            entries: Vec::new(),
            max_size_bytes: if max_size == 0 {
                None
            } else {
                Some(max_size)
            },
            current_size_bytes: 0,
        }
    }

    /// A new empty cache under a resolved cap: `Bytes(n)` is a hard cap of `n`
    /// bytes (so `Bytes(0)` caches nothing), `Unlimited` is no cap.
    pub fn with_cap(cap: MemoryCap) -> (c: Self)
        ensures
            c.wf(),
            c@ == Seq::<ResidentEntry>::empty(),
            c.cap() == cap_bytes(cap),
    {
        let max_size_bytes = match cap {
            MemoryCap::Unlimited => None,
            MemoryCap::Bytes(n) => Some(n),
        };
        MemoryCache { entries: Vec::new(), max_size_bytes, current_size_bytes: 0 }
    }

    /// The maximum cache size in bytes, or `None` if unlimited.
    pub fn max_size_bytes(&self) -> (r: Option<usize>)
        ensures
            r == self.cap(),
    {
        self.max_size_bytes
    }

    /// The bytes currently accounted for by resident entries.
    pub fn current_size_bytes(&self) -> (r: usize)
        requires
            self.wf(),
        ensures
            r == total_bytes(self@),
    {
        self.current_size_bytes
    }

    /// The size of a buffer in bytes: four per sample.
    pub fn buffer_size(buffer: &DecodedBuffer) -> (r: usize)
        requires
            buffer.data@.len() * 4 <= usize::MAX,
        ensures
            r == buffer.spec_size_bytes(),
    {
        buffer.data.len() * 4
    }

    /// The position of the entry stored under `key`.
    fn find(&self, key: &str) -> (r: Option<usize>)
        requires
            self.wf(),
        ensures
            match r {
                Some(i) => i < self@.len() && self@[i as int].key@ == key@ && key_index(self@, key@)
                    == i && has_key(self@, key@),
                None => !has_key(self@, key@) && key_index(self@, key@) == -1,
            },
    {
        let mut i: usize = 0;
        while i < self.entries.len()
            invariant
                self.wf(),
                i <= self.entries@.len(),
                forall|j: int| 0 <= j < i ==> self.entries@[j].key@ != key@,
            decreases self.entries@.len() - i,
        {
            if same_text(self.entries[i].key.as_str(), key) {
                proof {
                    lemma_key_index(self.entries@, key@, i as int);
                }
                return Some(i);
            }
            i += 1;
        }
        None
    }

    /// The cached buffer for `key`, if resident. A hit makes the entry the most
    /// recently used.
    pub fn get(&mut self, key: &str) -> (r: Option<Arc<DecodedBuffer>>)
        requires
            old(self).wf(),
        ensures
            final(self).wf(),
            final(self).cap() == old(self).cap(),
            match r {
                Some(b) => has_key(old(self)@, key@) && b == old(self)@[key_index(
                    old(self)@,
                    key@,
                )].buffer && final(self)@ == touched(old(self)@, key_index(old(self)@, key@)),
                None => !has_key(old(self)@, key@) && final(self)@ == old(self)@,
            },
    {
        match self.find(key) {
            Some(i) => {
                let ghost s = self.entries@;
                let e = self.entries.remove(i);
                let b = share(&e.buffer);
                proof {
                    let flags = Seq::new(s.len(), |j: int| false);
                    lemma_without_key(s, flags, key@);
                    lemma_total_remove(s, i as int);
                    lemma_sizes_remove(s, i as int);
                    lemma_total_push(s.remove(i as int), e);
                    lemma_distinct_push(s.remove(i as int), e);
                    lemma_sizes_push(s.remove(i as int), e);
                }
                self.entries.push(e);
                Some(b)
            },
            None => None,
        }
    }

    /// Remove the entry stored under `key`; whether there was one.
    pub fn remove(&mut self, key: &str) -> (r: bool)
        requires
            old(self).wf(),
        ensures
            final(self).wf(),
            final(self).cap() == old(self).cap(),
            r == has_key(old(self)@, key@),
            final(self)@ == without_key(old(self)@, key@),
    {
        match self.find(key) {
            Some(i) => {
                let ghost s = self.entries@;
                proof {
                    lemma_total_remove(s, i as int);
                    lemma_sizes_remove(s, i as int);
                    lemma_distinct_remove(s, i as int);
                }
                let e = self.entries.remove(i);
                self.current_size_bytes = self.current_size_bytes - e.size_bytes;
                true
            },
            None => false,
        }
    }

    /// Drop every entry.
    pub fn clear(&mut self)
        requires
            old(self).wf(),
        ensures
            final(self).wf(),
            final(self).cap() == old(self).cap(),
            final(self)@ == Seq::<ResidentEntry>::empty(),
    {
        self.entries.clear();
        self.current_size_bytes = 0;
    }

    /// Whether `key` is resident; does not change the recency order.
    pub fn contains(&self, key: &str) -> (r: bool)
        requires
            self.wf(),
        ensures
            r == has_key(self@, key@),
    {
        self.find(key).is_some()
    }

    /// The number of resident entries.
    pub fn len(&self) -> (r: usize)
        ensures
            r == self@.len(),
    {
        self.entries.len()
    }

    /// Whether the cache holds nothing.
    pub fn is_empty(&self) -> (r: bool)
        ensures
            r == (self@.len() == 0),
    {
        self.entries.len() == 0
    }

    /// The bytes accounted for by resident entries (same as
    /// [`MemoryCache::current_size_bytes`]).
    pub fn memory_usage_bytes(&self) -> (r: usize)
        requires
            self.wf(),
        ensures
            r == total_bytes(self@),
    {
        self.current_size_bytes
    }
}


/// The bytes a cache could admit right now, given which entries are protected:
/// unlimited means `usize::MAX`, otherwise the cap less the bytes of every
/// protected entry.
pub open spec fn headroom(s: Seq<ResidentEntry>, prot: Seq<bool>, cap: Option<usize>) -> int {
    match cap {
        None => usize::MAX as int,
        Some(max) => saturating_diff(max as int, all_protected_bytes(s, prot) as int),
    }
}

/// The protection flags that reference counts give: an entry is protected
/// (playing) when its buffer has a reference besides the cache's own.
pub open spec fn flags_of(counts: Seq<usize>) -> Seq<bool> {
    Seq::new(counts.len(), |i: int| counts[i] > 1)
}

/// Whether `counts` can be the reference counts of the buffers of `s`: one
/// per entry, each at least the cache's own reference.
pub open spec fn observed(counts: Seq<usize>, s: Seq<ResidentEntry>) -> bool {
    &&& counts.len() == s.len()
    &&& forall|i: int| 0 <= i < counts.len() ==> #[trigger] counts[i] >= 1
}

/// The protection flags for the given reference counts: flag `i` is set when
/// count `i` is more than one.
pub fn flags_from_counts(counts: &Vec<usize>) -> (p: Vec<bool>)
    ensures
        p@.len() == counts@.len(),
        forall|i: int| 0 <= i < counts@.len() ==> p@[i] == (counts@[i] > 1),
        p@ == flags_of(counts@),
{
    let mut p: Vec<bool> = Vec::new();
    let mut i: usize = 0;
    while i < counts.len()
        invariant
            i <= counts@.len(),
            p@.len() == i,
            forall|j: int| 0 <= j < i ==> p@[j] == (counts@[j] > 1),
        decreases counts@.len() - i,
    {
        p.push(counts[i] > 1);
        i += 1;
    }
    proof {
        assert(p@ =~= flags_of(counts@));
    }
    p
}

impl MemoryCache {
    /// How many references each resident buffer has right now, the cache's
    /// own included.
    pub fn reference_counts(&self) -> (c: Vec<usize>)
        ensures
            observed(c@, self@),
    {
        let mut c: Vec<usize> = Vec::new();
        let mut i: usize = 0;
        while i < self.entries.len()
            invariant
                i <= self.entries@.len(),
                c@.len() == i,
                forall|j: int| 0 <= j < i ==> #[trigger] c@[j] >= 1,
            decreases self.entries@.len() - i,
        {
            c.push(strong_count(&self.entries[i].buffer));
            i += 1;
        }
        c
    }

    /// Which resident entries are protected right now: flag `i` is set when the
    /// buffer of entry `i` is also referenced outside the cache (it is playing).
    pub fn protection(&self) -> (p: Vec<bool>)
        ensures
            p@.len() == self@.len(),
            exists|c: Seq<usize>| observed(c, self@) && p@ == flags_of(c),
    {
        let c = self.reference_counts();
        let p = flags_from_counts(&c);
        proof {
            assert(observed(c@, self@) && p@ == flags_of(c@));
        }
        p
    }

    /// Bytes held by protected entries, leaving out the entry under `except`.
    pub fn protected_bytes_excluding(&self, except: &str, protected: &Vec<bool>) -> (r: usize)
        requires
            self.wf(),
            protected@.len() == self@.len(),
        ensures
            r == protected_bytes(self@, protected@, except@),
    {
        let ghost s = self.entries@;
        let ghost p = protected@;
        let mut sum: usize = 0;
        let mut i: usize = 0;
        while i < self.entries.len()
            invariant
                self.wf(),
                s == self.entries@,
                p == protected@,
                p.len() == s.len(),
                i <= s.len(),
                sum == protected_bytes(s.take(i as int), p.take(i as int), except@),
            decreases s.len() - i,
        {
            proof {
                let t = s.take(i + 1);
                assert(t.drop_last() =~= s.take(i as int));
                assert(p.take(i + 1).take(i as int) =~= p.take(i as int));
                lemma_protected_le_total(t, p.take(i + 1), except@);
                lemma_total_prefix(s, i + 1);
            }
            if protected[i] && !same_text(self.entries[i].key.as_str(), except) {
                sum = sum + self.entries[i].size_bytes;
            }
            i += 1;
        }
        proof {
            assert(s.take(s.len() as int) =~= s);
            assert(p.take(p.len() as int) =~= p);
        }
        sum
    }

    /// Bytes held by every protected entry.
    fn all_protected(&self, protected: &Vec<bool>) -> (r: usize)
        requires
            self.wf(),
            protected@.len() == self@.len(),
        ensures
            r == all_protected_bytes(self@, protected@),
    {
        let ghost s = self.entries@;
        let ghost p = protected@;
        let mut sum: usize = 0;
        let mut i: usize = 0;
        while i < self.entries.len()
            invariant
                self.wf(),
                s == self.entries@,
                p == protected@,
                p.len() == s.len(),
                i <= s.len(),
                sum == all_protected_bytes(s.take(i as int), p.take(i as int)),
            decreases s.len() - i,
        {
            proof {
                let t = s.take(i + 1);
                assert(t.drop_last() =~= s.take(i as int));
                assert(p.take(i + 1).take(i as int) =~= p.take(i as int));
                lemma_all_protected_le_total(t, p.take(i + 1));
                lemma_total_prefix(s, i + 1);
            }
            if protected[i] {
                sum = sum + self.entries[i].size_bytes;
            }
            i += 1;
        }
        proof {
            assert(s.take(s.len() as int) =~= s);
            assert(p.take(p.len() as int) =~= p);
        }
        sum
    }

    /// The bytes of new data the cache could accept given the protection flags,
    /// after evicting everything evictable: `usize::MAX` when unlimited, else
    /// the cap less the bytes of every protected entry (none below zero).
    pub fn fit_headroom_with(&self, protected: &Vec<bool>) -> (r: usize)
        requires
            self.wf(),
            protected@.len() == self@.len(),
        ensures
            r == headroom(self@, protected@, self.cap()),
            self.cap() matches Some(max) ==> r == saturating_diff(
                max as int,
                all_protected_bytes(self@, protected@) as int,
            ),
    {
        match self.max_size_bytes {
            None => usize::MAX,
            Some(max) => max.saturating_sub(self.all_protected(protected)),
        }
    }

    /// The bytes of new data the cache can accept right now without exceeding
    /// the cap, after evicting everything evictable: `usize::MAX` when
    /// unlimited. Entries whose buffers are playing count against the cap.
    pub fn fit_headroom(&self) -> (r: usize)
        requires
            self.wf(),
        ensures
            exists|c: Seq<usize>|
                #![trigger headroom(self@, flags_of(c), self.cap())]
                observed(c, self@) && r == headroom(self@, flags_of(c), self.cap()),
            self.cap() is None ==> r == usize::MAX,
            self.cap() matches Some(max) ==> r <= max,
    {
        let c = self.reference_counts();
        let p = flags_from_counts(&c);
        let r = self.fit_headroom_with(&p);
        proof {
            assert(observed(c@, self@) && r == headroom(self@, flags_of(c@), self.cap()));
        }
        r
    }
}

impl MemoryCache {
    /// Admit `buffer` under `key` given which resident entries are protected
    /// (flag `i` for entry `i`). If it cannot fit under the cap even after
    /// evicting every unprotected entry (and the entry it replaces), nothing
    /// changes and [`CacheFull`] comes back. Otherwise any entry under `key` is
    /// replaced, unprotected entries are evicted least recently used first until
    /// the buffer fits, and the buffer becomes the most recently used entry.
    pub fn try_put_with(&mut self, key: String, buffer: Arc<DecodedBuffer>, protected: &Vec<bool>) -> (r:
        Result<(), CacheFull>)
        requires
            old(self).wf(),
            protected@.len() == old(self)@.len(),
            buffer.data@.len() * 4 <= usize::MAX,
            old(self).cap() is None ==> total_bytes(without_key(old(self)@, key@))
                + buffer.spec_size_bytes() <= usize::MAX,
        ensures
            final(self).wf(),
            final(self).cap() == old(self).cap(),
            r is Err <==> refuses(
                old(self)@,
                protected@,
                old(self).cap(),
                key@,
                buffer.spec_size_bytes(),
            ),
            r is Err ==> final(self)@ == old(self)@,
            r is Ok ==> final(self)@ == admitted(old(self)@, protected@, old(self).cap(), key, buffer),
    {
        let ghost s0 = self.entries@;
        let ghost p0 = protected@;
        let size = Self::buffer_size(&buffer);
        if let Some(max) = self.max_size_bytes {
            let held = self.protected_bytes_excluding(key.as_str(), protected);
            if size > max || size > max.saturating_sub(held) {
                return Err(CacheFull);
            }
        }
        // Copy the flags so they can follow the entries as they move.
        let mut prot: Vec<bool> = Vec::new();
        let mut k: usize = 0;
        while k < protected.len()
            invariant
                k <= protected@.len(),
                prot@ == protected@.take(k as int),
            decreases protected@.len() - k,
        {
            prot.push(protected[k]);
            proof {
                assert(protected@.take(k + 1) =~= protected@.take(k as int).push(protected@[k as int]));
            }
            k += 1;
        }
        proof {
            assert(prot@ =~= protected@);
            lemma_without_key(s0, p0, key@);
            lemma_protected_le_total(s0, p0, key@);
        }
        // Replacing an existing entry frees its bytes first.
        match self.find(key.as_str()) {
            Some(i) => {
                proof {
                    lemma_sizes_remove(self.entries@, i as int);
                }
                let old_entry = self.entries.remove(i);
                prot.remove(i);
                self.current_size_bytes = self.current_size_bytes - old_entry.size_bytes;
            },
            None => {},
        }
        assert(self.entries@ == without_key(s0, key@));
        assert(prot@ == flags_without_key(s0, p0, key@));
        // Evict unprotected entries, least recently used first, until it fits.
        if let Some(max) = self.max_size_bytes {
            let ghost target = evict_lru(self.entries@, prot@, size as nat, max as nat);
            proof {
                lemma_evict(self.entries@, prot@, size as nat, max as nat, key@);
            }
            let mut done = false;
            while !done
                invariant
                    self.max_size_bytes == Some(max),
                    evict_lru(self.entries@, prot@, size as nat, max as nat) == target,
                    done ==> target == (self.entries@, prot@),
                    self.entries@.len() == prot@.len(),
                    self.current_size_bytes == total_bytes(self.entries@),
                    self.current_size_bytes <= max,
                    distinct_keys(self.entries@),
                    sizes_match(self.entries@),
                decreases self.entries@.len() + (if done {
                    0int
                } else {
                    1int
                }),
            {
                if size <= max - self.current_size_bytes {
                    done = true;
                } else {
                    match first_evictable_index(&prot) {
                        None => {
                            done = true;
                        },
                        Some(i) => {
                            let ghost before = self.entries@;
                            proof {
                                lemma_total_remove(before, i as int);
                                lemma_sizes_remove(before, i as int);
                                lemma_distinct_remove(before, i as int);
                            }
                            let evicted = self.entries.remove(i);
                            prot.remove(i);
                            self.current_size_bytes = self.current_size_bytes - evicted.size_bytes;
                        },
                    }
                }
            }
        }
        let ghost kept = self.entries@;
        let entry = ResidentEntry { key, buffer, size_bytes: size };
        proof {
            lemma_total_push(kept, entry);
            lemma_sizes_push(kept, entry);
            lemma_distinct_push(kept, entry);
        }
        self.entries.push(entry);
        self.current_size_bytes = self.current_size_bytes + size;
        Ok(())
    }
}

impl MemoryCache {
    /// Admit `buffer` under `key`, judging protection by whether each resident
    /// buffer is referenced outside the cache right now. See
    /// [`MemoryCache::try_put_with`] for what happens for given protection flags.
    pub fn try_put(&mut self, key: String, buffer: Arc<DecodedBuffer>) -> (r: Result<(), CacheFull>)
        requires
            old(self).wf(),
            buffer.data@.len() * 4 <= usize::MAX,
            old(self).cap() is None ==> total_bytes(without_key(old(self)@, key@))
                + buffer.spec_size_bytes() <= usize::MAX,
        ensures
            final(self).wf(),
            final(self).cap() == old(self).cap(),
            exists|c: Seq<usize>|
                #![trigger refuses(old(self)@, flags_of(c), old(self).cap(), key@, buffer.spec_size_bytes())]
                observed(c, old(self)@) && (r is Err <==> refuses(
                    old(self)@,
                    flags_of(c),
                    old(self).cap(),
                    key@,
                    buffer.spec_size_bytes(),
                )) && (r is Err ==> final(self)@ == old(self)@) && (r is Ok ==> final(self)@
                    == admitted(old(self)@, flags_of(c), old(self).cap(), key, buffer)),
    {
        let ghost k = key;
        let ghost b = buffer;
        let counts = self.reference_counts();
        let protected = flags_from_counts(&counts);
        let r = self.try_put_with(key, buffer, &protected);
        proof {
            assert(observed(counts@, old(self)@) && (r is Err <==> refuses(
                old(self)@,
                flags_of(counts@),
                old(self).cap(),
                k@,
                b.spec_size_bytes(),
            )) && (r is Err ==> self@ == old(self)@) && (r is Ok ==> self@ == admitted(
                old(self)@,
                flags_of(counts@),
                old(self).cap(),
                k,
                b,
            )));
        }
        r
    }

    /// Store a decoded buffer, evicting least recently used unprotected entries
    /// to stay within the cap. If it cannot fit, it is not cached (the caller
    /// still plays it from its own reference) and the cache is unchanged.
    pub fn put(&mut self, key: String, buffer: Arc<DecodedBuffer>)
        requires
            old(self).wf(),
            buffer.data@.len() * 4 <= usize::MAX,
            old(self).cap() is None ==> total_bytes(without_key(old(self)@, key@))
                + buffer.spec_size_bytes() <= usize::MAX,
        ensures
            final(self).wf(),
            final(self).cap() == old(self).cap(),
            stored(old(self)@, old(self).cap(), key, buffer, final(self)@),
    {
        let _ = self.try_put(key, buffer);
    }
}

// ---------------------------------------------------------------------------
// Laws
// ---------------------------------------------------------------------------

/// A cache never accounts for more bytes than its cap, and its running total
/// is the sum of its entries' sizes.
pub proof fn law_within_cap(c: &MemoryCache)
    requires
        c.wf(),
    ensures
        c.cap() matches Some(max) ==> total_bytes(c@) <= max,
        distinct_keys(c@),
        sizes_match(c@),
{
}

/// Admitting a buffer never evicts a protected (playing) entry: every protected
/// entry stored under another key is still resident afterwards.
pub proof fn law_protected_survive(
    s: Seq<ResidentEntry>,
    prot: Seq<bool>,
    cap: Option<usize>,
    key: String,
    buffer: Arc<DecodedBuffer>,
)
    requires
        distinct_keys(s),
        prot.len() == s.len(),
        cap matches Some(max) ==> total_bytes(s) <= max,
        !refuses(s, prot, cap, key@, buffer.spec_size_bytes()),
    ensures
        forall|j: int|
            0 <= j < s.len() && prot[j] && s[j].key@ != key@ ==> exists|m: int|
                0 <= m < admitted(s, prot, cap, key, buffer).len() && admitted(
                    s,
                    prot,
                    cap,
                    key,
                    buffer,
                )[m] == s[j],
{
    let k = key@;
    let size = buffer.spec_size_bytes();
    lemma_without_key(s, prot, k);
    lemma_protected_le_total(s, prot, k);
    let base = without_key(s, k);
    let bprot = flags_without_key(s, prot, k);
    let out = admitted(s, prot, cap, key, buffer);
    assert forall|j: int| 0 <= j < s.len() && prot[j] && s[j].key@ != k implies exists|m: int|
        0 <= m < out.len() && out[m] == s[j] by {
        let (bj, in_base) = if has_key(s, k) {
            let i = key_index(s, k);
            assert(j != i);
            if j < i {
                (j, true)
            } else {
                (j - 1, true)
            }
        } else {
            (j, true)
        };
        assert(base[bj] == s[j]);
        assert(bprot[bj] == prot[j]);
        match cap {
            None => {
                assert(out[bj] == s[j]);
            },
            Some(max) => {
                lemma_evict(base, bprot, size as nat, max as nat, k);
                let kept = evict_lru(base, bprot, size as nat, max as nat).0;
                let m = choose|m: int| 0 <= m < kept.len() && kept[m] == base[bj];
                assert(out[m] == kept[m]);
            },
        }
    }
}

/// An admitted buffer is the most recently used entry and the only one under
/// its key, so a later `get` of that key returns it.
pub proof fn law_admitted_is_resident(
    s: Seq<ResidentEntry>,
    prot: Seq<bool>,
    cap: Option<usize>,
    key: String,
    buffer: Arc<DecodedBuffer>,
)
    requires
        distinct_keys(s),
        prot.len() == s.len(),
        cap matches Some(max) ==> total_bytes(s) <= max,
        !refuses(s, prot, cap, key@, buffer.spec_size_bytes()),
    ensures
        has_key(admitted(s, prot, cap, key, buffer), key@),
        key_index(admitted(s, prot, cap, key, buffer), key@) == admitted(
            s,
            prot,
            cap,
            key,
            buffer,
        ).len() - 1,
        admitted(s, prot, cap, key, buffer).last().buffer == buffer,
        distinct_keys(admitted(s, prot, cap, key, buffer)),
{
    let k = key@;
    let size = buffer.spec_size_bytes();
    lemma_without_key(s, prot, k);
    lemma_protected_le_total(s, prot, k);
    let base = without_key(s, k);
    let bprot = flags_without_key(s, prot, k);
    let kept = match cap {
        None => base,
        Some(max) => evict_lru(base, bprot, size as nat, max as nat).0,
    };
    match cap {
        None => {},
        Some(max) => {
            lemma_evict(base, bprot, size as nat, max as nat, k);
        },
    }
    let e = ResidentEntry { key, buffer, size_bytes: buffer.spec_size_bytes() as usize };
    lemma_distinct_push(kept, e);
    let out = kept.push(e);
    lemma_key_index(out, k, out.len() - 1);
}

/// Storing a buffer of the same size under a key that is already resident
/// evicts nothing else: the entries keep their order (the key moves to the most
/// recently used end) and the accounted bytes are unchanged.
pub proof fn law_replace_same_size(
    s: Seq<ResidentEntry>,
    prot: Seq<bool>,
    cap: Option<usize>,
    key: String,
    buffer: Arc<DecodedBuffer>,
)
    requires
        distinct_keys(s),
        prot.len() == s.len(),
        cap matches Some(max) ==> total_bytes(s) <= max,
        has_key(s, key@),
        s[key_index(s, key@)].size_bytes == buffer.spec_size_bytes(),
        !refuses(s, prot, cap, key@, buffer.spec_size_bytes()),
    ensures
        admitted(s, prot, cap, key, buffer) == without_key(s, key@).push(
            ResidentEntry { key, buffer, size_bytes: buffer.spec_size_bytes() as usize },
        ),
        total_bytes(admitted(s, prot, cap, key, buffer)) == total_bytes(s),
{
    let k = key@;
    lemma_without_key(s, prot, k);
    let base = without_key(s, k);
    let e = ResidentEntry { key, buffer, size_bytes: buffer.spec_size_bytes() as usize };
    lemma_total_push(base, e);
}

/// A buffer no larger than the headroom (and no larger than the cap) is
/// admitted, under any key: the load-strategy decision relies on this to
/// promise that a full load fits.
pub proof fn law_headroom_admits(
    s: Seq<ResidentEntry>,
    prot: Seq<bool>,
    cap: Option<usize>,
    key: Seq<char>,
    size: int,
)
    requires
        0 <= size <= headroom(s, prot, cap),
    ensures
        !refuses(s, prot, cap, key, size),
{
    lemma_protected_le_all(s, prot, key);
}

/// The cap never changes: along any run of caches in which each one is what
/// a call of `get`, `remove`, `clear`, `put`, `try_put` or `try_put_with` left
/// of the one before (each of them keeps the cap), every cache has the cap
/// of the first.
pub proof fn law_cap_constant(run: Seq<MemoryCache>)
    requires
        forall|i: int, j: int|
            0 <= i && j == i + 1 && j < run.len() ==> #[trigger] run[j].cap() == #[trigger] run[i].cap(),
    ensures
        forall|i: int| 0 <= i < run.len() ==> #[trigger] run[i].cap() == run[0].cap(),
    decreases run.len(),
{
    if run.len() > 1 {
        let init = run.drop_last();
        assert forall|i: int, j: int|
            0 <= i && j == i + 1 && j < init.len() implies #[trigger] init[j].cap() == #[trigger] init[i].cap() by {
            assert(init[i] == run[i] && init[j] == run[j]);
            assert(run[j].cap() == run[i].cap());
        }
        law_cap_constant(init);
        let n = run.len() - 1;
        assert(init[n - 1] == run[n - 1]);
        assert(run[n].cap() == run[n - 1].cap());
        assert forall|i: int| 0 <= i < run.len() implies #[trigger] run[i].cap() == run[0].cap() by {
            if i < n {
                assert(init[i] == run[i]);
                assert(init[i].cap() == init[0].cap());
            }
        }
    }
}

/// After removing a key it is no longer resident, and every other entry stays.
pub proof fn law_removed_key_absent(s: Seq<ResidentEntry>, k: Seq<char>)
    requires
        distinct_keys(s),
    ensures
        !has_key(without_key(s, k), k),
        forall|k2: Seq<char>| k2 != k ==> (has_key(without_key(s, k), k2) == has_key(s, k2)),
{
    let flags = Seq::new(s.len(), |j: int| false);
    lemma_without_key(s, flags, k);
    assert forall|k2: Seq<char>| k2 != k && has_key(s, k2) implies has_key(without_key(s, k), k2) by {
        let j = choose|j: int| 0 <= j < s.len() && s[j].key@ == k2;
        if has_key(s, k) {
            let i = key_index(s, k);
            assert(j != i);
            let j2 = if j < i { j } else { j - 1 };
            assert(without_key(s, k)[j2] == s[j]);
        } else {
            assert(without_key(s, k)[j] == s[j]);
        }
    }
}

impl Default for MemoryCache {
    fn default() -> (c: Self)
        ensures
            c.wf(),
            c@ == Seq::<ResidentEntry>::empty(),
            c.cap() == None::<usize>,
    {
        Self::new()
    }
}

} // verus!
