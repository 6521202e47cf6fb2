//! Disk cache index for downloaded audio files.
//!
//! The index maps each URL to the file that holds its download and the HTTP
//! validators that came with it. Reading and writing the index file, and the
//! downloads themselves, happen outside this module; here are the index, the
//! names and paths of cached files, and the freshness-check decisions.

use crate::clock::{rfc3339_millis, spec_rfc3339_millis};
use crate::keyed::{as_map, distinct_names, KeyedVec};
use crate::text::{decimal, join, join_path, lemma_decimal_injective, lemma_join_cancel, push_decimal};
use sha2::Digest;
use vstd::prelude::*;

verus! {

/// Metadata for a single cached file.
pub struct CacheEntry {
    /// Name of the cached file (hash-based) inside the files directory.
    pub local_file: String,
    /// ETag from the HTTP response, if any.
    pub etag: Option<String>,
    /// Last-Modified from the HTTP response, if any.
    pub last_modified: Option<String>,
    /// When this entry was last validated (RFC 3339).
    pub last_validated: String,
    /// File size in bytes.
    pub file_size: u64,
    /// Content type from the HTTP response, if any.
    pub content_type: Option<String>,
}

/// The on-disk metadata format version this index reads and writes. Older
/// versions are discarded rather than misused.
pub const CACHE_METADATA_VERSION: u32 = 2;

/// The cache index: a format version and one entry per URL.
pub struct CacheMetadata {
    /// Version of the metadata format.
    version: u32,
    /// URL to entry.
    entries: KeyedVec<CacheEntry>,
}

/// Adding `x` to a running total kept modulo 2^64.
proof fn lemma_wrap_step(t: nat, x: nat, out: nat)
    requires
        x < 0x1_0000_0000_0000_0000,
        ({
            let a = t % 0x1_0000_0000_0000_0000;
            if a + x >= 0x1_0000_0000_0000_0000 {
                out == a + x - 0x1_0000_0000_0000_0000
            } else {
                out == a + x
            }
        }),
    ensures
        out == (t + x) % 0x1_0000_0000_0000_0000,
{
    let m: int = 0x1_0000_0000_0000_0000;
    let a = t % 0x1_0000_0000_0000_0000;
    let q = t / 0x1_0000_0000_0000_0000;
    assert(t == q * m + a) by (nonlinear_arith)
        requires
            a == t % 0x1_0000_0000_0000_0000,
            q == t / 0x1_0000_0000_0000_0000,
            m == 0x1_0000_0000_0000_0000,
    ;
    if a + x >= m {
        assert(((t + x) as int) % m == a + x - m) by (nonlinear_arith)
            requires
                t == q * m + a,
                0 <= a + x - m < m,
                m > 0,
                q >= 0,
        {
            assert(t + x == (q + 1) * m + (a + x - m));
        }
    } else {
        assert(((t + x) as int) % m == a + x) by (nonlinear_arith)
            requires
                t == q * m + a,
                0 <= a + x < m,
                m > 0,
                q >= 0,
        {
            assert(t + x == q * m + (a + x));
        }
    }
}

/// The sum of the recorded file sizes.
pub open spec fn total_file_bytes(r: Seq<(String, CacheEntry)>) -> nat
    decreases r.len(),
{
    if r.len() == 0 {
        0
    } else {
        total_file_bytes(r.drop_last()) + r.last().1.file_size as nat
    }
}

impl View for CacheMetadata {
    type V = Map<Seq<char>, CacheEntry>;

    /// The index: URL to entry.
    closed spec fn view(&self) -> Map<Seq<char>, CacheEntry> {
        self.entries@
    }
}

impl CacheMetadata {
    /// The format version the index was written in.
    pub closed spec fn format_version(&self) -> u32 {
        self.version
    }

    /// The `(url, entry)` records, in storage order.
    pub closed spec fn records(&self) -> Seq<(String, CacheEntry)> {
        self.entries.items()
    }

    /// Well-formedness of the underlying map.
    pub closed spec fn wf(&self) -> bool {
        self.entries.wf()
    }

    /// The view is the map of the records.
    pub proof fn lemma_view(&self)
        requires
            self.wf(),
        ensures
            self@ == as_map(self.records()),
            distinct_names(self.records()),
            self@.len() == self.records().len(),
            self@.dom().finite(),
    {
        self.entries.lemma_view();
    }

    /// The format version the index was written in.
    pub fn version(&self) -> (r: u32)
        ensures
            r == self.format_version(),
    {
        self.version
    }

    /// An empty index in the current format version.
    pub fn new() -> (m: Self)
        ensures
            m.wf(),
            m.format_version() == CACHE_METADATA_VERSION,
            m@ == Map::<Seq<char>, CacheEntry>::empty(),
    {
        CacheMetadata { version: CACHE_METADATA_VERSION, entries: KeyedVec::new() }
    }

    /// An empty index that says it was written in format `version`, for
    /// filling from a loaded file.
    pub fn with_version(version: u32) -> (m: Self)
        ensures
            m.wf(),
            m.format_version() == version,
            m@ == Map::<Seq<char>, CacheEntry>::empty(),
    {
        CacheMetadata { version, entries: KeyedVec::new() }
    }

    /// The entry for `url`, if recorded.
    pub fn get(&self, url: &str) -> (r: Option<&CacheEntry>)
        requires
            self.wf(),
        ensures
            match r {
                Some(e) => self@.contains_key(url@) && *e == self@[url@],
                None => !self@.contains_key(url@),
            },
    {
        self.entries.get(url)
    }

    /// Add or replace the entry for `url`.
    pub fn insert(&mut self, url: String, entry: CacheEntry)
        requires
            old(self).wf(),
        ensures
            final(self).wf(),
            final(self).format_version() == old(self).format_version(),
            final(self)@ == old(self)@.insert(url@, entry),
    {
        self.entries.insert(url, entry);
    }

    /// Take out the entry for `url`, returning it.
    pub fn remove(&mut self, url: &str) -> (r: Option<CacheEntry>)
        requires
            old(self).wf(),
        ensures
            final(self).wf(),
            final(self).format_version() == old(self).format_version(),
            final(self)@ == old(self)@.remove(url@),
            match r {
                Some(e) => old(self)@.contains_key(url@) && e == old(self)@[url@],
                None => !old(self)@.contains_key(url@),
            },
    {
        self.entries.remove(url)
    }

    /// Drop every entry.
    pub fn clear(&mut self)
        requires
            old(self).wf(),
        ensures
            final(self).wf(),
            final(self).format_version() == old(self).format_version(),
            final(self)@ == Map::<Seq<char>, CacheEntry>::empty(),
            final(self).records().len() == 0,
    {
        self.entries.clear();
    }

    /// The number of entries.
    pub fn len(&self) -> (r: usize)
        requires
            self.wf(),
        ensures
            r == self@.len(),
            r == self.records().len(),
    {
        self.entries.len()
    }

    /// The record at position `i` (for writing the index out).
    pub fn record(&self, i: usize) -> (r: &(String, CacheEntry))
        requires
            i < self.records().len(),
        ensures
            *r == self.records()[i as int],
    {
        self.entries.item(i)
    }

    /// Every URL in the index, each once.
    pub fn urls(&self) -> (r: Vec<String>)
        requires
            self.wf(),
        ensures
            r@.map_values(|s: String| s@).to_set() == self@.dom(),
            r@.map_values(|s: String| s@).no_duplicates(),
    {
        self.entries.names()
    }

    /// The sum of the recorded file sizes.
    pub fn total_size_bytes(&self) -> (r: u64)
        requires
            self.wf(),
        ensures
            r as nat == total_file_bytes(self.records()) % 0x1_0000_0000_0000_0000,
            total_file_bytes(self.records()) <= u64::MAX ==> r == total_file_bytes(self.records()),
    {
        let n = self.entries.len();
        let mut sum: u64 = 0;
        let mut i: usize = 0;
        while i < n
            invariant
                n == self.records().len(),
                i <= n,
                sum as nat == total_file_bytes(self.records().take(i as int)) % 0x1_0000_0000_0000_0000,
            decreases n - i,
        {
            let ghost before = total_file_bytes(self.records().take(i as int));
            proof {
                let r = self.records();
                assert(r.take(i + 1).drop_last() =~= r.take(i as int));
            }
            let size = self.entries.item(i).1.file_size;
            let ghost after = before + size as nat;
            assert(total_file_bytes(self.records().take(i + 1)) == after);
            let room = u64::MAX - sum;
            if size > room {
                sum = size - room - 1;
            } else {
                sum = sum + size;
            }
            proof {
                lemma_wrap_step(before, size as nat, sum as nat);
            }
            i += 1;
        }
        proof {
            assert(self.records().take(n as int) =~= self.records());
        }
        sum
    }
}

// ---------------------------------------------------------------------------
// Cache file names
// ---------------------------------------------------------------------------

/// The SHA-256 digest of `data`, as computed by the `sha2` crate.
pub uninterp spec fn spec_sha256(data: Seq<u8>) -> Seq<u8>;

/// SHA-256 of `data` (`<sha2::Sha256 as Digest>::digest`): the 32-byte digest.
#[verifier::external_body]
fn sha256(data: &[u8]) -> (r: Vec<u8>)
    ensures
        r@ == spec_sha256(data@),
        r@.len() == 32,
{
    sha2::Sha256::digest(data).to_vec()
}

/// The lowercase hexadecimal digits.
pub open spec fn hex_digits() -> Seq<char> {
    seq!['0', '1', '2', '3', '4', '5', '6', '7', '8', '9', 'a', 'b', 'c', 'd', 'e', 'f']
}

/// Two lowercase hex digits per byte, most significant nibble first.
pub open spec fn hex_lower(bytes: Seq<u8>) -> Seq<char>
    decreases bytes.len(),
{
    if bytes.len() == 0 {
        Seq::empty()
    } else {
        hex_lower(bytes.drop_last()) + seq![
            hex_digits()[(bytes.last() / 16) as int],
            hex_digits()[(bytes.last() % 16) as int],
        ]
    }
}

/// Where the path part of a URL ends: the first `?` or `#` at or after `i`,
/// or the end.
pub open spec fn path_end(u: Seq<char>, i: int) -> int
    decreases u.len() - i,
{
    if i >= u.len() || i < 0 {
        u.len() as int
    } else if u[i] == '?' || u[i] == '#' {
        i
    } else {
        path_end(u, i + 1)
    }
}

/// The last position before `i` holding `c`, or -1.
pub open spec fn last_before(u: Seq<char>, c: char, i: int) -> int
    decreases i,
{
    if i <= 0 {
        -1
    } else if u[i - 1] == c {
        i - 1
    } else {
        last_before(u, c, i - 1)
    }
}

/// What follows the last `c` in `s` (all of `s` when there is none).
pub open spec fn after_last(s: Seq<char>, c: char) -> Seq<char> {
    s.subrange(last_before(s, c, s.len() as int) + 1, s.len() as int)
}

/// The extension of a URL's file name: query string and fragment removed,
/// then what follows the last `/`, then what follows the last `.`.
pub open spec fn url_extension(u: Seq<char>) -> Seq<char> {
    after_last(after_last(u.subrange(0, path_end(u, 0)), '/'), '.')
}

/// ASCII-case-insensitive equality with a lowercase ASCII word.
pub open spec fn matches_word(s: Seq<char>, word: Seq<char>) -> bool {
    s.len() == word.len() && forall|i: int| 0 <= i < s.len() ==> #[trigger] ascii_lower(s[i]) == word[i]
}

/// An ASCII uppercase letter made lowercase; any other character unchanged.
pub open spec fn ascii_lower(c: char) -> char {
    if 'A' <= c <= 'Z' {
        ((c as u32) + 32) as char
    } else {
        c
    }
}

/// The audio formats whose extension a cached file keeps.
pub open spec fn audio_formats() -> Seq<Seq<char>> {
    seq![seq!['w', 'a', 'v'], seq!['m', 'p', '3'], seq!['o', 'g', 'g'], seq!['f', 'l', 'a', 'c']]
}

/// The extension a cached file gets: the URL's own when it is one of the
/// common audio formats (lowercased), `dat` otherwise. (Lowercasing only ASCII
/// letters gives the same matches as full Unicode lowercasing for these words.)
pub open spec fn cache_extension(u: Seq<char>) -> Seq<char> {
    let e = url_extension(u);
    if matches_word(e, seq!['w', 'a', 'v']) {
        seq!['w', 'a', 'v']
    } else if matches_word(e, seq!['m', 'p', '3']) {
        seq!['m', 'p', '3']
    } else if matches_word(e, seq!['o', 'g', 'g']) {
        seq!['o', 'g', 'g']
    } else if matches_word(e, seq!['f', 'l', 'a', 'c']) {
        seq!['f', 'l', 'a', 'c']
    } else {
        seq!['d', 'a', 't']
    }
}

/// How many leading digest bytes name a cache file: 6, or all of a shorter
/// digest.
pub open spec fn name_bytes(digest: Seq<u8>) -> int {
    if digest.len() < 6 {
        digest.len() as int
    } else {
        6
    }
}

/// The cache file name a digest of a URL gives: its first bytes (see
/// [`name_bytes`]) in lowercase hex, a dot, and the URL's extension.
pub open spec fn filename_from_digest(digest: Seq<u8>, u: Seq<char>) -> Seq<char> {
    hex_lower(digest.take(name_bytes(digest))) + seq!['.'] + cache_extension(u)
}

/// The cache file name for a URL: the first 6 bytes of the SHA-256 of the
/// whole URL (query string included) in lowercase hex, a dot, and the extension.
pub open spec fn spec_cache_filename(u: &str) -> Seq<char> {
    filename_from_digest(spec_sha256(vstd::utf8::encode_utf8(u@)), u@)
}

/// A URL whose file name ends in `.wav`, `.mp3`, `.ogg` or `.flac` (in any
/// ASCII case, before any query string or fragment) is cached under that
/// extension in lowercase: the cache file name ends in a dot and the format.
pub proof fn law_audio_extension_kept(p: Seq<char>, e: Seq<char>, q: Seq<char>, k: int, digest: Seq<u8>)
    requires
        0 <= k < 4,
        forall|j: int| 0 <= j < p.len() ==> p[j] != '?' && p[j] != '#',
        forall|j: int| 0 <= j < e.len() ==> e[j] != '?' && e[j] != '#' && e[j] != '/' && e[j] != '.',
        e.len() == audio_formats()[k].len(),
        forall|j: int| 0 <= j < e.len() ==> ascii_lower(#[trigger] e[j]) == audio_formats()[k][j],
        q.len() == 0 || q[0] == '?' || q[0] == '#',
    ensures
        cache_extension(p + seq!['.'] + e + q) == audio_formats()[k],
        ({
            let f = filename_from_digest(digest, p + seq!['.'] + e + q);
            let w = audio_formats()[k];
            f.subrange(f.len() - w.len() - 1, f.len() as int) == seq!['.'] + w
        }),
{
    let w = audio_formats()[k];
    let a = p + seq!['.'] + e;
    let u = a + q;
    let n = a.len() as int;
    assert forall|j: int| 0 <= j < n implies u[j] != '?' && u[j] != '#' by {
        if j < p.len() {
            assert(u[j] == p[j]);
        } else if j > p.len() {
            assert(u[j] == e[j - p.len() - 1]);
        }
    }
    if q.len() > 0 {
        assert(u[n] == q[0]);
    }
    lemma_path_end_at(u, 0, n);
    assert(u.subrange(0, n) =~= a);
    // The last '/' is within p (or there is none).
    assert forall|m: int| p.len() <= m < n implies a[m] != '/' by {
        if m > p.len() {
            assert(a[m] == e[m - p.len() - 1]);
        }
    }
    lemma_last_before_skip(a, '/', p.len() as int, n);
    lemma_last_before(a, '/', p.len() as int);
    let lb = last_before(a, '/', n);
    let seg = a.subrange(lb + 1, n);
    assert(after_last(a, '/') == seg);
    // The last '.' of the file name is the one before e.
    let sl = seg.len() as int;
    assert(seg[sl - e.len() - 1] == '.');
    assert forall|m: int| sl - e.len() <= m < sl implies seg[m] != '.' by {
        assert(seg[m] == e[m - (sl - e.len())]);
    }
    lemma_last_before_skip(seg, '.', sl - e.len(), sl);
    assert(last_before(seg, '.', sl - e.len()) == sl - e.len() - 1);
    assert(after_last(seg, '.') =~= e);
    assert(url_extension(u) == e);
    assert(matches_word(e, w));
    if k > 0 {
        assert(!matches_word(e, audio_formats()[0])) by {
            if e.len() == 3 {
                assert(ascii_lower(e[0]) == w[0]);
            }
        }
    }
    if k > 1 {
        assert(!matches_word(e, audio_formats()[1])) by {
            if e.len() == 3 {
                assert(ascii_lower(e[0]) == w[0]);
            }
        }
    }
    if k > 2 {
        assert(!matches_word(e, audio_formats()[2])) by {
            if e.len() == 3 {
                assert(ascii_lower(e[0]) == w[0]);
            }
        }
    }
    assert(cache_extension(u) == w);
    let f = filename_from_digest(digest, u);
    let h = hex_lower(digest.take(name_bytes(digest)));
    assert(f == h + seq!['.'] + w);
    assert(f.subrange(f.len() - w.len() - 1, f.len() as int) =~= seq!['.'] + w);
}

proof fn lemma_path_end(u: Seq<char>, i: int)
    requires
        0 <= i <= u.len(),
    ensures
        i <= path_end(u, i) <= u.len(),
    decreases u.len() - i,
{
    if i < u.len() && !(u[i] == '?' || u[i] == '#') {
        lemma_path_end(u, i + 1);
    }
}

proof fn lemma_last_before(u: Seq<char>, c: char, i: int)
    requires
        0 <= i <= u.len(),
    ensures
        -1 <= last_before(u, c, i) < i,
    decreases i,
{
    if i > 0 && u[i - 1] != c {
        lemma_last_before(u, c, i - 1);
    }
}

/// The first `?` or `#` at or after `i` stands at `n` (or there is none and
/// `n` is the end).
proof fn lemma_path_end_at(u: Seq<char>, i: int, n: int)
    requires
        0 <= i <= n <= u.len(),
        forall|j: int| i <= j < n ==> u[j] != '?' && u[j] != '#',
        n == u.len() || u[n] == '?' || u[n] == '#',
    ensures
        path_end(u, i) == n,
    decreases n - i,
{
    if i < n {
        lemma_path_end_at(u, i + 1, n);
    }
}

/// Looking back from `i` for `c` past a stretch without it is looking back
/// from the stretch's start.
proof fn lemma_last_before_skip(s: Seq<char>, c: char, j: int, i: int)
    requires
        0 <= j <= i <= s.len(),
        forall|m: int| j <= m < i ==> s[m] != c,
    ensures
        last_before(s, c, i) == last_before(s, c, j),
    decreases i - j,
{
    if i > j {
        lemma_last_before_skip(s, c, j, i - 1);
    }
}

/// One character of a string literal.
fn char_at(s: &str, i: usize) -> (c: char)
    requires
        i < s@.len(),
    ensures
        c == s@[i as int],
{
    s.get_char(i)
}

/// The first `?` or `#` in `u`, or its length.
fn find_path_end(u: &str) -> (r: usize)
    ensures
        r == path_end(u@, 0),
{
    let n = u.unicode_len();
    let mut i: usize = 0;
    while i < n
        invariant
            n == u@.len(),
            i <= n,
            path_end(u@, 0) == path_end(u@, i as int),
        decreases n - i,
    {
        let c = char_at(u, i);
        if c == '?' || c == '#' {
            return i;
        }
        i += 1;
    }
    i
}

/// The last position before `end` holding `c`, or `end` itself standing for
/// "none" is not possible, so the result is `Some(position)` or `None`.
fn find_last_before(u: &str, c: char, end: usize) -> (r: Option<usize>)
    requires
        end <= u@.len(),
    ensures
        match r {
            Some(j) => j < end && j == last_before(u@, c, end as int),
            None => last_before(u@, c, end as int) == -1,
        },
{
    let mut i: usize = end;
    while i > 0
        invariant
            i <= end <= u@.len(),
            last_before(u@, c, end as int) == last_before(u@, c, i as int),
        decreases i,
    {
        if char_at(u, i - 1) == c {
            return Some(i - 1);
        }
        i -= 1;
    }
    None
}

/// An ASCII uppercase letter made lowercase; any other character unchanged.
fn lower_ascii(c: char) -> (r: char)
    ensures
        r == ascii_lower(c),
{
    if 'A' <= c && c <= 'Z' {
        proof {
            assert((c as u32) + 32 < 256);
        }
        ((c as u8) + 32) as char
    } else {
        c
    }
}

/// Whether `u[from..to]` equals the lowercase ASCII `word`, ignoring ASCII case.
fn span_matches(u: &str, from: usize, to: usize, word: &str) -> (r: bool)
    requires
        from <= to <= u@.len(),
    ensures
        r == matches_word(u@.subrange(from as int, to as int), word@),
{
    let ghost s = u@.subrange(from as int, to as int);
    let n = word.unicode_len();
    if to - from != n {
        return false;
    }
    let mut i: usize = 0;
    while i < n
        invariant
            n == word@.len(),
            s.len() == n,
            from + n == to,
            to <= u@.len(),
            s == u@.subrange(from as int, to as int),
            i <= n,
            forall|j: int| 0 <= j < i ==> #[trigger] ascii_lower(s[j]) == word@[j],
        decreases n - i,
    {
        if lower_ascii(char_at(u, from + i)) != char_at(word, i) {
            proof {
                assert(s[i as int] == u@[from + i]);
                assert(ascii_lower(s[i as int]) != word@[i as int]);
            }
            return false;
        }
        i += 1;
    }
    true
}

/// Append the lowercase hex digits of `bytes[..count]` to `out`.
fn push_hex(out: &mut String, bytes: &Vec<u8>, count: usize)
    requires
        count <= bytes@.len(),
    ensures
        final(out)@ == old(out)@ + hex_lower(bytes@.take(count as int)),
{
    let digits = "0123456789abcdef";
    proof {
        reveal_strlit("0123456789abcdef");
        assert(digits@ =~= hex_digits());
    }
    let ghost start = out@;
    let mut i: usize = 0;
    while i < count
        invariant
            count <= bytes@.len(),
            digits@ == hex_digits(),
            i <= count,
            out@ == start + hex_lower(bytes@.take(i as int)),
        decreases count - i,
    {
        let b = bytes[i];
        let hi = (b / 16) as usize;
        let lo = (b % 16) as usize;
        out.append(digits.substring_char(hi, hi + 1));
        out.append(digits.substring_char(lo, lo + 1));
        proof {
            let t = bytes@.take(i + 1);
            assert(t.drop_last() =~= bytes@.take(i as int));
            assert(t.last() == b);
            assert(digits@.subrange(hi as int, hi + 1) =~= seq![hex_digits()[hi as int]]);
            assert(digits@.subrange(lo as int, lo + 1) =~= seq![hex_digits()[lo as int]]);
            assert(out@ =~= start + hex_lower(t));
        }
        i += 1;
    }
}


proof fn lemma_last_before_prefix(u: Seq<char>, p: Seq<char>, c: char, k: int)
    requires
        p.len() <= u.len(),
        p =~= u.subrange(0, p.len() as int),
        0 <= k <= p.len(),
    ensures
        last_before(p, c, k) == last_before(u, c, k),
    decreases k,
{
    if k > 0 {
        assert(p[k - 1] == u[k - 1]);
        lemma_last_before_prefix(u, p, c, k - 1);
    }
}

/// The last `c` within `u[start..end]`, seen from the sub-sequence: it is the
/// last `c` before `end` in `u` when that lies at or after `start`.
proof fn lemma_last_before_suffix(u: Seq<char>, start: int, end: int, c: char)
    requires
        0 <= start <= end <= u.len(),
    ensures
        ({
            let seg = u.subrange(start, end);
            let j = last_before(u, c, end);
            let k = last_before(seg, c, seg.len() as int);
            &&& (j >= start ==> k == j - start)
            &&& (j < start ==> k == -1)
        }),
    decreases end - start,
{
    let seg = u.subrange(start, end);
    if end > start {
        if u[end - 1] == c {
            assert(seg[seg.len() - 1] == c);
        } else {
            lemma_last_before_suffix(u, start, end - 1, c);
            let seg2 = u.subrange(start, end - 1);
            assert forall|m: int| 0 <= m <= seg2.len() implies last_before(seg, c, m) == last_before(
                seg2,
                c,
                m,
            ) by {
                lemma_last_before_prefix(seg, seg2, c, m);
            }
        }
    } else {
        lemma_last_before(u, c, end);
        if last_before(u, c, end) >= start {
            assert(false);
        }
    }
}

// ---------------------------------------------------------------------------
// The disk cache
// ---------------------------------------------------------------------------

/// The disk cache: where its files live, its index, and when each URL's most
/// recent failed freshness check happened (Unix milliseconds), so an
/// unreachable server is asked once per revalidation window rather than on
/// every check.
pub struct DiskCache {
    cache_dir: String,
    metadata: CacheMetadata,
    failed_revalidations: KeyedVec<i64>,
}

/// A due freshness check of one cached URL, carrying what the request needs so
/// it can run without holding the disk cache.
pub struct RevalidationRequest {
    pub url: String,
    pub etag: Option<String>,
    pub last_modified: Option<String>,
    pub local_file: String,
    pub cache_path: String,
    pub temp_path: String,
}

/// What a freshness check found.
pub enum Revalidation {
    /// `304 Not Modified`: the cached copy is current.
    Current,
    /// The server sent new content, already saved over the cached file.
    Changed {
        local_file: String,
        etag: Option<String>,
        last_modified: Option<String>,
        content_type: Option<String>,
        file_size: u64,
    },
    /// No usable answer; the cached copy stays in service.
    Failed,
}

/// The directory that holds a cache's files: `files` inside its directory.
pub open spec fn files_dir_of(dir: Seq<char>) -> Seq<char> {
    join_path(dir, seq!['f', 'i', 'l', 'e', 's'])
}

/// A copy of an optional string.
fn copy_opt(o: &Option<String>) -> (r: Option<String>)
    ensures
        r == *o,
{
    match o {
        Some(s) => Some(s.clone()),
        None => None,
    }
}

/// A copy of an entry.
pub fn copy_entry(e: &CacheEntry) -> (r: CacheEntry)
    ensures
        r == *e,
{
    CacheEntry {
        local_file: e.local_file.clone(),
        etag: copy_opt(&e.etag),
        last_modified: copy_opt(&e.last_modified),
        last_validated: e.last_validated.clone(),
        file_size: e.file_size,
        content_type: copy_opt(&e.content_type),
    }
}

/// The temp file a windowed download of a URL is teed into before it is renamed
/// into place: `<cache file name>.<seq>.streaming.tmp` in the files directory.
pub open spec fn temp_file_name(url: &str, seq: u64) -> Seq<char> {
    spec_cache_filename(url) + seq!['.'] + decimal(seq as nat) + seq![
        '.',
        's',
        't',
        'r',
        'e',
        'a',
        'm',
        'i',
        'n',
        'g',
        '.',
        't',
        'm',
        'p',
    ]
}

/// The temp suffix of a teed download.
pub open spec fn temp_suffix() -> Seq<char> {
    seq!['.', 's', 't', 'r', 'e', 'a', 'm', 'i', 'n', 'g', '.', 't', 'm', 'p']
}

/// Every sequence number gives its own temp file, and no temp file is the
/// final file: in a cache directory, the temp paths of two different
/// numbers differ, and each differs from the final path of its URL (all of
/// them in the same files directory).
pub proof fn law_temp_paths_distinct(dir: Seq<char>, url: &str, s1: u64, s2: u64)
    ensures
        s1 != s2 ==> join_path(files_dir_of(dir), temp_file_name(url, s1)) != join_path(
            files_dir_of(dir),
            temp_file_name(url, s2),
        ),
        join_path(files_dir_of(dir), temp_file_name(url, s1)) != join_path(
            files_dir_of(dir),
            spec_cache_filename(url),
        ),
{
    let base = files_dir_of(dir);
    let f = spec_cache_filename(url);
    let head = f + seq!['.'];
    let t1 = temp_file_name(url, s1);
    let t2 = temp_file_name(url, s2);
    let d1 = decimal(s1 as nat);
    let d2 = decimal(s2 as nat);
    assert(t1 =~= head + d1 + temp_suffix());
    assert(t2 =~= head + d2 + temp_suffix());
    assert(f.len() > 0);
    assert(t1[0] == f[0] && t2[0] == f[0]);
    if s1 != s2 && join_path(base, t1) == join_path(base, t2) {
        lemma_join_cancel(base, t1, t2);
        assert(d1.len() == d2.len());
        assert(d1 =~= t1.subrange(head.len() as int, head.len() + d1.len() as int));
        assert(d2 =~= t2.subrange(head.len() as int, head.len() + d2.len() as int));
        lemma_decimal_injective(s1 as nat, s2 as nat);
    }
    if join_path(base, t1) == join_path(base, f) {
        lemma_join_cancel(base, t1, f);
    }
}

/// Whether a check made `now_ms` after a validation recorded as `validated` is
/// still inside the window: the timestamp parses, is not in the future, and is
/// less than `window_ms` old.
pub open spec fn validated_within(validated: Seq<char>, now_ms: i64, window_ms: u64) -> bool {
    match spec_rfc3339_millis(validated) {
        Some(last) => 0 <= now_ms - last < window_ms,
        None => false,
    }
}

/// Whether a failed check made at `failed_ms` is less than `window_ms` old at
/// `now_ms` (a failure stamped in the future counts as just now).
pub open spec fn failed_within(failed_ms: i64, now_ms: i64, window_ms: u64) -> bool {
    (if now_ms >= failed_ms {
        now_ms - failed_ms
    } else {
        0
    }) < window_ms
}

impl RevalidationRequest {
    /// The URL being checked.
    pub fn url(&self) -> (r: &str)
        ensures
            r@ == self.url@,
    {
        self.url.as_str()
    }

    /// The ETag to send as `If-None-Match`.
    pub fn etag(&self) -> (r: &Option<String>)
        ensures
            *r == self.etag,
    {
        &self.etag
    }

    /// The Last-Modified value to send as `If-Modified-Since`.
    pub fn last_modified(&self) -> (r: &Option<String>)
        ensures
            *r == self.last_modified,
    {
        &self.last_modified
    }

    /// The cache file name a changed body is saved under.
    pub fn local_file(&self) -> (r: &str)
        ensures
            r@ == self.local_file@,
    {
        self.local_file.as_str()
    }

    /// The path a changed body ends up at.
    pub fn cache_path(&self) -> (r: &str)
        ensures
            r@ == self.cache_path@,
    {
        self.cache_path.as_str()
    }

    /// The temp path a changed body is written to before the rename.
    pub fn temp_path(&self) -> (r: &str)
        ensures
            r@ == self.temp_path@,
    {
        self.temp_path.as_str()
    }
}

impl DiskCache {
    /// The directory the cache lives in.
    pub closed spec fn dir(&self) -> Seq<char> {
        self.cache_dir@
    }

    /// The index: URL to entry.
    pub closed spec fn index(&self) -> Map<Seq<char>, CacheEntry> {
        self.metadata@
    }

    /// The index records in storage order.
    pub closed spec fn records(&self) -> Seq<(String, CacheEntry)> {
        self.metadata.records()
    }

    /// When each URL's last failed check happened (Unix milliseconds).
    pub closed spec fn failures(&self) -> Map<Seq<char>, i64> {
        self.failed_revalidations@
    }

    /// Well-formedness of the index and of the failure record.
    pub closed spec fn wf(&self) -> bool {
        &&& self.metadata.wf()
        &&& self.failed_revalidations.wf()
        &&& self.metadata.format_version() == CACHE_METADATA_VERSION
    }

    /// The index is the map of its records.
    pub proof fn lemma_index(&self)
        requires
            self.wf(),
        ensures
            self.index() == as_map(self.records()),
            distinct_names(self.records()),
            self.index().len() == self.records().len(),
            self.index().dom().finite(),
    {
        self.metadata.lemma_view();
    }

    /// The cache file name for `url`: the first 6 bytes of its SHA-256 in lowercase
    /// hex plus its audio extension (`wav`, `mp3`, `ogg`, `flac`) or `dat`. The whole
    /// URL, query string included, is hashed (different query strings are different
    /// resources), but the extension is taken from the path alone, so signed URLs
    /// keep their format hint.
    pub fn cache_filename_for_url(url: &str) -> (r: String)
        ensures
            r@ == spec_cache_filename(url),
    {
        let digest = sha256(url.as_bytes());
        DiskCache::cache_filename_from_digest(&digest, url)
    }

    /// The cache file name for `url` given the SHA-256 digest of its bytes
    /// (see [`filename_from_digest`]).
    pub fn cache_filename_from_digest(digest: &Vec<u8>, url: &str) -> (r: String)
        ensures
            r@ == filename_from_digest(digest@, url@),
    {
        let count: usize = if digest.len() < 6 {
            digest.len()
        } else {
            6
        };
        let mut name = String::new();
        push_hex(&mut name, digest, count);
        name.append(".");
        proof {
            reveal_strlit(".");
        }
        let end = find_path_end(url);
        proof {
            lemma_path_end(url@, 0);
        }
        let ghost path = url@.subrange(0, end as int);
        let seg_start = match find_last_before(url, '/', end) {
            Some(j) => j + 1,
            None => 0,
        };
        proof {
            lemma_last_before(path, '/', path.len() as int);
            assert forall|k: int| 0 <= k <= end implies last_before(path, '/', k) == last_before(
                url@,
                '/',
                k,
            ) by {
                lemma_last_before_prefix(url@, path, '/', k);
            }
        }
        let ghost seg = path.subrange(seg_start as int, end as int);
        assert(seg =~= after_last(path, '/'));
        let ext_start = match find_last_before(url, '.', end) {
            Some(j) => if j + 1 > seg_start {
                j + 1
            } else {
                seg_start
            },
            None => seg_start,
        };
        proof {
            lemma_last_before_suffix(url@, seg_start as int, end as int, '.');
        }
        assert(seg_start <= ext_start <= end);
        let ghost ext = url@.subrange(ext_start as int, end as int);
        proof {
            assert(seg =~= url@.subrange(seg_start as int, end as int));
            let k = last_before(seg, '.', seg.len() as int);
            lemma_last_before(seg, '.', seg.len() as int);
            assert(after_last(seg, '.') =~= seg.subrange(k + 1, seg.len() as int));
            assert(seg.subrange(k + 1, seg.len() as int) =~= url@.subrange(
                seg_start + k + 1,
                end as int,
            ));
            assert(ext_start == seg_start + k + 1);
            assert(url_extension(url@) == after_last(seg, '.'));
        }
        assert(ext =~= url_extension(url@));
        let (wav, mp3, ogg, flac, dat) = ("wav", "mp3", "ogg", "flac", "dat");
        proof {
            reveal_strlit("wav");
            reveal_strlit("mp3");
            reveal_strlit("ogg");
            reveal_strlit("flac");
            reveal_strlit("dat");
            assert(wav@ =~= seq!['w', 'a', 'v']);
            assert(mp3@ =~= seq!['m', 'p', '3']);
            assert(ogg@ =~= seq!['o', 'g', 'g']);
            assert(flac@ =~= seq!['f', 'l', 'a', 'c']);
            assert(dat@ =~= seq!['d', 'a', 't']);
        }
        let extension = if span_matches(url, ext_start, end, wav) {
            wav
        } else if span_matches(url, ext_start, end, mp3) {
            mp3
        } else if span_matches(url, ext_start, end, ogg) {
            ogg
        } else if span_matches(url, ext_start, end, flac) {
            flac
        } else {
            dat
        };
        name.append(extension);
        name
    }

    /// A disk cache in `cache_dir` over the index loaded from its metadata file,
    /// if one was read. An index in another format version is discarded and the
    /// cache starts empty, as it does when nothing was loaded.
    pub fn new(cache_dir: String, loaded: Option<CacheMetadata>) -> (c: Self)
        requires
            loaded matches Some(m) ==> m.wf(),
        ensures
            c.wf(),
            c.dir() == cache_dir@,
            c.index() == (match loaded {
                Some(m) => if m.format_version() == CACHE_METADATA_VERSION {
                    m@
                } else {
                    Map::<Seq<char>, CacheEntry>::empty()
                },
                None => Map::<Seq<char>, CacheEntry>::empty(),
            }),
            c.failures() == Map::<Seq<char>, i64>::empty(),
    {
        let metadata = match loaded {
            Some(m) => if m.version() == CACHE_METADATA_VERSION {
                m
            } else {
                CacheMetadata::new()
            },
            None => CacheMetadata::new(),
        };
        DiskCache { cache_dir, metadata, failed_revalidations: KeyedVec::new() }
    }

    /// The index, for writing it out.
    pub fn metadata(&self) -> (r: &CacheMetadata)
        ensures
            r@ == self.index(),
            r.records() == self.records(),
            self.wf() ==> r.wf() && r.format_version() == CACHE_METADATA_VERSION,
    {
        &self.metadata
    }

    /// The directory the cache lives in.
    pub fn cache_dir(&self) -> (r: &str)
        ensures
            r@ == self.dir(),
    {
        self.cache_dir.as_str()
    }

    /// The directory that holds the cached files themselves.
    pub fn files_dir(&self) -> (r: String)
        ensures
            r@ == files_dir_of(self.dir()),
    {
        let files = "files";
        proof {
            reveal_strlit("files");
            assert(files@ =~= seq!['f', 'i', 'l', 'e', 's']);
        }
        join(self.cache_dir.as_str(), files)
    }

    /// The full path of a cached file.
    pub fn get_cached_file_path(&self, entry: &CacheEntry) -> (r: String)
        ensures
            r@ == join_path(files_dir_of(self.dir()), entry.local_file@),
    {
        let files = self.files_dir();
        join(files.as_str(), entry.local_file.as_str())
    }

    /// The entry for `url`, if it is in the index.
    pub fn get_entry(&self, url: &str) -> (r: Option<&CacheEntry>)
        requires
            self.wf(),
        ensures
            match r {
                Some(e) => self.index().contains_key(url@) && *e == self.index()[url@],
                None => !self.index().contains_key(url@),
            },
    {
        self.metadata.get(url)
    }

    /// Whether `url` is cached: it is in the index and its file's length on disk
    /// (`on_disk_len`, `None` when the file is missing) matches the recorded
    /// size, so a crash-truncated file is treated as missing.
    pub fn is_cached(&self, url: &str, on_disk_len: Option<u64>) -> (r: bool)
        requires
            self.wf(),
        ensures
            r == (self.index().contains_key(url@) && on_disk_len == Some(
                self.index()[url@].file_size,
            )),
    {
        match self.get_entry(url) {
            Some(entry) => match on_disk_len {
                Some(len) => len == entry.file_size,
                None => false,
            },
            None => false,
        }
    }

    /// Add or replace the entry for `url`.
    pub fn put_entry(&mut self, url: String, entry: CacheEntry)
        requires
            old(self).wf(),
        ensures
            final(self).wf(),
            final(self).dir() == old(self).dir(),
            final(self).failures() == old(self).failures(),
            final(self).index() == old(self).index().insert(url@, entry),
            final(self).index().len() == old(self).index().len() + (if old(self).index().contains_key(
                url@,
            ) {
                0int
            } else {
                1int
            }),
    {
        proof {
            old(self).lemma_index();
        }
        self.metadata.insert(url, entry);
    }

    /// Take the entry for `url` out of the index, returning it so its file can
    /// be deleted.
    pub fn remove_entry(&mut self, url: &str) -> (r: Option<CacheEntry>)
        requires
            old(self).wf(),
        ensures
            final(self).wf(),
            final(self).dir() == old(self).dir(),
            final(self).failures() == old(self).failures(),
            final(self).index() == old(self).index().remove(url@),
            match r {
                Some(e) => old(self).index().contains_key(url@) && e == old(self).index()[url@],
                None => !old(self).index().contains_key(url@),
            },
    {
        self.metadata.remove(url)
    }

    /// Empty the index (the files themselves are deleted by the caller).
    pub fn clear_all(&mut self)
        requires
            old(self).wf(),
        ensures
            final(self).wf(),
            final(self).dir() == old(self).dir(),
            final(self).failures() == old(self).failures(),
            final(self).index() == Map::<Seq<char>, CacheEntry>::empty(),
    {
        self.metadata.clear();
    }

    /// The number of cached entries.
    pub fn entry_count(&self) -> (r: usize)
        requires
            self.wf(),
        ensures
            r == self.index().len(),
    {
        self.metadata.len()
    }

    /// The total size of the cached files in bytes.
    pub fn total_size_bytes(&self) -> (r: u64)
        requires
            self.wf(),
        ensures
            r as nat == total_file_bytes(self.records()) % 0x1_0000_0000_0000_0000,
            total_file_bytes(self.records()) <= u64::MAX ==> r == total_file_bytes(self.records()),
    {
        self.metadata.total_size_bytes()
    }

    /// Every URL in the index, each once.
    pub fn cached_urls(&self) -> (r: Vec<String>)
        requires
            self.wf(),
        ensures
            r@.map_values(|s: String| s@).to_set() == self.index().dom(),
            r@.map_values(|s: String| s@).no_duplicates(),
    {
        self.metadata.urls()
    }

    /// Paths for teeing a cacheable windowed download to disk: a temp file made
    /// unique by `seq` (so concurrent downloads of the same URL never share a
    /// temp), and the final cache path it is renamed to, which is where the
    /// index looks for this URL once the download is recorded.
    pub fn windowed_persist_paths(&self, url: &str, seq: u64) -> (r: (String, String))
        ensures
            r.0@ == join_path(
                files_dir_of(self.dir()),
                temp_file_name(url, seq),
            ),
            r.1@ == join_path(
                files_dir_of(self.dir()),
                spec_cache_filename(url),
            ),
    {
        let name = DiskCache::cache_filename_for_url(url);
        let files = self.files_dir();
        let mut temp_name = name.clone();
        temp_name.append(".");
        push_decimal(&mut temp_name, seq);
        temp_name.append(".streaming.tmp");
        proof {
            reveal_strlit(".");
            reveal_strlit(".streaming.tmp");
            assert(temp_name@ =~= temp_file_name(url, seq));
        }
        let temp = join(files.as_str(), temp_name.as_str());
        let final_path = join(files.as_str(), name.as_str());
        (temp, final_path)
    }

    /// Record a windowed download that was teed to disk (its file already at
    /// its final path) as validated at `validated_at`.
    pub fn record_streamed_download(
        &mut self,
        url: &str,
        file_size: u64,
        etag: Option<String>,
        last_modified: Option<String>,
        content_type: Option<String>,
        validated_at: String,
    )
        requires
            old(self).wf(),
        ensures
            final(self).wf(),
            final(self).dir() == old(self).dir(),
            final(self).failures() == old(self).failures(),
            final(self).index() == old(self).index().insert(
                url@,
                CacheEntry {
                    local_file: final(self).index()[url@].local_file,
                    etag,
                    last_modified,
                    last_validated: validated_at,
                    file_size,
                    content_type,
                },
            ),
            final(self).index()[url@].local_file@ == spec_cache_filename(url),
    {
        let entry = CacheEntry {
            local_file: DiskCache::cache_filename_for_url(url),
            etag,
            last_modified,
            last_validated: validated_at,
            file_size,
            content_type,
        };
        self.put_entry(url.to_owned(), entry);
    }

    /// The freshness check `url` is due for at `now_ms` (Unix milliseconds), if
    /// any: it is cached, its last validation is not within the last
    /// `window_ms` (an unreadable or future timestamp counts as due), and no
    /// failed check of it is within the window either. A zero window makes
    /// every cached entry due. `seq` makes the request's temp path unique.
    pub fn revalidation_request(&self, url: &str, window_ms: u64, now_ms: i64, seq: u64) -> (r:
        Option<RevalidationRequest>)
        requires
            self.wf(),
        ensures
            r is Some <==> (self.index().contains_key(url@) && !validated_within(
                self.index()[url@].last_validated@,
                now_ms,
                window_ms,
            ) && !(self.failures().contains_key(url@) && failed_within(
                self.failures()[url@],
                now_ms,
                window_ms,
            ))),
            r matches Some(req) ==> {
                &&& req.url@ == url@
                &&& req.etag == self.index()[url@].etag
                &&& req.last_modified == self.index()[url@].last_modified
                &&& req.local_file@ == spec_cache_filename(url)
                &&& req.cache_path@ == join_path(
                    files_dir_of(self.dir()),
                    spec_cache_filename(url),
                )
                &&& req.temp_path@ == join_path(
                    files_dir_of(self.dir()),
                    temp_file_name(url, seq),
                )
            },
    {
        let entry = match self.get_entry(url) {
            Some(e) => e,
            None => return None,
        };
        match rfc3339_millis(entry.last_validated.as_str()) {
            Some(last) => {
                let age: i128 = now_ms as i128 - last as i128;
                if age >= 0 && age < window_ms as i128 {
                    return None;
                }
            },
            None => {},
        }
        match self.failed_revalidations.get(url) {
            Some(failed_at) => {
                let elapsed: i128 = if now_ms >= *failed_at {
                    now_ms as i128 - *failed_at as i128
                } else {
                    0
                };
                if elapsed < window_ms as i128 {
                    return None;
                }
            },
            None => {},
        }
        let (temp_path, cache_path) = self.windowed_persist_paths(url, seq);
        Some(
            RevalidationRequest {
                url: url.to_owned(),
                etag: copy_opt(&entry.etag),
                last_modified: copy_opt(&entry.last_modified),
                local_file: DiskCache::cache_filename_for_url(url),
                cache_path,
                temp_path,
            },
        )
    }

    /// Record what a freshness check found at `now` (RFC 3339) / `now_ms`: a
    /// current copy restarts its age, a changed one (already saved in place by
    /// the check) takes the new validators, and a failure is not retried until
    /// the revalidation window passes. Returns whether the content changed.
    pub fn record_revalidation(
        &mut self,
        url: &str,
        result: &Revalidation,
        now: String,
        now_ms: i64,
    ) -> (changed: bool)
        requires
            old(self).wf(),
        ensures
            final(self).wf(),
            final(self).dir() == old(self).dir(),
            changed == (*result is Changed),
            match *result {
                Revalidation::Current => {
                    &&& final(self).failures() == old(self).failures().remove(url@)
                    &&& if old(self).index().contains_key(url@) {
                        final(self).index() == old(self).index().insert(
                            url@,
                            CacheEntry { last_validated: now, ..old(self).index()[url@] },
                        )
                    } else {
                        final(self).index() == old(self).index()
                    }
                },
                Revalidation::Changed {
                    local_file,
                    etag,
                    last_modified,
                    content_type,
                    file_size,
                } => {
                    &&& final(self).failures() == old(self).failures().remove(url@)
                    &&& final(self).index() == old(self).index().insert(
                        url@,
                        CacheEntry {
                            local_file,
                            etag,
                            last_modified,
                            last_validated: now,
                            file_size,
                            content_type,
                        },
                    )
                },
                Revalidation::Failed => {
                    &&& final(self).failures() == old(self).failures().insert(url@, now_ms)
                    &&& final(self).index() == old(self).index()
                },
            },
    {
        match result {
            Revalidation::Current => {
                let _ = self.failed_revalidations.remove(url);
                let updated = match self.metadata.get(url) {
                    Some(entry) => {
                        let mut e = copy_entry(entry);
                        e.last_validated = now;
                        Some(e)
                    },
                    None => None,
                };
                match updated {
                    Some(e) => self.metadata.insert(url.to_owned(), e),
                    None => {},
                }
                false
            },
            Revalidation::Changed { local_file, etag, last_modified, content_type, file_size } => {
                let _ = self.failed_revalidations.remove(url);
                let entry = CacheEntry {
                    local_file: local_file.clone(),
                    etag: copy_opt(etag),
                    last_modified: copy_opt(last_modified),
                    last_validated: now,
                    file_size: *file_size,
                    content_type: copy_opt(content_type),
                };
                self.metadata.insert(url.to_owned(), entry);
                true
            },
            Revalidation::Failed => {
                self.failed_revalidations.insert(url.to_owned(), now_ms);
                false
            },
        }
    }
}

} // verus!
