//! Access decisions of the HTTP control API: token comparison, query-string
//! decoding, who may send a request, and the answers to commands.

use crate::document::{
    all_keys, jv, law_get_after_set, law_set_leaves_others, null_at, null_if_present, spec_get,
    Json, JsonV,
};
use crate::editor::{keys_v, path_of, SegV};
use crate::text::has_prefix;
use vstd::prelude::*;
use vstd::utf8::{decode_utf8, encode_utf8, valid_utf8};

verus! {

// ---------------------------------------------------------------------------
// The configuration as the API shows it
// ---------------------------------------------------------------------------

/// A configuration with its secrets hidden: `http.auth_token` and
/// `mqtt.password`, where present, become null; everything else is kept.
pub open spec fn redacted(j: JsonV) -> JsonV {
    null_if_present(
        null_if_present(j, token_path()),
        password_path(),
    )
}

/// Hide the secrets of a serialized configuration before it is shown.
pub fn redact_config_json(value: Json) -> (r: Json)
    ensures
        jv(r) == redacted(jv(value)),
{
    let token = path_of(&["http", "auth_token"]);
    let hidden = null_at(value, token.as_slice());
    let password = path_of(&["mqtt", "password"]);
    null_at(hidden, password.as_slice())
}

/// The path of the API token.
pub open spec fn token_path() -> Seq<SegV> {
    keys_v(seq!["http", "auth_token"])
}

/// The path of the broker password.
pub open spec fn password_path() -> Seq<SegV> {
    keys_v(seq!["mqtt", "password"])
}

proof fn lemma_secret_paths()
    ensures
        token_path() =~= seq![SegV::Key("http"@), SegV::Key("auth_token"@)],
        password_path() =~= seq![SegV::Key("mqtt"@), SegV::Key("password"@)],
        all_keys(token_path()),
        all_keys(password_path()),
        !token_path().is_prefix_of(password_path()),
        !password_path().is_prefix_of(token_path()),
{
    reveal_strlit("http");
    reveal_strlit("mqtt");
    assert(token_path() =~= seq![SegV::Key("http"@), SegV::Key("auth_token"@)]);
    assert(password_path() =~= seq![SegV::Key("mqtt"@), SegV::Key("password"@)]);
    assert("http"@[0] != "mqtt"@[0]);
    assert(token_path()[0] != password_path()[0]);
}

/// Redaction hides the secrets and nothing else: a secret that was set reads
/// null afterwards, an absent one stays absent, and every other path of keys,
/// neither on nor below a secret's path, reads as before.
pub proof fn law_redaction_hides_only_secrets(j: JsonV, q: Seq<SegV>)
    requires
        all_keys(q),
        !token_path().is_prefix_of(q),
        !q.is_prefix_of(token_path()),
        !password_path().is_prefix_of(q),
        !q.is_prefix_of(password_path()),
    ensures
        spec_get(redacted(j), q) == spec_get(j, q),
        spec_get(j, token_path()) is Some ==> spec_get(redacted(j), token_path()) == Some(JsonV::Null),
        spec_get(j, token_path()) is None ==> spec_get(redacted(j), token_path()) is None,
        spec_get(j, password_path()) is Some ==> spec_get(redacted(j), password_path()) == Some(
            JsonV::Null,
        ),
        spec_get(j, password_path()) is None ==> spec_get(redacted(j), password_path()) is None,
{
    lemma_secret_paths();
    let t = token_path();
    let w = password_path();
    let j1 = null_if_present(j, t);
    assert(redacted(j) == null_if_present(j1, w));
    if spec_get(j, t) is Some {
        law_set_leaves_others(j, t, q, JsonV::Null);
        law_set_leaves_others(j, t, w, JsonV::Null);
        law_get_after_set(j, t, JsonV::Null);
    }
    if spec_get(j1, w) is Some {
        law_set_leaves_others(j1, w, q, JsonV::Null);
        law_set_leaves_others(j1, w, t, JsonV::Null);
        law_get_after_set(j1, w, JsonV::Null);
    }
}

// ---------------------------------------------------------------------------
// Play latency
// ---------------------------------------------------------------------------

/// Enqueue-to-first-mix latency of plays, in nanoseconds: the last one
/// measured, the largest since startup, and how many plays were measured
/// (all zero until a play has been measured).
#[derive(Clone, Copy, Debug, PartialEq, Eq, Structural)]
pub struct PlayLatencyStats {
    pub last_ns: u64,
    pub max_ns: u64,
    pub plays_measured: u64,
}

impl Default for PlayLatencyStats {
    fn default() -> (r: Self)
        ensures
            r == (PlayLatencyStats { last_ns: 0, max_ns: 0, plays_measured: 0 }),
    {
        PlayLatencyStats { last_ns: 0, max_ns: 0, plays_measured: 0 }
    }
}

/// What one pending latency probe shows when it is looked at: the latency
/// the audio thread stored in it (0 until its sample first mixed), and
/// whether its sample still holds it.
#[derive(Clone, Copy, Debug, PartialEq, Eq, Structural)]
pub struct ProbeReading {
    pub value: u64,
    pub held: bool,
}

/// The figures after one fired latency `v` is taken in; the count wraps
/// around at its maximum, as an atomic add does.
pub open spec fn take_latency(s: PlayLatencyStats, v: u64) -> PlayLatencyStats {
    PlayLatencyStats {
        last_ns: v,
        max_ns: if v > s.max_ns { v } else { s.max_ns },
        plays_measured: if s.plays_measured == u64::MAX { 0 } else { (s.plays_measured + 1) as u64 },
    }
}

/// The figures after the fired probes of `probes` (those with a non-zero
/// value) are taken in, in order.
pub open spec fn folded(s: PlayLatencyStats, probes: Seq<ProbeReading>) -> PlayLatencyStats
    decreases probes.len(),
{
    if probes.len() == 0 {
        s
    } else {
        let before = folded(s, probes.drop_last());
        let v = probes.last().value;
        if v == 0 {
            before
        } else {
            take_latency(before, v)
        }
    }
}

/// Whether a probe stays pending after a fold: it has not fired and its
/// sample still holds it (one whose sample is gone never will fire).
pub open spec fn stays_pending(p: ProbeReading) -> bool {
    p.value == 0 && p.held
}

/// Gathers the latency probes of plays into [`PlayLatencyStats`].
pub struct LatencyTracker {
    pub stats: PlayLatencyStats,
}

impl LatencyTracker {
    /// A tracker adding to `stats`.
    pub fn new(stats: PlayLatencyStats) -> (r: Self)
        ensures
            r.stats == stats,
    {
        LatencyTracker { stats }
    }

    /// Take in every fired probe, in order, and say for each probe whether
    /// it stays pending.
    pub fn fold_fired(&mut self, probes: &[ProbeReading]) -> (keep: Vec<bool>)
        ensures
            final(self).stats == folded(old(self).stats, probes@),
            keep@.len() == probes@.len(),
            forall|i: int| 0 <= i < probes@.len() ==> keep@[i] == stays_pending(#[trigger] probes@[i]),
    {
        let mut keep: Vec<bool> = Vec::new();
        let mut i: usize = 0;
        while i < probes.len()
            invariant
                i <= probes@.len(),
                keep@.len() == i,
                forall|m: int| 0 <= m < i ==> keep@[m] == stays_pending(#[trigger] probes@[m]),
                self.stats == folded(old(self).stats, probes@.take(i as int)),
            decreases probes@.len() - i,
        {
            let p = probes[i];
            assert(probes@.take(i as int + 1).drop_last() =~= probes@.take(i as int));
            if p.value == 0 {
                keep.push(p.held);
            } else {
                self.stats.last_ns = p.value;
                if p.value > self.stats.max_ns {
                    self.stats.max_ns = p.value;
                }
                self.stats.plays_measured = if self.stats.plays_measured == u64::MAX {
                    0
                } else {
                    self.stats.plays_measured + 1
                };
                keep.push(false);
            }
            i = i + 1;
        }
        assert(probes@.take(probes@.len() as int) =~= probes@);
        keep
    }
}

/// The largest latency is the largest ever taken in: after a fold it is at
/// least what it was and at least every fired probe's value.
pub proof fn law_max_latency_is_largest(s: PlayLatencyStats, probes: Seq<ProbeReading>)
    ensures
        folded(s, probes).max_ns >= s.max_ns,
        forall|i: int| 0 <= i < probes.len() ==> folded(s, probes).max_ns >= (#[trigger] probes[i]).value,
    decreases probes.len(),
{
    if probes.len() > 0 {
        let init = probes.drop_last();
        law_max_latency_is_largest(s, init);
        assert forall|i: int| 0 <= i < probes.len() implies folded(s, probes).max_ns >= (
        #[trigger] probes[i]).value by {
            if i < probes.len() - 1 {
                assert(init[i] == probes[i]);
            }
        }
    }
}

// ---------------------------------------------------------------------------
// Command answers
// ---------------------------------------------------------------------------

/// The answer to a command request.
pub struct CommandResponse {
    pub success: bool,
    pub message: Option<String>,
    pub error: Option<String>,
}

impl CommandResponse {
    /// A command was accepted.
    pub fn ok() -> (r: Self)
        ensures
            r.success,
            r.message matches Some(m) && m@ == "Command accepted"@,
            r.error is None,
    {
        CommandResponse { success: true, message: Some("Command accepted".to_owned()), error: None }
    }

    /// A command failed with `msg`.
    pub fn error(msg: &str) -> (r: Self)
        ensures
            !r.success,
            r.message is None,
            r.error matches Some(e) && e@ == msg@,
    {
        CommandResponse { success: false, message: None, error: Some(msg.to_owned()) }
    }
}

// ---------------------------------------------------------------------------
// Token comparison
// ---------------------------------------------------------------------------

proof fn lemma_diff_step(d: u8, x: u8, y: u8)
    ensures
        ((d | (x ^ y)) == 0) == (d == 0 && x == y),
{
    assert(((d | (x ^ y)) == 0) == (d == 0 && x == y)) by (bit_vector);
}

/// Whether two strings are equal, comparing every byte whatever the earlier
/// bytes held (only a difference in length returns early), so that the time
/// taken does not tell how much of a token was right.
pub fn ct_eq(a: &str, b: &str) -> (r: bool)
    ensures
        r == (a@ == b@),
{
    let x = a.as_bytes();
    let y = b.as_bytes();
    proof {
        vstd::utf8::encode_utf8_decode_utf8(a@);
        vstd::utf8::encode_utf8_decode_utf8(b@);
    }
    if x.len() != y.len() {
        proof {
            assert(x@ != y@);
        }
        return false;
    }
    let mut diff: u8 = 0;
    let mut i: usize = 0;
    while i < x.len()
        invariant
            x@.len() == y@.len(),
            i <= x@.len(),
            (diff == 0) == (forall|k: int| 0 <= k < i ==> x@[k] == y@[k]),
        decreases x@.len() - i,
    {
        proof {
            lemma_diff_step(diff, x@[i as int], y@[i as int]);
        }
        diff = diff | (x[i] ^ y[i]);
        i += 1;
    }
    proof {
        if diff == 0 {
            assert(x@ =~= y@);
        }
    }
    diff == 0
}

// ---------------------------------------------------------------------------
// Query-string decoding
// ---------------------------------------------------------------------------

/// The value of an ASCII hexadecimal digit.
pub open spec fn hex_value(b: u8) -> Option<u8> {
    if 0x30 <= b <= 0x39 {
        Some((b - 0x30) as u8)
    } else if 0x61 <= b <= 0x66 {
        Some((b - 0x61 + 10) as u8)
    } else if 0x41 <= b <= 0x46 {
        Some((b - 0x41 + 10) as u8)
    } else {
        None
    }
}

/// The byte two characters after a `%` stand for, as `u8::from_str_radix`
/// reads them in base 16: two hex digits, or a `+` sign and one digit.
pub open spec fn hex_pair(x: u8, y: u8) -> Option<u8> {
    if x == 0x2B {
        hex_value(y)
    } else {
        match (hex_value(x), hex_value(y)) {
            (Some(h), Some(l)) => Some((h * 16 + l) as u8),
            _ => None,
        }
    }
}

/// The bytes from position `i` on, decoded: `%` and a hex pair give that
/// byte, `+` gives a space, and any other byte (a `%` with no valid pair
/// among them) stays.
pub open spec fn decode_from(b: Seq<u8>, i: int) -> Seq<u8>
    decreases b.len() - i,
{
    if i < 0 || i >= b.len() {
        Seq::empty()
    } else if b[i] == 0x25 && i + 2 < b.len() && hex_pair(b[i + 1], b[i + 2]) is Some {
        seq![hex_pair(b[i + 1], b[i + 2])->0] + decode_from(b, i + 3)
    } else if b[i] == 0x2B {
        seq![0x20u8] + decode_from(b, i + 1)
    } else {
        seq![b[i]] + decode_from(b, i + 1)
    }
}

/// What `String::from_utf8_lossy` makes of `bytes`.
pub uninterp spec fn spec_utf8_lossy(bytes: Seq<u8>) -> Seq<char>;

/// `String::from_utf8_lossy`: the bytes as text, each invalid sequence
/// replaced by U+FFFD; valid UTF-8 comes back as the text it encodes. Which
/// replacement characters stand where for invalid input is not stated.
#[verifier::external_body]
fn utf8_lossy(bytes: &[u8]) -> (r: String)
    ensures
        r@ == spec_utf8_lossy(bytes@),
        valid_utf8(bytes@) ==> r@ == decode_utf8(bytes@),
{
    String::from_utf8_lossy(bytes).into_owned()
}

/// The text a query-parameter value stands for.
pub open spec fn spec_percent_decode(value: Seq<char>) -> Seq<char> {
    spec_utf8_lossy(decode_from(encode_utf8(value), 0))
}

proof fn lemma_hex_digit(b: u8)
    ensures
        hex_value(b) matches Some(v) ==> v < 16,
{
}

/// The hexadecimal digits `0`–`9`, `A`–`F` as bytes, digit `v` at position `v`.
pub open spec fn upper_hex_digits() -> Seq<u8> {
    seq![
        0x30u8, 0x31, 0x32, 0x33, 0x34, 0x35, 0x36, 0x37, 0x38, 0x39, 0x41, 0x42, 0x43, 0x44, 0x45,
        0x46,
    ]
}

/// The hexadecimal digits `0`–`9`, `a`–`f` as bytes, digit `v` at position `v`.
pub open spec fn lower_hex_digits() -> Seq<u8> {
    seq![
        0x30u8, 0x31, 0x32, 0x33, 0x34, 0x35, 0x36, 0x37, 0x38, 0x39, 0x61, 0x62, 0x63, 0x64, 0x65,
        0x66,
    ]
}

/// Hex digits are read in either case: every digit, upper or lower case,
/// stands for its value, and a byte reads the same as its lowercase form.
pub proof fn law_hex_digits_either_case(b: u8)
    ensures
        forall|v: int|
            0 <= v < 16 ==> hex_value(#[trigger] upper_hex_digits()[v]) == Some(v as u8)
                && hex_value(lower_hex_digits()[v]) == Some(v as u8),
        hex_value(b) == hex_value(ascii_lower(b)),
        hex_value(b) is Some <==> (exists|v: int|
            0 <= v < 16 && (b == #[trigger] upper_hex_digits()[v] || b == lower_hex_digits()[v])),
{
    let up = upper_hex_digits();
    let lo = lower_hex_digits();
    assert forall|v: int| 0 <= v < 16 implies hex_value(#[trigger] up[v]) == Some(v as u8) && hex_value(
        lo[v],
    ) == Some(v as u8) by {
        if v < 10 {
            assert(up[v] == 0x30 + v && lo[v] == 0x30 + v);
        } else {
            assert(up[v] == 0x41 + v - 10 && lo[v] == 0x61 + v - 10);
        }
    }
    if hex_value(b) is Some {
        if b <= 0x39 {
            let v = b - 0x30;
            assert(up[v] == b);
        } else if b <= 0x46 {
            let v = b - 0x41 + 10;
            assert(up[v] == b);
        } else {
            let v = b - 0x61 + 10;
            assert(lo[v] == b);
        }
    }
}

/// A `%` and two hex digits, in either case, decode to the byte they denote,
/// and what follows is decoded on.
pub proof fn law_percent_pair(hi: int, lo: int, upper_hi: bool, upper_lo: bool, rest: Seq<u8>)
    requires
        0 <= hi < 16,
        0 <= lo < 16,
    ensures
        ({
            let x = if upper_hi { upper_hex_digits()[hi] } else { lower_hex_digits()[hi] };
            let y = if upper_lo { upper_hex_digits()[lo] } else { lower_hex_digits()[lo] };
            decode_from(seq![0x25u8, x, y] + rest, 0) == seq![(hi * 16 + lo) as u8] + decode_from(rest, 0)
        }),
{
    law_hex_digits_either_case(0);
    let x = if upper_hi { upper_hex_digits()[hi] } else { lower_hex_digits()[hi] };
    let y = if upper_lo { upper_hex_digits()[lo] } else { lower_hex_digits()[lo] };
    let b = seq![0x25u8, x, y] + rest;
    assert(x != 0x2B) by {
        if upper_hi {
            assert(hex_value(upper_hex_digits()[hi]) == Some(hi as u8));
        } else {
            assert(hex_value(lower_hex_digits()[hi]) == Some(hi as u8));
        }
    }
    assert(hex_value(x) == Some(hi as u8));
    assert(hex_value(y) == Some(lo as u8));
    assert(b[0] == 0x25 && b[1] == x && b[2] == y);
    assert(hex_pair(x, y) == Some((hi * 16 + lo) as u8));
    assert(b.subrange(3, b.len() as int) =~= rest);
    lemma_decode_shift(b, rest, 3);
}

/// Decoding from position `k` of `pre + rest` (with `pre` of length `k`)
/// decodes `rest`.
proof fn lemma_decode_shift(b: Seq<u8>, rest: Seq<u8>, k: int)
    requires
        0 <= k <= b.len(),
        b.subrange(k, b.len() as int) == rest,
    ensures
        decode_from(b, k) == decode_from(rest, 0),
{
    lemma_decode_shift_at(b, rest, k, k);
}

proof fn lemma_decode_shift_at(b: Seq<u8>, rest: Seq<u8>, k: int, i: int)
    requires
        0 <= k <= i <= b.len(),
        b.subrange(k, b.len() as int) == rest,
    ensures
        decode_from(b, i) == decode_from(rest, i - k),
    decreases b.len() - i,
{
    if i < b.len() {
        assert(b[i] == rest[i - k]);
        if i + 1 < b.len() {
            assert(b[i + 1] == rest[i - k + 1]);
        }
        if i + 2 < b.len() {
            assert(b[i + 2] == rest[i - k + 2]);
        }
        lemma_decode_shift_at(b, rest, k, i + 1);
        if i + 3 <= b.len() {
            lemma_decode_shift_at(b, rest, k, i + 3);
        }
    }
}

fn hex_digit(b: u8) -> (r: Option<u8>)
    ensures
        r == hex_value(b),
{
    if 0x30 <= b && b <= 0x39 {
        Some(b - 0x30)
    } else if 0x61 <= b && b <= 0x66 {
        Some(b - 0x61 + 10)
    } else if 0x41 <= b && b <= 0x46 {
        Some(b - 0x41 + 10)
    } else {
        None
    }
}

fn hex_pair_value(x: u8, y: u8) -> (r: Option<u8>)
    ensures
        r == hex_pair(x, y),
{
    if x == 0x2B {
        hex_digit(y)
    } else {
        match (hex_digit(x), hex_digit(y)) {
            (Some(h), Some(l)) => {
                proof {
                    lemma_hex_digit(x);
                    lemma_hex_digit(y);
                }
                Some(h * 16 + l)
            },
            _ => None,
        }
    }
}

/// Percent-decode a query-parameter value, `+` standing for a space, so a
/// token with URL-encoded characters is read as written.
pub fn percent_decode(value: &str) -> (r: String)
    ensures
        r@ == spec_percent_decode(value@),
{
    let b = value.as_bytes();
    let mut out: Vec<u8> = Vec::new();
    let mut i: usize = 0;
    while i < b.len()
        invariant
            b@ == encode_utf8(value@),
            i <= b@.len(),
            out@ + decode_from(b@, i as int) == decode_from(b@, 0),
        decreases b@.len() - i,
    {
        let ghost before = out@;
        let c = b[i];
        let mut step: usize = 1;
        if c == 0x25 && b.len() - i > 2 {
            match hex_pair_value(b[i + 1], b[i + 2]) {
                Some(v) => {
                    out.push(v);
                    step = 3;
                },
                None => out.push(c),
            }
        } else if c == 0x2B {
            out.push(0x20);
        } else {
            out.push(c);
        }
        proof {
            assert(out@ + decode_from(b@, i + step) =~= before + decode_from(b@, i as int));
        }
        i = i + step;
    }
    proof {
        assert(out@ =~= decode_from(b@, 0));
    }
    utf8_lossy(out.as_slice())
}

// ---------------------------------------------------------------------------
// Who may send a request
// ---------------------------------------------------------------------------

/// The pieces of a query string between `&` separators, as `str::split('&')`
/// gives them (an empty string gives one empty piece).
pub open spec fn split_amp(q: Seq<char>) -> Seq<Seq<char>> {
    crate::text::split_char(q, '&')
}

/// Whether a query parameter is `token=` followed by the expected token,
/// percent-decoded.
pub open spec fn token_param_matches(param: Seq<char>, expected: Seq<char>) -> bool {
    "token="@.is_prefix_of(param) && spec_percent_decode(param.skip(6)) == expected
}

/// Whether an `Authorization` header value is `Bearer ` and the expected token.
pub open spec fn bearer_matches(header: Option<Seq<char>>, expected: Seq<char>) -> bool {
    header matches Some(h) && "Bearer "@.is_prefix_of(h) && h.skip(7) == expected
}

/// Whether some `token=` parameter of the query carries the expected token.
pub open spec fn query_matches(query: Option<Seq<char>>, expected: Seq<char>) -> bool {
    match query {
        Some(q) => some_token_param(split_amp(q), expected),
        None => false,
    }
}

/// Whether one of the query parameters carries the expected token.
pub open spec fn some_token_param(params: Seq<Seq<char>>, expected: Seq<char>) -> bool {
    exists|j: int| 0 <= j < params.len() && #[trigger] token_param_matches(params[j], expected)
}

/// Whether a request may pass. With no token configured it passes unless
/// `require_auth` is set (then nothing can authenticate); with a token it
/// must carry it as `Authorization: Bearer <token>` or as a `token=` query
/// parameter.
pub open spec fn spec_authorized(
    expected: Option<Seq<char>>,
    require_auth: bool,
    header: Option<Seq<char>>,
    query: Option<Seq<char>>,
) -> bool {
    match expected {
        None => !require_auth,
        Some(t) => bearer_matches(header, t) || query_matches(query, t),
    }
}

/// The text view of an optional string slice.
pub open spec fn opt_view(o: Option<&str>) -> Option<Seq<char>> {
    match o {
        Some(s) => Some(s@),
        None => None,
    }
}

/// The pieces of `q` between `&` separators.
pub fn split_params(q: &str) -> (r: Vec<String>)
    ensures
        crate::text::string_views(r@) == split_amp(q@),
{
    crate::text::split_on(q, '&')
}

/// Whether a request may pass (see [`spec_authorized`]): `expected` is the
/// configured token, `header` the `Authorization` header as text, `query`
/// the request's query string.
pub fn authorized(expected: Option<&str>, require_auth: bool, header: Option<&str>, query: Option<&str>) -> (r: bool)
    ensures
        r == spec_authorized(opt_view(expected), require_auth, opt_view(header), opt_view(query)),
{
    let token = match expected {
        None => return !require_auth,
        Some(t) => t,
    };
    let bearer_ok = match header {
        Some(h) => {
            if has_prefix(h, "Bearer ") {
                proof {
                    reveal_strlit("Bearer ");
                }
                ct_eq(h.substring_char(7, h.unicode_len()), token)
            } else {
                false
            }
        },
        None => false,
    };
    if bearer_ok {
        return true;
    }
    proof {
        reveal_strlit("Bearer ");
        if let Some(h) = opt_view(header) {
            if "Bearer "@.is_prefix_of(h) {
                assert(h.subrange(7, h.len() as int) =~= h.skip(7));
            }
        }
    }
    match query {
        None => false,
        Some(q) => {
            let params = split_params(q);
            let mut j: usize = 0;
            while j < params.len()
                invariant
                    opt_view(expected) == Some(token@),
                    opt_view(query) == Some(q@),
                    crate::text::string_views(params@) == split_amp(q@),
                    j <= params@.len(),
                    forall|k: int| 0 <= k < j ==> !#[trigger] token_param_matches(split_amp(q@)[k], token@),
                decreases params@.len() - j,
            {
                let p = params[j].as_str();
                proof {
                    assert(split_amp(q@)[j as int] == params@[j as int]@);
                    reveal_strlit("token=");
                }
                if has_prefix(p, "token=") {
                    let rest = p.substring_char(6, p.unicode_len());
                    proof {
                        assert(rest@ =~= p@.skip(6));
                    }
                    if ct_eq(percent_decode(rest).as_str(), token) {
                        proof {
                            assert(crate::text::string_views(params@).len() == params@.len());
                            assert(token_param_matches(split_amp(q@)[j as int], token@));
                            assert(0 <= j < split_amp(q@).len());
                            assert(some_token_param(split_amp(q@), token@));
                        }
                        return true;
                    }
                }
                j += 1;
            }
            proof {
                assert(params@.len() == split_amp(q@).len());
            }
            false
        },
    }
}

/// A request carrying the configured token as `Authorization: Bearer <token>`
/// is let through, whatever its query string and whatever `require_auth` says.
pub proof fn law_bearer_token_passes(token: Seq<char>, require_auth: bool, query: Option<Seq<char>>)
    ensures
        spec_authorized(Some(token), require_auth, Some("Bearer "@ + token), query),
{
    reveal_strlit("Bearer ");
    let h = "Bearer "@ + token;
    assert("Bearer "@ =~= h.subrange(0, 7));
    assert(h.skip(7) =~= token);
}

/// A request that carries no token at all passes exactly when no token is
/// configured and authentication is not required.
pub proof fn law_tokenless_request(expected: Option<Seq<char>>, require_auth: bool)
    ensures
        spec_authorized(expected, require_auth, None, None) == (expected is None && !require_auth),
{
}

/// ASCII lower case of a byte.
pub open spec fn ascii_lower(b: u8) -> u8 {
    if 0x41 <= b <= 0x5A {
        (b + 32) as u8
    } else {
        b
    }
}

/// Whether a `Sec-Fetch-Site` header value says `cross-site`, ignoring ASCII case.
pub open spec fn spec_cross_site(value: Seq<u8>) -> bool {
    value.len() == 10 && forall|i: int| 0 <= i < 10 ==> #[trigger] ascii_lower(value[i]) == "cross-site"@[i] as u8
}

/// Whether a `Sec-Fetch-Site` header value (its bytes) marks a request sent
/// by a page on another site; such requests are refused unless CORS is open.
pub fn is_cross_site(value: &[u8]) -> (r: bool)
    ensures
        r == spec_cross_site(value@),
{
    let expected: [u8; 10] = [0x63, 0x72, 0x6F, 0x73, 0x73, 0x2D, 0x73, 0x69, 0x74, 0x65];
    proof {
        reveal_strlit("cross-site");
        assert(forall|i: int| 0 <= i < 10 ==> expected@[i] == "cross-site"@[i] as u8);
    }
    if value.len() != 10 {
        return false;
    }
    let mut i: usize = 0;
    while i < 10
        invariant
            value@.len() == 10,
            i <= 10,
            forall|k: int| 0 <= k < 10 ==> expected@[k] == "cross-site"@[k] as u8,
            forall|k: int| 0 <= k < i ==> #[trigger] ascii_lower(value@[k]) == "cross-site"@[k] as u8,
        decreases 10 - i,
    {
        let b = value[i];
        let lower = if 0x41 <= b && b <= 0x5A {
            b + 32
        } else {
            b
        };
        if lower != expected[i] {
            proof {
                assert(ascii_lower(value@[i as int]) != "cross-site"@[i as int] as u8);
            }
            return false;
        }
        i += 1;
    }
    true
}

/// The warning logged when the control API listens on a non-loopback address
/// with no authentication.
pub open spec fn exposure_message(addr: Seq<char>) -> Seq<char> {
    "HTTP control API exposed on "@ + addr
        + " without authentication. Set http.auth_token and http.require_auth to restrict access, or bind to 127.0.0.1."@
}

/// A warning when the HTTP control API is reachable from other machines
/// (`loopback` false for the bound address `addr`) without a token and
/// without `require_auth`; `None` otherwise.
pub fn exposure_warning(addr: &str, loopback: bool, auth_token: &Option<String>, require_auth: bool) -> (r: Option<String>)
    ensures
        match r {
            Some(m) => !loopback && auth_token is None && !require_auth && m@ == exposure_message(addr@),
            None => loopback || auth_token is Some || require_auth,
        },
{
    if !loopback && auth_token.is_none() && !require_auth {
        let mut m = "HTTP control API exposed on ".to_owned();
        m.append(addr);
        m.append(
            " without authentication. Set http.auth_token and http.require_auth to restrict access, or bind to 127.0.0.1.",
        );
        Some(m)
    } else {
        None
    }
}

} // verus!
