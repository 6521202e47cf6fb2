//! Text helpers with proved meaning: path joining and decimal numbers.

use vstd::prelude::*;

verus! {

/// A path joined to a relative or absolute part, as `Path::join` does with `/`
/// separators: an absolute part replaces the base, an empty base gives the
/// part, and otherwise one separator sits between them.
pub open spec fn join_path(base: Seq<char>, part: Seq<char>) -> Seq<char> {
    if part.len() > 0 && part[0] == '/' {
        part
    } else if base.len() == 0 {
        part
    } else if base.last() == '/' {
        base + part
    } else {
        base + seq!['/'] + part
    }
}

/// The decimal digits.
pub open spec fn decimal_digits() -> Seq<char> {
    seq!['0', '1', '2', '3', '4', '5', '6', '7', '8', '9']
}

/// The decimal representation of `n`, without leading zeros.
pub open spec fn decimal(n: nat) -> Seq<char>
    decreases n,
{
    if n < 10 {
        seq![decimal_digits()[n as int]]
    } else {
        decimal(n / 10) + seq![decimal_digits()[(n % 10) as int]]
    }
}

/// A decimal numeral has a digit, and two or more from ten on.
pub proof fn lemma_decimal_len(n: nat)
    ensures
        decimal(n).len() >= 1,
        n >= 10 ==> decimal(n).len() >= 2,
    decreases n,
{
    if n >= 10 {
        lemma_decimal_len(n / 10);
    }
}

/// Different numbers have different decimal numerals.
pub proof fn lemma_decimal_injective(a: nat, b: nat)
    ensures
        decimal(a) == decimal(b) ==> a == b,
    decreases a + b,
{
    if decimal(a) == decimal(b) {
        let d = decimal_digits();
        lemma_decimal_len(a / 10);
        lemma_decimal_len(b / 10);
        assert(forall|i: int, j: int| 0 <= i < 10 && 0 <= j < 10 && d[i] == d[j] ==> i == j);
        if a < 10 && b < 10 {
            assert(decimal(a)[0] == d[a as int]);
            assert(decimal(b)[0] == d[b as int]);
        } else if a < 10 {
            assert(decimal(b).len() >= 2);
        } else if b < 10 {
            assert(decimal(a).len() >= 2);
        } else {
            let da = decimal(a / 10);
            let db = decimal(b / 10);
            assert(decimal(a) == da + seq![d[(a % 10) as int]]);
            assert(decimal(b) == db + seq![d[(b % 10) as int]]);
            assert(da.len() == db.len());
            assert(da =~= decimal(a).take(da.len() as int));
            assert(db =~= decimal(b).take(db.len() as int));
            assert(decimal(a)[da.len() as int] == d[(a % 10) as int]);
            assert(decimal(b)[db.len() as int] == d[(b % 10) as int]);
            lemma_decimal_injective(a / 10, b / 10);
        }
    }
}

/// Joining two names that start alike onto one directory gives one path
/// only for one name.
pub proof fn lemma_join_cancel(base: Seq<char>, p: Seq<char>, q: Seq<char>)
    requires
        p.len() > 0,
        q.len() > 0,
        p[0] == q[0],
        join_path(base, p) == join_path(base, q),
    ensures
        p == q,
{
    let j = join_path(base, p);
    if p[0] == '/' || base.len() == 0 {
    } else if base.last() == '/' {
        assert(p =~= j.skip(base.len() as int));
        assert(q =~= j.skip(base.len() as int));
    } else {
        assert(p =~= j.skip(base.len() as int + 1));
        assert(q =~= j.skip(base.len() as int + 1));
    }
}

/// Join `part` onto the path `base` (see [`join_path`]).
pub fn join(base: &str, part: &str) -> (r: String)
    ensures
        r@ == join_path(base@, part@),
{
    let part_len = part.unicode_len();
    let base_len = base.unicode_len();
    if part_len > 0 && part.get_char(0) == '/' {
        return part.to_owned();
    }
    if base_len == 0 {
        return part.to_owned();
    }
    let mut out = base.to_owned();
    if base.get_char(base_len - 1) != '/' {
        out.append("/");
        proof {
            reveal_strlit("/");
        }
    }
    out.append(part);
    proof {
        assert(base@.last() == base@[base_len - 1]);
    }
    out
}

/// Append the decimal representation of `n` to `out`.
pub fn push_decimal(out: &mut String, n: u64)
    ensures
        final(out)@ == old(out)@ + decimal(n as nat),
    decreases n,
{
    let digits = "0123456789";
    proof {
        reveal_strlit("0123456789");
        assert(digits@ =~= decimal_digits());
    }
    if n >= 10 {
        push_decimal(out, n / 10);
    }
    let d = (n % 10) as usize;
    out.append(digits.substring_char(d, d + 1));
    proof {
        assert(digits@.subrange(d as int, d + 1) =~= seq![decimal_digits()[d as int]]);
        if n >= 10 {
            assert(out@ =~= old(out)@ + decimal(n as nat));
        } else {
            assert(out@ =~= old(out)@ + decimal(n as nat));
        }
    }
}


/// Whether `c` is an ASCII decimal digit.
pub open spec fn is_digit(c: char) -> bool {
    '0' <= c <= '9'
}

/// The value of a run of ASCII decimal digits.
pub open spec fn digits_value(s: Seq<char>) -> nat
    decreases s.len(),
{
    if s.len() == 0 {
        0
    } else {
        digits_value(s.drop_last()) * 10 + ((s.last() as u32) - ('0' as u32)) as nat
    }
}

/// The digits part of an unsigned number: `s` without a leading `+`.
pub open spec fn unsigned_digits(s: Seq<char>) -> Seq<char> {
    if s.len() > 0 && s[0] == '+' {
        s.drop_first()
    } else {
        s
    }
}

/// What parsing `s` as a `usize` gives, as Rust's integer parsing does for an
/// unsigned type: an optional `+`, then one or more ASCII digits (nothing else,
/// no whitespace), whose value fits in a `usize`.
pub open spec fn spec_parse_usize(s: Seq<char>) -> Option<usize> {
    let d = unsigned_digits(s);
    if d.len() > 0 && (forall|i: int| 0 <= i < d.len() ==> is_digit(#[trigger] d[i]))
        && digits_value(d) <= usize::MAX {
        Some(digits_value(d) as usize)
    } else {
        None
    }
}

proof fn lemma_digits_value_monotone(s: Seq<char>, i: int)
    requires
        0 <= i <= s.len(),
        forall|j: int| 0 <= j < s.len() ==> is_digit(#[trigger] s[j]),
    ensures
        digits_value(s.take(i)) <= digits_value(s),
    decreases s.len(),
{
    if i < s.len() {
        let t = s.drop_last();
        assert(t.take(i) =~= s.take(i));
        assert forall|j: int| 0 <= j < t.len() implies is_digit(#[trigger] t[j]) by {
            assert(t[j] == s[j]);
        }
        lemma_digits_value_monotone(t, i);
    } else {
        assert(s.take(i) =~= s);
    }
}

/// Parse `s` as a `usize` the way Rust's integer parsing does (see
/// [`spec_parse_usize`]).
pub fn parse_usize(s: &str) -> (r: Option<usize>)
    ensures
        r == spec_parse_usize(s@),
{
    let n = s.unicode_len();
    let mut start: usize = 0;
    if n > 0 && s.get_char(0) == '+' {
        start = 1;
    }
    let ghost d = s@.subrange(start as int, n as int);
    proof {
        if n > 0 && s@[0] == '+' {
            assert(d =~= s@.drop_first());
        } else {
            assert(d =~= s@);
        }
    }
    if start >= n {
        return None;
    }
    let mut value: usize = 0;
    let mut i: usize = start;
    while i < n
        invariant
            n == s@.len(),
            start <= i <= n,
            d == s@.subrange(start as int, n as int),
            d == unsigned_digits(s@),
            d.len() > 0,
            forall|j: int| start <= j < i ==> is_digit(#[trigger] s@[j]),
            value == digits_value(d.take(i - start)),
        decreases n - i,
    {
        let c = s.get_char(i);
        if !('0' <= c && c <= '9') {
            proof {
                assert(d[i - start] == c);
                assert(!is_digit(d[i - start]));
            }
            return None;
        }
        let digit = (c as u32 - '0' as u32) as usize;
        proof {
            let t = d.take(i - start + 1);
            assert(t.drop_last() =~= d.take(i - start));
            assert(t.last() == c);
        }
        if value > (usize::MAX - digit) / 10 {
            proof {
                assert(value * 10 + digit > usize::MAX) by (nonlinear_arith)
                    requires
                        value > (usize::MAX - digit) / 10,
                        digit <= 9,
                ;
                if forall|k: int| 0 <= k < d.len() ==> is_digit(#[trigger] d[k]) {
                    lemma_digits_value_monotone(d, i - start + 1);
                }
            }
            return None;
        }
        proof {
            assert(value * 10 + digit <= usize::MAX) by (nonlinear_arith)
                requires
                    value <= (usize::MAX - digit) / 10,
                    digit <= 9,
            ;
        }
        value = value * 10 + digit;
        i += 1;
    }
    proof {
        assert(d.take(n - start) =~= d);
        assert forall|j: int| 0 <= j < d.len() implies is_digit(#[trigger] d[j]) by {
            assert(d[j] == s@[start + j]);
        }
    }
    Some(value)
}

/// What parsing `s` as a `u64` gives, as Rust's integer parsing does for an
/// unsigned type: an optional `+`, then one or more ASCII digits (nothing else,
/// no whitespace), whose value fits in a `u64`.
pub open spec fn spec_parse_u64(s: Seq<char>) -> Option<u64> {
    let d = unsigned_digits(s);
    if d.len() > 0 && (forall|i: int| 0 <= i < d.len() ==> is_digit(#[trigger] d[i]))
        && digits_value(d) <= u64::MAX {
        Some(digits_value(d) as u64)
    } else {
        None
    }
}

/// Parse `s` as a `u64` the way Rust's integer parsing does (see
/// [`spec_parse_u64`]).
pub fn parse_u64(s: &str) -> (r: Option<u64>)
    ensures
        r == spec_parse_u64(s@),
{
    let n = s.unicode_len();
    let mut start: usize = 0;
    if n > 0 && s.get_char(0) == '+' {
        start = 1;
    }
    let ghost d = s@.subrange(start as int, n as int);
    proof {
        if n > 0 && s@[0] == '+' {
            assert(d =~= s@.drop_first());
        } else {
            assert(d =~= s@);
        }
    }
    if start >= n {
        return None;
    }
    let mut value: u64 = 0;
    let mut i: usize = start;
    while i < n
        invariant
            n == s@.len(),
            start <= i <= n,
            d == s@.subrange(start as int, n as int),
            d == unsigned_digits(s@),
            d.len() > 0,
            forall|j: int| start <= j < i ==> is_digit(#[trigger] s@[j]),
            value == digits_value(d.take(i - start)),
        decreases n - i,
    {
        let c = s.get_char(i);
        if !('0' <= c && c <= '9') {
            proof {
                assert(d[i - start] == c);
                assert(!is_digit(d[i - start]));
            }
            return None;
        }
        let digit = (c as u32 - '0' as u32) as u64;
        proof {
            let t = d.take(i - start + 1);
            assert(t.drop_last() =~= d.take(i - start));
            assert(t.last() == c);
        }
        if value > (u64::MAX - digit) / 10 {
            proof {
                assert(value * 10 + digit > u64::MAX) by (nonlinear_arith)
                    requires
                        value > (u64::MAX - digit) / 10,
                        digit <= 9,
                ;
                if forall|k: int| 0 <= k < d.len() ==> is_digit(#[trigger] d[k]) {
                    lemma_digits_value_monotone(d, i - start + 1);
                }
            }
            return None;
        }
        proof {
            assert(value * 10 + digit <= u64::MAX) by (nonlinear_arith)
                requires
                    value <= (u64::MAX - digit) / 10,
                    digit <= 9,
            ;
        }
        value = value * 10 + digit;
        i += 1;
    }
    proof {
        assert(d.take(n - start) =~= d);
        assert forall|j: int| 0 <= j < d.len() implies is_digit(#[trigger] d[j]) by {
            assert(d[j] == s@[start + j]);
        }
    }
    Some(value)
}

/// The texts of a sequence of strings.
pub open spec fn string_views(s: Seq<String>) -> Seq<Seq<char>> {
    s.map_values(|x: String| x@)
}

/// A string holding `prefix`, the decimal `n`, and `suffix`.
pub fn number_message(prefix: &str, n: u64, suffix: &str) -> (r: String)
    ensures
        r@ == prefix@ + decimal(n as nat) + suffix@,
{
    let mut m = prefix.to_owned();
    push_decimal(&mut m, n);
    m.append(suffix);
    m
}

/// Whether `s` begins with `prefix`.
pub fn has_prefix(s: &str, prefix: &str) -> (r: bool)
    ensures
        r == prefix@.is_prefix_of(s@),
{
    let n = prefix.unicode_len();
    if n > s.unicode_len() {
        return false;
    }
    let mut i: usize = 0;
    while i < n
        invariant
            n == prefix@.len(),
            n <= s@.len(),
            i <= n,
            forall|k: int| 0 <= k < i ==> prefix@[k] == s@[k],
        decreases n - i,
    {
        if prefix.get_char(i) != s.get_char(i) {
            proof {
                assert(prefix@[i as int] != s@.subrange(0, n as int)[i as int]);
            }
            return false;
        }
        i += 1;
    }
    proof {
        assert(prefix@ =~= s@.subrange(0, n as int));
    }
    true
}

/// The pieces of `q` between `sep` separators, as `str::split(sep)` gives
/// them (an empty string gives one empty piece).
pub open spec fn split_char(q: Seq<char>, sep: char) -> Seq<Seq<char>>
    decreases q.len(),
{
    if q.len() == 0 {
        seq![Seq::empty()]
    } else {
        let front = split_char(q.drop_last(), sep);
        if q.last() == sep {
            front.push(Seq::empty())
        } else {
            front.update(front.len() - 1, front.last().push(q.last()))
        }
    }
}

pub proof fn lemma_split_char_len(q: Seq<char>, sep: char)
    ensures
        split_char(q, sep).len() >= 1,
    decreases q.len(),
{
    if q.len() > 0 {
        lemma_split_char_len(q.drop_last(), sep);
    }
}

/// The pieces of `q` between `sep` separators (see [`split_char`]).
pub fn split_on(q: &str, sep: char) -> (r: Vec<String>)
    ensures
        string_views(r@) == split_char(q@, sep),
{
    let n = q.unicode_len();
    let mut pieces: Vec<String> = Vec::new();
    let mut start: usize = 0;
    let mut i: usize = 0;
    proof {
        assert(q@.take(0) =~= Seq::<char>::empty());
        assert(string_views(pieces@).push(q@.subrange(0, 0)) =~= split_char(q@.take(0), sep));
    }
    while i < n
        invariant
            n == q@.len(),
            start <= i <= n,
            string_views(pieces@).push(q@.subrange(start as int, i as int)) == split_char(
                q@.take(i as int),
                sep,
            ),
        decreases n - i,
    {
        let ghost prev = string_views(pieces@);
        let ghost cur = q@.subrange(start as int, i as int);
        proof {
            assert(q@.take(i + 1).drop_last() =~= q@.take(i as int));
            assert(q@.take(i + 1).last() == q@[i as int]);
            lemma_split_char_len(q@.take(i as int), sep);
        }
        if q.get_char(i) == sep {
            pieces.push(q.substring_char(start, i).to_owned());
            start = i + 1;
            proof {
                assert(split_char(q@.take(i + 1), sep) == split_char(q@.take(i as int), sep).push(Seq::<char>::empty()));
                assert(q@.subrange(start as int, i + 1) =~= Seq::<char>::empty());
                assert(string_views(pieces@) =~= prev.push(cur));
                assert(string_views(pieces@).push(q@.subrange(start as int, i + 1))
                    =~= split_char(q@.take(i + 1), sep));
            }
        } else {
            proof {
                assert(q@.subrange(start as int, i + 1) =~= cur.push(q@[i as int]));
                assert(prev.push(q@.subrange(start as int, i + 1)) =~= split_char(q@.take(i + 1), sep));
            }
        }
        i += 1;
    }
    pieces.push(q.substring_char(start, n).to_owned());
    proof {
        assert(q@.take(n as int) =~= q@);
    }
    pieces
}


// ---------------------------------------------------------------------------
// Ordering texts
// ---------------------------------------------------------------------------

/// Whether `a` sorts before `b` when both agree on their characters before
/// position `i`: character by character by code point, a proper prefix first.
pub open spec fn text_lt_from(a: Seq<char>, b: Seq<char>, i: int) -> bool
    decreases a.len() - i,
{
    if i >= a.len() {
        b.len() > i
    } else if i >= b.len() {
        false
    } else if a[i] != b[i] {
        (a[i] as int) < (b[i] as int)
    } else {
        text_lt_from(a, b, i + 1)
    }
}

/// Whether `a` sorts before `b`: the order of `str` (UTF-8 bytes compare as
/// their code points do).
pub open spec fn text_lt(a: Seq<char>, b: Seq<char>) -> bool {
    text_lt_from(a, b, 0)
}

/// Whether the texts are in increasing order, none twice.
pub open spec fn strictly_sorted(s: Seq<Seq<char>>) -> bool {
    forall|i: int, j: int| 0 <= i < j < s.len() ==> text_lt(#[trigger] s[i], #[trigger] s[j])
}

proof fn lemma_lt_from_irreflexive(a: Seq<char>, i: int)
    requires
        0 <= i,
    ensures
        !text_lt_from(a, a, i),
    decreases a.len() - i,
{
    if i < a.len() {
        lemma_lt_from_irreflexive(a, i + 1);
    }
}

proof fn lemma_lt_from_transitive(a: Seq<char>, b: Seq<char>, c: Seq<char>, i: int)
    requires
        0 <= i,
        text_lt_from(a, b, i),
        text_lt_from(b, c, i),
    ensures
        text_lt_from(a, c, i),
    decreases a.len() - i,
{
    if i < a.len() && a[i] == b[i] && b[i] == c[i] {
        lemma_lt_from_transitive(a, b, c, i + 1);
    }
}

proof fn lemma_lt_from_total(a: Seq<char>, b: Seq<char>, i: int)
    requires
        0 <= i <= a.len(),
        i <= b.len(),
    ensures
        text_lt_from(a, b, i) || text_lt_from(b, a, i) || (a.len() == b.len() && forall|j: int|
            i <= j < a.len() ==> a[j] == b[j]),
    decreases a.len() - i,
{
    if i < a.len() && i < b.len() {
        if a[i] == b[i] {
            lemma_lt_from_total(a, b, i + 1);
        } else {
            assert((a[i] as int) != (b[i] as int));
        }
    }
}

/// The order of texts is a strict total order.
pub proof fn lemma_text_order(a: Seq<char>, b: Seq<char>, c: Seq<char>)
    ensures
        !text_lt(a, a),
        text_lt(a, b) && text_lt(b, c) ==> text_lt(a, c),
        a != b ==> text_lt(a, b) || text_lt(b, a),
        text_lt(a, b) ==> !text_lt(b, a),
{
    lemma_lt_from_irreflexive(a, 0);
    if text_lt(a, b) && text_lt(b, c) {
        lemma_lt_from_transitive(a, b, c, 0);
    }
    lemma_lt_from_total(a, b, 0);
    if a != b {
        if a.len() == b.len() && forall|j: int| 0 <= j < a.len() ==> a[j] == b[j] {
            assert(a =~= b);
        }
    }
    if text_lt(a, b) && text_lt(b, a) {
        lemma_lt_from_transitive(a, b, a, 0);
    }
}

proof fn lemma_sorted_drop_first_set(a: Seq<Seq<char>>)
    requires
        strictly_sorted(a),
        a.len() > 0,
    ensures
        a.drop_first().to_set() == a.to_set().remove(a[0]),
        strictly_sorted(a.drop_first()),
{
    let d = a.drop_first();
    assert forall|x: Seq<char>| d.to_set().contains(x) <==> a.to_set().remove(a[0]).contains(x) by {
        if d.to_set().contains(x) {
            let k = choose|k: int| 0 <= k < d.len() && d[k] == x;
            assert(a[k + 1] == x);
            assert(text_lt(a[0], a[k + 1]));
            lemma_text_order(a[0], a[0], a[0]);
        }
        if a.to_set().remove(a[0]).contains(x) {
            let k = choose|k: int| 0 <= k < a.len() && a[k] == x;
            assert(k != 0);
            assert(d[k - 1] == x);
        }
    }
    assert(d.to_set() =~= a.to_set().remove(a[0]));
    assert forall|i: int, j: int| 0 <= i < j < d.len() implies text_lt(#[trigger] d[i], #[trigger] d[j]) by {
        assert(d[i] == a[i + 1] && d[j] == a[j + 1]);
    }
}

/// Two strictly sorted sequences of texts with the same elements are equal.
pub proof fn lemma_sorted_same_set(a: Seq<Seq<char>>, b: Seq<Seq<char>>)
    requires
        strictly_sorted(a),
        strictly_sorted(b),
        a.to_set() == b.to_set(),
    ensures
        a == b,
    decreases a.len(),
{
    if a.len() == 0 {
        if b.len() > 0 {
            assert(b.to_set().contains(b[0]));
        }
        assert(a =~= b);
    } else {
        if b.len() == 0 {
            assert(a.to_set().contains(a[0]));
        }
        assert(a.to_set().contains(a[0]));
        assert(b.to_set().contains(b[0]));
        let j = choose|j: int| 0 <= j < b.len() && b[j] == a[0];
        let i = choose|i: int| 0 <= i < a.len() && a[i] == b[0];
        if j > 0 && i > 0 {
            assert(text_lt(b[0], b[j]));
            assert(text_lt(a[0], a[i]));
            lemma_text_order(a[0], b[0], a[0]);
        } else if j > 0 {
            assert(text_lt(b[0], b[j]));
            lemma_text_order(a[0], a[0], a[0]);
        } else if i > 0 {
            assert(text_lt(a[0], a[i]));
            lemma_text_order(b[0], b[0], b[0]);
        }
        assert(a[0] == b[0]);
        lemma_sorted_drop_first_set(a);
        lemma_sorted_drop_first_set(b);
        lemma_sorted_same_set(a.drop_first(), b.drop_first());
        assert(a =~= seq![a[0]] + a.drop_first());
        assert(b =~= seq![b[0]] + b.drop_first());
    }
}

/// Whether `a` sorts before `b` (see [`text_lt`]).
pub fn text_less(a: &str, b: &str) -> (r: bool)
    ensures
        r == text_lt(a@, b@),
{
    let n = a.unicode_len();
    let m = b.unicode_len();
    let mut i: usize = 0;
    while i < n && i < m
        invariant
            n == a@.len(),
            m == b@.len(),
            i <= n,
            i <= m,
            text_lt(a@, b@) == text_lt_from(a@, b@, i as int),
        decreases n - i,
    {
        let x = a.get_char(i);
        let y = b.get_char(i);
        if x != y {
            return (x as u32) < (y as u32);
        }
        i += 1;
    }
    i < m && i >= n
}

/// Insert `s` into the strictly sorted `v`, unless it is there already.
pub fn insert_sorted(v: &mut Vec<String>, s: String)
    requires
        strictly_sorted(string_views(old(v)@)),
    ensures
        strictly_sorted(string_views(final(v)@)),
        string_views(final(v)@).to_set() == string_views(old(v)@).to_set().insert(s@),
{
    let ghost old_v = string_views(v@);
    let mut i: usize = 0;
    while i < v.len() && text_less(v[i].as_str(), s.as_str())
        invariant
            old_v == string_views(v@),
            strictly_sorted(old_v),
            i <= v@.len(),
            forall|k: int| 0 <= k < i ==> text_lt(#[trigger] old_v[k], s@),
        decreases v@.len() - i,
    {
        i += 1;
    }
    if i < v.len() && crate::keyed::same_text(v[i].as_str(), s.as_str()) {
        proof {
            assert(old_v[i as int] == s@);
            assert(old_v.to_set().insert(s@) =~= old_v.to_set());
        }
        return;
    }
    proof {
        if i < v@.len() {
            lemma_text_order(old_v[i as int], s@, s@);
            assert(text_lt(s@, old_v[i as int]));
        }
    }
    v.insert(i, s);
    proof {
        let nv = string_views(v@);
        assert(nv =~= old_v.insert(i as int, s@));
        assert forall|a: int, b: int| 0 <= a < b < nv.len() implies text_lt(
            #[trigger] nv[a],
            #[trigger] nv[b],
        ) by {
            if b == i {
            } else if a == i {
                if b > i + 1 {
                    lemma_text_order(s@, old_v[i as int], old_v[b - 1]);
                }
            } else if a < i && b > i {
                lemma_text_order(old_v[a], s@, old_v[b - 1]);
            }
        }
        assert forall|x: Seq<char>| nv.to_set().contains(x) <==> old_v.to_set().insert(s@).contains(
            x,
        ) by {
            if old_v.to_set().contains(x) && x != s@ {
                let k = choose|k: int| 0 <= k < old_v.len() && old_v[k] == x;
                if k < i {
                    assert(nv[k] == x);
                } else {
                    assert(nv[k + 1] == x);
                }
            }
            if nv.to_set().contains(x) {
                let k = choose|k: int| 0 <= k < nv.len() && nv[k] == x;
                if k < i {
                    assert(old_v[k] == x);
                } else if k > i {
                    assert(old_v[k - 1] == x);
                }
            }
            if x == s@ {
                assert(nv[i as int] == x);
            }
        }
        assert(nv.to_set() =~= old_v.to_set().insert(s@));
    }
}

} // verus!
