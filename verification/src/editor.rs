//! Pieces of the interactive configuration editor that hold no terminal
//! state: paths into the configuration document, the sections and their
//! texts, and the text measuring the form layout relies on.

use vstd::prelude::*;
use vstd::utf8::encode_utf8;

verus! {

// ---------------------------------------------------------------------------
// Paths into the document
// ---------------------------------------------------------------------------

/// One segment of a path into the configuration document.
#[derive(Clone, Debug, PartialEq)]
pub enum Seg {
    Key(String),
    Idx(usize),
}

/// The mathematical form of a path segment.
pub enum SegV {
    Key(Seq<char>),
    Idx(usize),
}

/// The form of a segment.
pub open spec fn seg_v(s: Seg) -> SegV {
    match s {
        Seg::Key(k) => SegV::Key(k@),
        Seg::Idx(n) => SegV::Idx(n),
    }
}

/// The form of a path.
pub open spec fn path_v(p: Seq<Seg>) -> Seq<SegV> {
    p.map_values(|s: Seg| seg_v(s))
}

/// The path made of the given keys.
pub open spec fn keys_v(keys: Seq<&str>) -> Seq<SegV> {
    keys.map_values(|k: &str| SegV::Key(k@))
}

/// A path made of the given keys, in order.
pub fn path_of(keys: &[&str]) -> (r: Vec<Seg>)
    ensures
        path_v(r@) == keys_v(keys@),
{
    let mut out: Vec<Seg> = Vec::new();
    let mut i: usize = 0;
    while i < keys.len()
        invariant
            i <= keys@.len(),
            path_v(out@) == keys_v(keys@.take(i as int)),
        decreases keys@.len() - i,
    {
        let ghost before = out@;
        out.push(Seg::Key(keys[i].to_owned()));
        proof {
            assert(path_v(out@) =~= path_v(before).push(SegV::Key(keys@[i as int]@)));
            assert(keys_v(keys@.take(i + 1)) =~= keys_v(keys@.take(i as int)).push(
                SegV::Key(keys@[i as int]@),
            ));
        }
        i += 1;
    }
    proof {
        assert(keys@.take(keys@.len() as int) =~= keys@);
    }
    out
}

// ---------------------------------------------------------------------------
// Sections
// ---------------------------------------------------------------------------

/// The editor's sections, in sidebar order.
#[derive(Clone, Copy, Debug, PartialEq, Eq, Structural)]
pub enum Section {
    Mqtt,
    Audio,
    Cache,
    Security,
    Logging,
    Http,
    Ducking,
    BassManagement,
    Inputs,
    Advanced,
    Macros,
}

/// A section's title in the sidebar.
pub open spec fn section_title(s: Section) -> Seq<char> {
    match s {
        Section::Mqtt => "MQTT"@,
        Section::Audio => "Audio"@,
        Section::Cache => "Cache"@,
        Section::Security => "Security"@,
        Section::Logging => "Logging"@,
        Section::Http => "HTTP"@,
        Section::Ducking => "Ducking Rules"@,
        Section::BassManagement => "Bass Management"@,
        Section::Inputs => "Inputs"@,
        Section::Advanced => "Advanced"@,
        Section::Macros => "Macros"@,
    }
}

/// The explanation shown above a section's form and in the help pane.
pub open spec fn section_intro(s: Section) -> Seq<char> {
    match s {
        Section::Mqtt => "How mqttaudio connects to your MQTT broker and which topic it listens on for commands. If you only use the HTTP API, the topic can stay unset."@,
        Section::Audio => "The output device and how sound leaves it: sample rate, channel count, per-channel names and calibration, and the output limiter. The device picker can play test tones through each speaker."@,
        Section::Cache => "How decoded audio is kept ready to play: the on-disk cache for remote files, what to preload at startup, memory limits, and when large files are streamed instead of fully loaded."@,
        Section::Security => "Limits which local files MQTT/HTTP commands are allowed to play. With no entries, any readable path on the machine can be played."@,
        Section::Logging => "What mqttaudio writes to its console log, in which format, and whether log records are also published to an MQTT topic."@,
        Section::Http => "The optional HTTP server: REST endpoints mirroring every MQTT command, plus a WebSocket for live logs. Useful for web UIs and testing without a broker."@,
        Section::Ducking => "Ducking automatically lowers some sounds while another plays \u{2014} for example, quiet the background music while an announcement is speaking. Sounds are grouped by voice name: the \"voice\" parameter of a Play command, or an input's voice_id."@,
        Section::BassManagement => "Extracts low frequencies from your main channels and routes them to a subwoofer (LFE) channel using a proper crossover. Use this when your main speakers are small and a subwoofer handles the bass."@,
        Section::Inputs => "Live inputs (microphones, line-in) mixed into the output in real time, with channel routing and a voice name so ducking rules can react to them. The device picker shows a live level meter."@,
        Section::Advanced => "Settings that rarely need changing: resampling quality and the config schema version marker."@,
        Section::Macros => "Macros are named bundles of command parameters. A command that includes \"macro\": \"name\" is merged with the bundle, so you can define presets like \"quiet\" once and reuse them from every sender."@,
    }
}

impl Section {
    /// Every section, in sidebar order.
    pub fn all() -> (r: [Section; 11])
        ensures
            r@ == seq![
                Section::Mqtt,
                Section::Audio,
                Section::Cache,
                Section::Security,
                Section::Logging,
                Section::Http,
                Section::Ducking,
                Section::BassManagement,
                Section::Inputs,
                Section::Advanced,
                Section::Macros,
            ],
    {
        let r = [
            Section::Mqtt,
            Section::Audio,
            Section::Cache,
            Section::Security,
            Section::Logging,
            Section::Http,
            Section::Ducking,
            Section::BassManagement,
            Section::Inputs,
            Section::Advanced,
            Section::Macros,
        ];
        proof {
            assert(r@ =~= seq![
                Section::Mqtt,
                Section::Audio,
                Section::Cache,
                Section::Security,
                Section::Logging,
                Section::Http,
                Section::Ducking,
                Section::BassManagement,
                Section::Inputs,
                Section::Advanced,
                Section::Macros,
            ]);
        }
        r
    }

    /// The section's title.
    pub fn title(&self) -> (r: &'static str)
        ensures
            r@ == section_title(*self),
    {
        match self {
            Section::Mqtt => "MQTT",
            Section::Audio => "Audio",
            Section::Cache => "Cache",
            Section::Security => "Security",
            Section::Logging => "Logging",
            Section::Http => "HTTP",
            Section::Ducking => "Ducking Rules",
            Section::BassManagement => "Bass Management",
            Section::Inputs => "Inputs",
            Section::Advanced => "Advanced",
            Section::Macros => "Macros",
        }
    }

    /// A short explanation of the section.
    pub fn intro(&self) -> (r: &'static str)
        ensures
            r@ == section_intro(*self),
    {
        match self {
            Section::Mqtt => "How mqttaudio connects to your MQTT broker and which topic it listens on for commands. If you only use the HTTP API, the topic can stay unset.",
            Section::Audio => "The output device and how sound leaves it: sample rate, channel count, per-channel names and calibration, and the output limiter. The device picker can play test tones through each speaker.",
            Section::Cache => "How decoded audio is kept ready to play: the on-disk cache for remote files, what to preload at startup, memory limits, and when large files are streamed instead of fully loaded.",
            Section::Security => "Limits which local files MQTT/HTTP commands are allowed to play. With no entries, any readable path on the machine can be played.",
            Section::Logging => "What mqttaudio writes to its console log, in which format, and whether log records are also published to an MQTT topic.",
            Section::Http => "The optional HTTP server: REST endpoints mirroring every MQTT command, plus a WebSocket for live logs. Useful for web UIs and testing without a broker.",
            Section::Ducking => "Ducking automatically lowers some sounds while another plays \u{2014} for example, quiet the background music while an announcement is speaking. Sounds are grouped by voice name: the \"voice\" parameter of a Play command, or an input's voice_id.",
            Section::BassManagement => "Extracts low frequencies from your main channels and routes them to a subwoofer (LFE) channel using a proper crossover. Use this when your main speakers are small and a subwoofer handles the bass.",
            Section::Inputs => "Live inputs (microphones, line-in) mixed into the output in real time, with channel routing and a voice name so ducking rules can react to them. The device picker shows a live level meter.",
            Section::Advanced => "Settings that rarely need changing: resampling quality and the config schema version marker.",
            Section::Macros => "Macros are named bundles of command parameters. A command that includes \"macro\": \"name\" is merged with the bundle, so you can define presets like \"quiet\" once and reuse them from every sender.",
        }
    }
}

// ---------------------------------------------------------------------------
// Device test timing
// ---------------------------------------------------------------------------

/// How long each test tone plays, in milliseconds.
pub const TONE_DURATION_MS: u32 = 500;

/// The gap between the starts of two tones of a speaker sweep, in
/// milliseconds: the tone itself plus 300 ms of silence.
pub fn sweep_interval() -> (r: u64)
    ensures
        r == TONE_DURATION_MS + 300,
{
    TONE_DURATION_MS as u64 + 300
}

// ---------------------------------------------------------------------------
// Text measuring
// ---------------------------------------------------------------------------

/// Byte offset of character position `cursor` in `s`: the UTF-8 length of the
/// characters before it, or the whole length when the cursor is at or past
/// the end.
pub open spec fn spec_byte_index(s: Seq<char>, cursor: int) -> usize {
    let k = if cursor < s.len() {
        cursor
    } else {
        s.len() as int
    };
    encode_utf8(s.take(k)).len() as usize
}

/// Byte offset of character position `cursor` in `s` (see [`spec_byte_index`]).
pub fn byte_index(s: &str, cursor: usize) -> (r: usize)
    ensures
        r == spec_byte_index(s@, cursor as int),
{
    let n = s.unicode_len();
    let k = if cursor < n {
        cursor
    } else {
        n
    };
    let head = s.substring_char(0, k);
    proof {
        assert(head@ =~= s@.take(k as int));
    }
    head.len()
}

/// Whether a character is white space (Unicode `White_Space`, what
/// `char::is_whitespace` tests).
pub open spec fn is_white(c: char) -> bool {
    ('\u{9}' <= c <= '\u{d}') || c == ' ' || c == '\u{85}' || c == '\u{a0}' || c == '\u{1680}' || (
    '\u{2000}' <= c <= '\u{200a}') || c == '\u{2028}' || c == '\u{2029}' || c == '\u{202f}' || c
        == '\u{205f}' || c == '\u{3000}'
}

/// Whether a character is white space (see [`is_white`]).
pub fn white(c: char) -> (r: bool)
    ensures
        r == is_white(c),
{
    ('\u{9}' <= c && c <= '\u{d}') || c == ' ' || c == '\u{85}' || c == '\u{a0}' || c == '\u{1680}'
        || ('\u{2000}' <= c && c <= '\u{200a}') || c == '\u{2028}' || c == '\u{2029}' || c
        == '\u{202f}' || c == '\u{205f}' || c == '\u{3000}'
}

/// `s` without its trailing white space.
pub open spec fn trim_end(s: Seq<char>) -> Seq<char>
    decreases s.len(),
{
    if s.len() > 0 && is_white(s.last()) {
        trim_end(s.drop_last())
    } else {
        s
    }
}

/// `s` without its leading white space.
pub open spec fn trim_start(s: Seq<char>) -> Seq<char>
    decreases s.len(),
{
    if s.len() > 0 && is_white(s[0]) {
        trim_start(s.drop_first())
    } else {
        s
    }
}

/// `s` without leading and trailing white space (what `str::trim` gives).
pub open spec fn trim(s: Seq<char>) -> Seq<char> {
    trim_start(trim_end(s))
}

proof fn lemma_trim_start_at(s: Seq<char>, k: int)
    requires
        0 <= k <= s.len(),
        forall|i: int| 0 <= i < k ==> is_white(#[trigger] s[i]),
        k == s.len() || !is_white(s[k]),
    ensures
        trim_start(s) == s.skip(k),
    decreases k,
{
    if k > 0 {
        assert(s.drop_first().skip(k - 1) =~= s.skip(k));
        lemma_trim_start_at(s.drop_first(), k - 1);
    } else {
        assert(s.skip(0) =~= s);
    }
}

/// `s` without leading and trailing white space (see [`trim`]).
pub fn trim_text(s: &str) -> (r: String)
    ensures
        r@ == trim(s@),
{
    let n = s.unicode_len();
    let mut end = n;
    while end > 0 && white(s.get_char(end - 1))
        invariant
            n == s@.len(),
            end <= n,
            forall|i: int| end <= i < n ==> is_white(#[trigger] s@[i]),
        decreases end,
    {
        end -= 1;
    }
    let mut begin: usize = 0;
    while begin < end && white(s.get_char(begin))
        invariant
            n == s@.len(),
            begin <= end <= n,
            forall|i: int| 0 <= i < begin ==> is_white(#[trigger] s@[i]),
        decreases end - begin,
    {
        begin += 1;
    }
    proof {
        lemma_trim_end_at(s@, end as int);
        let t = s@.take(end as int);
        assert forall|i: int| 0 <= i < begin implies is_white(#[trigger] t[i]) by {
            assert(t[i] == s@[i]);
        }
        if begin < end {
            assert(t[begin as int] == s@[begin as int]);
        }
        lemma_trim_start_at(t, begin as int);
        assert(t.skip(begin as int) =~= s@.subrange(begin as int, end as int));
    }
    s.substring_char(begin, end).to_owned()
}

/// The lengths, in characters, of the words of `s`: its runs of characters
/// other than white space, in order.
pub open spec fn word_lens(s: Seq<char>) -> Seq<nat>
    decreases s.len(),
{
    if s.len() == 0 {
        Seq::empty()
    } else {
        let w = word_lens(s.drop_last());
        if is_white(s.last()) {
            w
        } else if s.len() >= 2 && !is_white(s[s.len() - 2]) {
            w.update(w.len() - 1, w.last() + 1)
        } else {
            w.push(1)
        }
    }
}

/// Greedy filling of lines `width` columns wide with words of the given
/// lengths, one space between words: the number of breaks, the length of the
/// last line, and the number of words on it. A word that does not fit after
/// others starts a new line (a word longer than a line stands alone).
pub open spec fn greedy(ws: Seq<nat>, width: nat) -> (nat, nat, nat)
    decreases ws.len(),
{
    if ws.len() == 0 {
        (0, 0, 0)
    } else {
        let (b, len, words) = greedy(ws.drop_last(), width);
        let w = ws.last();
        if words > 0 && len + 1 + w > width {
            (b + 1, w, 1)
        } else {
            (b, if words > 0 {
                len + 1 + w
            } else {
                w
            }, words + 1)
        }
    }
}

/// Lines one line of text takes when wrapped to `width` columns.
pub open spec fn line_rows(line: Seq<char>, width: nat) -> nat {
    greedy(word_lens(line), width).0 + 1
}

/// Lines a list of lines takes when each is wrapped to `width` columns.
pub open spec fn rows_total(lines: Seq<Seq<char>>, width: nat) -> nat
    decreases lines.len(),
{
    if lines.len() == 0 {
        0
    } else {
        rows_total(lines.drop_last(), width) + line_rows(lines.last(), width)
    }
}

/// Lines `text` takes when word-wrapped to `width` columns (greedy wrap,
/// each newline starting a new line); at least one, and one when the width
/// is zero.
pub open spec fn spec_wrapped_line_count(text: Seq<char>, width: u16) -> nat {
    if width == 0 {
        1
    } else {
        let t = rows_total(crate::text::split_char(text, '\n'), width as nat);
        if t < 1 {
            1
        } else {
            t
        }
    }
}

/// The number of characters of the pieces, each counted with one more.
pub open spec fn pieces_len(ps: Seq<Seq<char>>) -> nat
    decreases ps.len(),
{
    if ps.len() == 0 {
        0
    } else {
        pieces_len(ps.drop_last()) + ps.last().len() + 1
    }
}

proof fn lemma_split_pieces_len(q: Seq<char>, sep: char)
    ensures
        pieces_len(crate::text::split_char(q, sep)) == q.len() + 1,
    decreases q.len(),
{
    if q.len() == 0 {
        let one = seq![Seq::<char>::empty()];
        assert(one.drop_last() =~= Seq::<Seq<char>>::empty());
        assert(pieces_len(one) == pieces_len(one.drop_last()) + one.last().len() + 1);
    } else {
        lemma_split_pieces_len(q.drop_last(), sep);
        crate::text::lemma_split_char_len(q.drop_last(), sep);
        let front = crate::text::split_char(q.drop_last(), sep);
        if q.last() != sep {
            let u = front.update(front.len() - 1, front.last().push(q.last()));
            assert(u.drop_last() =~= front.drop_last());
            assert(u.last() == front.last().push(q.last()));
            assert(pieces_len(u) == pieces_len(u.drop_last()) + u.last().len() + 1);
            assert(pieces_len(front) == pieces_len(front.drop_last()) + front.last().len() + 1);
        } else {
            let u = front.push(Seq::<char>::empty());
            assert(u.drop_last() =~= front);
            assert(pieces_len(u) == pieces_len(u.drop_last()) + u.last().len() + 1);
        }
    }
}

proof fn lemma_greedy_breaks(ws: Seq<nat>, width: nat)
    ensures
        greedy(ws, width).0 <= (if ws.len() > 0 {
            ws.len() - 1
        } else {
            0
        }),
        greedy(ws, width).2 <= ws.len(),
        ws.len() > 0 ==> greedy(ws, width).2 > 0,
    decreases ws.len(),
{
    if ws.len() > 0 {
        lemma_greedy_breaks(ws.drop_last(), width);
    }
}

proof fn lemma_word_lens_len(s: Seq<char>)
    ensures
        word_lens(s).len() <= s.len(),
        s.len() > 0 && !is_white(s.last()) ==> word_lens(s).len() > 0,
    decreases s.len(),
{
    if s.len() > 0 {
        lemma_word_lens_len(s.drop_last());
    }
}

proof fn lemma_rows_total_bound(lines: Seq<Seq<char>>, width: nat)
    ensures
        rows_total(lines, width) <= pieces_len(lines),
    decreases lines.len(),
{
    if lines.len() > 0 {
        lemma_rows_total_bound(lines.drop_last(), width);
        lemma_greedy_breaks(word_lens(lines.last()), width);
        lemma_word_lens_len(lines.last());
    }
}

/// The word lengths as mathematical numbers.
pub open spec fn nats(v: Seq<usize>) -> Seq<nat> {
    Seq::new(v.len(), |i: int| v[i] as nat)
}

/// Lines one line of text takes when wrapped to `width` columns.
fn line_rows_exec(line: &str, width: u16) -> (r: usize)
    ensures
        r == line_rows(line@, width as nat),
{
    let n = line.unicode_len();
    let mut ws: Vec<usize> = Vec::new();
    let mut i: usize = 0;
    proof {
        assert(line@.take(0) =~= Seq::<char>::empty());
        assert(nats(ws@) =~= Seq::<nat>::empty());
    }
    while i < n
        invariant
            n == line@.len(),
            i <= n,
            nats(ws@) == word_lens(line@.take(i as int)),
            ws@.len() <= i,
            forall|k: int| 0 <= k < ws@.len() ==> ws@[k] <= i,
        decreases n - i,
    {
        let c = line.get_char(i);
        let ghost t = line@.take((i + 1) as int);
        proof {
            assert(t.drop_last() =~= line@.take(i as int));
            assert(t.last() == c);
            lemma_word_lens_len(line@.take(i as int));
        }
        if white(c) {
        } else if i >= 1 && !white(line.get_char(i - 1)) {
            proof {
                assert(t[t.len() - 2] == line@[i - 1]);
                assert(line@.take(i as int).last() == line@[i - 1]);
            }
            let last = ws.len() - 1;
            let grown = ws[last] + 1;
            ws.set(last, grown);
            proof {
                assert(nats(ws@) =~= word_lens(t));
            }
        } else {
            proof {
                if i >= 1 {
                    assert(t[t.len() - 2] == line@[i - 1]);
                }
            }
            ws.push(1);
            proof {
                assert(nats(ws@) =~= word_lens(t));
            }
        }
        i += 1;
    }
    proof {
        assert(line@.take(n as int) =~= line@);
        lemma_word_lens_len(line@);
    }
    let m = ws.len();
    let mut b: usize = 0;
    let mut len: u128 = 0;
    let mut words: usize = 0;
    let mut k: usize = 0;
    proof {
        assert(nats(ws@).take(0) =~= Seq::<nat>::empty());
    }
    while k < m
        invariant
            m == ws@.len(),
            m <= n,
            n == line@.len(),
            nats(ws@) == word_lens(line@),
            forall|j: int| 0 <= j < m ==> ws@[j] <= n,
            k <= m,
            (b as nat, len as nat, words as nat) == greedy(nats(ws@).take(k as int), width as nat),
            len <= n + width,
            b as int <= (if k > 0 {
                k - 1
            } else {
                0
            }),
            words <= k,
        decreases m - k,
    {
        let w = ws[k];
        proof {
            assert(nats(ws@).take((k + 1) as int).drop_last() =~= nats(ws@).take(k as int));
            assert(nats(ws@).take((k + 1) as int).last() == w as nat);
        }
        if words > 0 && len + 1 + (w as u128) > (width as u128) {
            b = b + 1;
            len = w as u128;
            words = 1;
        } else {
            len = if words > 0 {
                len + 1 + (w as u128)
            } else {
                w as u128
            };
            words = words + 1;
        }
        k += 1;
    }
    proof {
        assert(nats(ws@).take(m as int) =~= nats(ws@));
    }
    b + 1
}

/// Lines `text` takes when word-wrapped to `width` columns (see
/// [`spec_wrapped_line_count`]); used to size the help pane.
pub fn wrapped_line_count(text: &str, width: u16) -> (r: usize)
    requires
        text@.len() < usize::MAX,
    ensures
        r == spec_wrapped_line_count(text@, width),
{
    if width == 0 {
        return 1;
    }
    let lines = crate::text::split_on(text, '\n');
    let ghost ls = crate::text::string_views(lines@);
    proof {
        lemma_split_pieces_len(text@, '\n');
        lemma_rows_total_bound(ls, width as nat);
    }
    let mut total: usize = 0;
    let mut j: usize = 0;
    proof {
        assert(ls.take(0) =~= Seq::<Seq<char>>::empty());
    }
    while j < lines.len()
        invariant
            ls == crate::text::string_views(lines@),
            ls == crate::text::split_char(text@, '\n'),
            pieces_len(ls) == text@.len() + 1,
            text@.len() < usize::MAX,
            j <= lines@.len(),
            total == rows_total(ls.take(j as int), width as nat),
            rows_total(ls.take(j as int), width as nat) <= pieces_len(ls.take(j as int)),
        decreases lines@.len() - j,
    {
        let line = lines[j].as_str();
        let rows = line_rows_exec(line, width);
        proof {
            let t = ls.take((j + 1) as int);
            assert(t.drop_last() =~= ls.take(j as int));
            assert(t.last() == line@);
            lemma_rows_total_bound(t, width as nat);
            lemma_pieces_len_prefix(ls, (j + 1) as int);
        }
        total = total + rows;
        j += 1;
    }
    proof {
        assert(ls.take(lines@.len() as int) =~= ls);
    }
    if total < 1 {
        1
    } else {
        total
    }
}

proof fn lemma_pieces_len_prefix(ps: Seq<Seq<char>>, k: int)
    requires
        0 <= k <= ps.len(),
    ensures
        pieces_len(ps.take(k)) <= pieces_len(ps),
    decreases ps.len(),
{
    if k < ps.len() {
        assert(ps.drop_last().take(k) =~= ps.take(k));
        lemma_pieces_len_prefix(ps.drop_last(), k);
    } else {
        assert(ps.take(k) =~= ps);
    }
}

/// Which pane has keyboard focus.
#[derive(Clone, Copy, Debug, PartialEq, Eq, Structural)]
pub enum Pane {
    Sidebar,
    Form,
}

/// One entry in the device picker.
pub struct PickerItem {
    /// Device name to store in the configuration; `None` = the system default.
    pub name: Option<String>,
    pub detail: String,
}

/// `text` cut to at most `max` characters: unchanged when it fits, otherwise
/// its first `max - 1` characters (none when `max` is zero), trailing white
/// space removed, and an ellipsis.
pub open spec fn spec_ellipsize(text: Seq<char>, max: int) -> Seq<char> {
    if text.len() <= max {
        text
    } else {
        trim_end(text.take(if max >= 1 {
            max - 1
        } else {
            0
        })) + seq!['\u{2026}']
    }
}

proof fn lemma_trim_end_at(s: Seq<char>, k: int)
    requires
        0 <= k <= s.len(),
        forall|i: int| k <= i < s.len() ==> is_white(#[trigger] s[i]),
        k == 0 || !is_white(s[k - 1]),
    ensures
        trim_end(s) == s.take(k),
    decreases s.len(),
{
    if s.len() > k {
        assert(s.drop_last().take(k) =~= s.take(k));
        lemma_trim_end_at(s.drop_last(), k);
    } else {
        assert(s.take(k) =~= s);
    }
}

proof fn lemma_trim_end_len(s: Seq<char>)
    ensures
        trim_end(s).len() <= s.len(),
    decreases s.len(),
{
    if s.len() > 0 && is_white(s.last()) {
        lemma_trim_end_len(s.drop_last());
    }
}

/// An ellipsized text never has more than `max` characters (for a limit of
/// at least one), and a text that fits comes back unchanged.
pub proof fn law_ellipsize_fits(text: Seq<char>, max: int)
    requires
        max >= 1,
    ensures
        spec_ellipsize(text, max).len() <= max,
        text.len() <= max ==> spec_ellipsize(text, max) == text,
{
    if text.len() > max {
        lemma_trim_end_len(text.take(max - 1));
    }
}

/// Cut `text` to at most `max` characters (see [`spec_ellipsize`]).
pub fn ellipsize(text: &str, max: usize) -> (r: String)
    ensures
        r@ == spec_ellipsize(text@, max as int),
{
    let n = text.unicode_len();
    if n <= max {
        return text.to_owned();
    }
    let keep = if max >= 1 {
        max - 1
    } else {
        0
    };
    let mut k = keep;
    while k > 0 && white(text.get_char(k - 1))
        invariant
            keep < n,
            n == text@.len(),
            k <= keep,
            forall|i: int| k <= i < keep ==> is_white(#[trigger] text@[i]),
        decreases k,
    {
        k -= 1;
    }
    proof {
        let t = text@.take(keep as int);
        assert forall|i: int| k <= i < t.len() implies is_white(#[trigger] t[i]) by {
            assert(t[i] == text@[i]);
        }
        lemma_trim_end_at(t, k as int);
        assert(t.take(k as int) =~= text@.take(k as int));
    }
    let mut out = text.substring_char(0, k).to_owned();
    out.append("\u{2026}");
    proof {
        reveal_strlit("\u{2026}");
        assert(out@ =~= spec_ellipsize(text@, max as int));
    }
    out
}


// ---------------------------------------------------------------------------
// Editing a value on one line
// ---------------------------------------------------------------------------

/// A key pressed while a value is being typed.
#[derive(Clone, Copy, Debug, PartialEq, Eq, Structural)]
pub enum EditKey {
    /// Insert a character at the cursor.
    Char(char),
    /// Delete the character before the cursor.
    Backspace,
    /// Delete the character at the cursor.
    Delete,
    Left,
    Right,
    Home,
    End,
}

/// The text being typed and the cursor, counted in characters.
pub struct LineEdit {
    pub buffer: String,
    pub cursor: usize,
}

/// The text and cursor after a key.
pub open spec fn spec_edit(b: Seq<char>, c: int, key: EditKey) -> (Seq<char>, int) {
    match key {
        EditKey::Char(ch) => (b.take(c) + seq![ch] + b.skip(c), c + 1),
        EditKey::Backspace => if c > 0 {
            (b.take(c - 1) + b.skip(c), c - 1)
        } else {
            (b, c)
        },
        EditKey::Delete => if c < b.len() {
            (b.take(c) + b.skip(c + 1), c)
        } else {
            (b, c)
        },
        EditKey::Left => (b, if c > 0 {
            c - 1
        } else {
            0
        }),
        EditKey::Right => (b, if c < b.len() {
            c + 1
        } else {
            c
        }),
        EditKey::Home => (b, 0),
        EditKey::End => (b, b.len() as int),
    }
}

/// `c` as a one-character string (`char::to_string`).
#[verifier::external_body]
fn char_text(c: char) -> (r: String)
    ensures
        r@ == seq![c],
{
    c.to_string()
}

impl LineEdit {
    /// The cursor stands within the text (at most just after its end).
    pub open spec fn wf(&self) -> bool {
        self.cursor <= self.buffer@.len()
    }

    /// An edit of `text` with the cursor at its end.
    pub fn new(text: String) -> (e: Self)
        ensures
            e.wf(),
            e.buffer@ == text@,
            e.cursor == text@.len(),
    {
        let n = text.as_str().unicode_len();
        LineEdit { buffer: text, cursor: n }
    }

    /// Apply a key (see [`spec_edit`]).
    pub fn apply(&mut self, key: EditKey)
        requires
            old(self).wf(),
            old(self).buffer@.len() < usize::MAX,
        ensures
            final(self).wf(),
            (final(self).buffer@, final(self).cursor as int) == spec_edit(
                old(self).buffer@,
                old(self).cursor as int,
                key,
            ),
    {
        let n = self.buffer.as_str().unicode_len();
        let c = self.cursor;
        match key {
            EditKey::Char(ch) => {
                let mut out = self.buffer.as_str().substring_char(0, c).to_owned();
                out.append(char_text(ch).as_str());
                out.append(self.buffer.as_str().substring_char(c, n));
                proof {
                    assert(out@ =~= old(self).buffer@.take(c as int) + seq![ch] + old(self).buffer@.skip(
                        c as int,
                    ));
                }
                self.buffer = out;
                self.cursor = c + 1;
            },
            EditKey::Backspace => {
                if c > 0 {
                    let mut out = self.buffer.as_str().substring_char(0, c - 1).to_owned();
                    out.append(self.buffer.as_str().substring_char(c, n));
                    proof {
                        assert(out@ =~= old(self).buffer@.take(c - 1) + old(self).buffer@.skip(
                            c as int,
                        ));
                    }
                    self.buffer = out;
                    self.cursor = c - 1;
                }
            },
            EditKey::Delete => {
                if c < n {
                    let mut out = self.buffer.as_str().substring_char(0, c).to_owned();
                    out.append(self.buffer.as_str().substring_char(c + 1, n));
                    proof {
                        assert(out@ =~= old(self).buffer@.take(c as int) + old(self).buffer@.skip(
                            c + 1,
                        ));
                    }
                    self.buffer = out;
                }
            },
            EditKey::Left => {
                if c > 0 {
                    self.cursor = c - 1;
                }
            },
            EditKey::Right => {
                if c < n {
                    self.cursor = c + 1;
                }
            },
            EditKey::Home => {
                self.cursor = 0;
            },
            EditKey::End => {
                self.cursor = n;
            },
        }
    }
}

/// Typing a character and then Backspace leaves the text and the cursor as
/// they were.
pub proof fn law_type_then_backspace(b: Seq<char>, c: int, ch: char)
    requires
        0 <= c <= b.len(),
    ensures
        ({
            let (b1, c1) = spec_edit(b, c, EditKey::Char(ch));
            spec_edit(b1, c1, EditKey::Backspace)
        }) == (b, c),
{
    let (b1, c1) = spec_edit(b, c, EditKey::Char(ch));
    assert(b1.take(c1 - 1) + b1.skip(c1) =~= b);
}

/// The cursor keys move without editing: Left and Right move one character
/// (stopping at the ends), Home and End go to the ends, and Left undoes
/// Right (and Right undoes Left) away from the ends.
pub proof fn law_cursor_moves(b: Seq<char>, c: int)
    requires
        0 <= c <= b.len(),
    ensures
        spec_edit(b, c, EditKey::Left).0 == b,
        spec_edit(b, c, EditKey::Right).0 == b,
        spec_edit(b, c, EditKey::Home).0 == b,
        spec_edit(b, c, EditKey::End).0 == b,
        c > 0 ==> spec_edit(b, c, EditKey::Left).1 == c - 1,
        c == 0 ==> spec_edit(b, c, EditKey::Left).1 == 0,
        c < b.len() ==> spec_edit(b, c, EditKey::Right).1 == c + 1,
        c == b.len() ==> spec_edit(b, c, EditKey::Right).1 == c,
        spec_edit(b, c, EditKey::Home).1 == 0,
        spec_edit(b, c, EditKey::End).1 == b.len(),
        c < b.len() ==> spec_edit(b, c + 1, EditKey::Left) == (b, c),
        c > 0 ==> spec_edit(b, c - 1, EditKey::Right) == (b, c),
{
}

/// Every key keeps the cursor within the text.
pub proof fn law_cursor_stays_in_text(b: Seq<char>, c: int, key: EditKey)
    requires
        0 <= c <= b.len(),
    ensures
        0 <= spec_edit(b, c, key).1 <= spec_edit(b, c, key).0.len(),
{
}

} // verus!
