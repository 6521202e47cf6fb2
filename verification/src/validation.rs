//! Checking a configuration: every problem found, in a fixed order, each
//! with a message naming the setting.

use crate::config::{
    float_above, float_at_most, float_outside, spec_resolve_channel, spec_resolve_volume_key,
    Config, FloatBits, MAX_GAIN_BITS, ONE_BITS, TEN_BITS, TWO_HUNDRED_BITS, ZERO_BITS,
};
use crate::text::{decimal, number_message, push_decimal, string_views};
use vstd::prelude::*;

verus! {

/// One message when `c` holds, none otherwise.
pub open spec fn when(c: bool, m: Seq<char>) -> Seq<Seq<char>> {
    if c {
        seq![m]
    } else {
        Seq::empty()
    }
}

/// `prefix`, the decimal `n`, then `suffix`.
pub open spec fn numbered(prefix: Seq<char>, n: int, suffix: Seq<char>) -> Seq<char> {
    prefix + decimal(n as nat) + suffix
}

/// The problem found by resolving a reference, prefixed by where it stands.
pub open spec fn resolve_problem(r: Result<usize, Seq<char>>, at: Seq<char>) -> Seq<Seq<char>> {
    match r {
        Ok(_) => Seq::empty(),
        Err(e) => seq![at + e],
    }
}

/// The accepted logging levels.
pub open spec fn valid_level(level: Seq<char>) -> bool {
    level == "error"@ || level == "warn"@ || level == "info"@ || level == "debug"@ || level
        == "trace"@
}

/// Problems with the delivery mode, the sample rate and the buffer size.
pub open spec fn general_errors(cfg: Config) -> Seq<Seq<char>> {
    when(cfg.mqtt.topic is None && !cfg.http.enabled, "Either mqtt.topic or http.enabled is required"@)
        + when(
        cfg.audio.sample_rate < 8000 || cfg.audio.sample_rate > 192000,
        "audio.sample_rate must be between 8000 and 192000"@,
    ) + when(
        cfg.audio.buffer_size < 64 || cfg.audio.buffer_size > 8192,
        "audio.buffer_size must be between 64 and 8192"@,
    )
}

/// Problems with one `channel_volumes` entry: a gain outside [0, 4], a key
/// that names no channel.
pub open spec fn volume_entry_errors(cfg: Config, key: Seq<char>, gain: FloatBits) -> Seq<Seq<char>> {
    when(
        float_outside(gain.0, ZERO_BITS, MAX_GAIN_BITS),
        "audio.channel_volumes."@ + key + " must be between 0.0 and 4"@,
    ) + resolve_problem(spec_resolve_volume_key(cfg, key), "audio.channel_volumes."@ + key + ": "@)
}

/// Problems with the first `n` `channel_volumes` entries, in order.
pub open spec fn volume_errors(cfg: Config, n: int) -> Seq<Seq<char>>
    decreases n,
{
    if n <= 0 {
        Seq::empty()
    } else {
        let item = cfg.audio.channel_volumes.items()[n - 1];
        volume_errors(cfg, n - 1) + volume_entry_errors(cfg, item.0@, item.1)
    }
}

/// The problem with the logging level.
pub open spec fn level_errors(cfg: Config) -> Seq<Seq<char>> {
    when(!valid_level(cfg.logging.level@), "logging.level must be one of: error, warn, info, debug, trace"@)
}

/// Whether one of the first `i` bass sources resolves to channel `index`.
pub open spec fn resolved_before(cfg: Config, i: int, index: usize) -> bool {
    exists|k: int|
        0 <= k < i && spec_resolve_channel(cfg, cfg.bass_management.source_channels@[k]) == Ok::<
            usize,
            Seq<char>,
        >(index)
}

/// The problem with bass source `i`: it does not resolve, or resolves to a
/// channel an earlier source already named.
pub open spec fn source_error(cfg: Config, i: int) -> Seq<Seq<char>> {
    match spec_resolve_channel(cfg, cfg.bass_management.source_channels@[i]) {
        Ok(index) => when(
            resolved_before(cfg, i, index),
            numbered("bass_management.source_channels lists channel "@, index as int, " twice"@),
        ),
        Err(e) => seq![numbered("bass_management.source_channels["@, i, "]: "@) + e],
    }
}

/// Problems with the first `n` bass sources, in order.
pub open spec fn source_errors(cfg: Config, n: int) -> Seq<Seq<char>>
    decreases n,
{
    if n <= 0 {
        Seq::empty()
    } else {
        source_errors(cfg, n - 1) + source_error(cfg, n - 1)
    }
}

/// Problems with bass management; none while it is disabled.
pub open spec fn bass_errors(cfg: Config) -> Seq<Seq<char>> {
    let b = cfg.bass_management;
    if b.enabled {
        when(
            float_outside(b.crossover_frequency_hz.0, TEN_BITS, TWO_HUNDRED_BITS),
            "bass_management.crossover_frequency_hz must be between 10 and 200"@,
        ) + when(
            b.source_channels@.len() == 0,
            "bass_management.source_channels must not be empty when enabled"@,
        ) + resolve_problem(spec_resolve_channel(cfg, b.lfe_channel), "bass_management.lfe_channel: "@)
            + source_errors(cfg, b.source_channels@.len() as int)
    } else {
        Seq::empty()
    }
}

/// Where route `j` of input `i` stands, followed by `field`.
pub open spec fn route_at(i: int, j: int, field: Seq<char>) -> Seq<char> {
    numbered("inputs["@, i, "].routes["@) + decimal(j as nat) + field
}

/// Problems with route `j` of input `i`: its source, then its destination.
pub open spec fn route_error(cfg: Config, i: int, j: int) -> Seq<Seq<char>> {
    let r = cfg.inputs@[i].routes@[j];
    resolve_problem(spec_resolve_channel(cfg, r.source_channel), route_at(i, j, "].source_channel: "@))
        + resolve_problem(spec_resolve_channel(cfg, r.dest_channel), route_at(i, j, "].dest_channel: "@))
}

/// Problems with the first `n` routes of input `i`, in order.
pub open spec fn route_errors(cfg: Config, i: int, n: int) -> Seq<Seq<char>>
    decreases n,
{
    if n <= 0 {
        Seq::empty()
    } else {
        route_errors(cfg, i, n - 1) + route_error(cfg, i, n - 1)
    }
}

/// Problems with the gain, routes and latency of input `i`.
pub open spec fn input_range_errors(cfg: Config, i: int) -> Seq<Seq<char>> {
    let inp = cfg.inputs@[i];
    when(
        float_outside(inp.volume.0, ZERO_BITS, MAX_GAIN_BITS),
        numbered("inputs["@, i, "].volume must be between 0.0 and 4"@),
    ) + when(inp.routes@.len() == 0, numbered("inputs["@, i, "].routes must not be empty"@)) + when(
        inp.latency_ms < 5 || inp.latency_ms > 500,
        numbered("inputs["@, i, "].latency_ms must be between 5 and 500"@),
    )
}

/// Whether an explicit capture channel count is out of range.
pub open spec fn bad_channels(c: Option<usize>) -> bool {
    c matches Some(n) && (n == 0 || n > 64)
}

/// Whether an explicit capture sample rate is out of range.
pub open spec fn bad_rate(r: Option<u32>) -> bool {
    r matches Some(n) && (n < 8000 || n > 192000)
}

/// Whether an explicit activity threshold lies outside (0, 1].
pub open spec fn bad_threshold(t: Option<FloatBits>) -> bool {
    t matches Some(v) && (float_at_most(v.0, ZERO_BITS) || float_above(v.0, ONE_BITS))
}

/// Problems with the optional capture settings and the hold time of input `i`.
pub open spec fn input_option_errors(cfg: Config, i: int) -> Seq<Seq<char>> {
    let inp = cfg.inputs@[i];
    when(bad_channels(inp.channels), numbered("inputs["@, i, "].channels must be between 1 and 64"@))
        + when(
        bad_rate(inp.sample_rate),
        numbered("inputs["@, i, "].sample_rate must be between 8000 and 192000"@),
    ) + when(
        bad_threshold(inp.activity_threshold),
        numbered("inputs["@, i, "].activity_threshold must be above 0.0 and at most 1.0"@),
    ) + when(inp.activity_hold_ms > 10000, numbered("inputs["@, i, "].activity_hold_ms must be at most 10000"@))
}

/// Problems with the settings of input `i` other than its routes.
pub open spec fn input_setting_errors(cfg: Config, i: int) -> Seq<Seq<char>> {
    input_range_errors(cfg, i) + input_option_errors(cfg, i)
}

/// All problems with input `i`.
pub open spec fn input_error(cfg: Config, i: int) -> Seq<Seq<char>> {
    input_setting_errors(cfg, i) + route_errors(cfg, i, cfg.inputs@[i].routes@.len() as int)
}

/// Problems with the first `n` inputs, in order.
pub open spec fn input_errors(cfg: Config, n: int) -> Seq<Seq<char>>
    decreases n,
{
    if n <= 0 {
        Seq::empty()
    } else {
        input_errors(cfg, n - 1) + input_error(cfg, n - 1)
    }
}

/// Problems with ducking rule `i`.
pub open spec fn ducking_error(cfg: Config, i: int) -> Seq<Seq<char>> {
    let rule = cfg.ducking_rules@[i];
    when(
        float_outside(rule.target_volume.0, ZERO_BITS, ONE_BITS),
        numbered("ducking_rules["@, i, "].target_volume must be between 0.0 and 1.0"@),
    ) + when(
        rule.fade_duration_ms > 60000,
        numbered("ducking_rules["@, i, "].fade_duration_ms must be at most 60000"@),
    ) + when(
        rule.ducked_voices@.len() == 0,
        numbered("ducking_rules["@, i, "].ducked_voices must not be empty"@),
    )
}

/// Problems with the first `n` ducking rules, in order.
pub open spec fn ducking_errors(cfg: Config, n: int) -> Seq<Seq<char>>
    decreases n,
{
    if n <= 0 {
        Seq::empty()
    } else {
        ducking_errors(cfg, n - 1) + ducking_error(cfg, n - 1)
    }
}

/// Problems with the HTTP server settings; none while it is disabled. The
/// token's length is counted in UTF-8 bytes.
pub open spec fn http_errors(cfg: Config) -> Seq<Seq<char>> {
    if cfg.http.enabled {
        when(cfg.http.bind_address@.len() == 0, "http.bind_address must not be empty"@) + when(
            cfg.http.auth_token matches Some(t) && utf8_len(t@) < 8,
            "http.auth_token should be at least 8 characters for security"@,
        )
    } else {
        Seq::empty()
    }
}

/// The number of bytes UTF-8 takes for `c`.
pub open spec fn char_utf8_len(c: char) -> nat {
    if (c as u32) < 0x80 {
        1
    } else if (c as u32) < 0x800 {
        2
    } else if (c as u32) < 0x10000 {
        3
    } else {
        4
    }
}

/// The number of bytes UTF-8 takes for `s` (what `str::len` counts).
pub open spec fn utf8_len(s: Seq<char>) -> nat
    decreases s.len(),
{
    if s.len() == 0 {
        0
    } else {
        utf8_len(s.drop_last()) + char_utf8_len(s.last())
    }
}

proof fn lemma_utf8_len_prefix(s: Seq<char>, i: int, j: int)
    requires
        0 <= i <= j <= s.len(),
    ensures
        utf8_len(s.take(i)) <= utf8_len(s.take(j)),
    decreases j - i,
{
    if i < j {
        lemma_utf8_len_prefix(s, i, j - 1);
        assert(s.take(j).drop_last() =~= s.take(j - 1));
    }
}

/// Whether `s` takes fewer than `limit` bytes in UTF-8.
pub fn utf8_len_below(s: &str, limit: usize) -> (r: bool)
    ensures
        r == (utf8_len(s@) < limit),
{
    if limit == 0 {
        return false;
    }
    let n = s.unicode_len();
    let mut total: usize = 0;
    proof {
        assert(s@.take(0) =~= Seq::<char>::empty());
    }
    let mut i: usize = 0;
    while i < n
        invariant
            n == s@.len(),
            i <= n,
            total == utf8_len(s@.take(i as int)),
            total < limit,
        decreases n - i,
    {
        let c = s.get_char(i);
        let code = c as u32;
        let w: usize = if code < 0x80 {
            1
        } else if code < 0x800 {
            2
        } else if code < 0x10000 {
            3
        } else {
            4
        };
        proof {
            assert(s@.take(i + 1).drop_last() =~= s@.take(i as int));
            assert(s@.take(i + 1).last() == c);
        }
        if w >= limit - total {
            proof {
                lemma_utf8_len_prefix(s@, i + 1, n as int);
                assert(s@.take(n as int) =~= s@);
            }
            return false;
        }
        total = total + w;
        i = i + 1;
    }
    proof {
        assert(s@.take(n as int) =~= s@);
    }
    true
}

/// Every problem with a configuration, in the order they are reported.
pub open spec fn validation_errors(cfg: Config) -> Seq<Seq<char>> {
    general_errors(cfg) + volume_errors(cfg, cfg.audio.channel_volumes.items().len() as int)
        + level_errors(cfg) + bass_errors(cfg) + input_errors(cfg, cfg.inputs@.len() as int)
        + ducking_errors(cfg, cfg.ducking_rules@.len() as int) + http_errors(cfg)
}

/// Append `m` to the list of problems.
fn push_message(errors: &mut Vec<String>, m: String)
    ensures
        string_views(final(errors)@) == string_views(old(errors)@) + seq![m@],
{
    let ghost mv = m@;
    errors.push(m);
    proof {
        assert(string_views(errors@) =~= string_views(old(errors)@) + seq![mv]);
    }
}

/// Append `m` to the list of problems when `c` holds.
fn push_if(errors: &mut Vec<String>, c: bool, m: &str)
    ensures
        string_views(final(errors)@) == string_views(old(errors)@) + when(c, m@),
{
    if c {
        push_message(errors, m.to_owned());
    } else {
        proof {
            assert(string_views(errors@) =~= string_views(old(errors)@) + when(c, m@));
        }
    }
}

/// Append `prefix`, the decimal `n` and `suffix` when `c` holds.
fn push_numbered_if(errors: &mut Vec<String>, c: bool, prefix: &str, n: usize, suffix: &str)
    ensures
        string_views(final(errors)@) == string_views(old(errors)@) + when(
            c,
            numbered(prefix@, n as int, suffix@),
        ),
{
    if c {
        push_message(errors, number_message(prefix, n as u64, suffix));
    } else {
        proof {
            assert(string_views(errors@) =~= string_views(old(errors)@) + when(
                c,
                numbered(prefix@, n as int, suffix@),
            ));
        }
    }
}

/// Append `at` followed by the error of `r`, if `r` is an error.
fn push_resolve_problem(errors: &mut Vec<String>, r: Result<usize, String>, at: String)
    ensures
        string_views(final(errors)@) == string_views(old(errors)@) + resolve_problem(
            crate::config::result_view(r),
            at@,
        ),
{
    match r {
        Ok(_) => {
            proof {
                assert(string_views(errors@) =~= string_views(old(errors)@) + resolve_problem(
                    crate::config::result_view(r),
                    at@,
                ));
            }
        },
        Err(e) => {
            let mut m = at;
            m.append(e.as_str());
            push_message(errors, m);
        },
    }
}

/// Whether `x` occurs in `v`.
fn contains_index(v: &Vec<usize>, x: usize) -> (r: bool)
    ensures
        r == v@.contains(x),
{
    let mut i: usize = 0;
    while i < v.len()
        invariant
            i <= v@.len(),
            forall|k: int| 0 <= k < i ==> v@[k] != x,
        decreases v@.len() - i,
    {
        if v[i] == x {
            return true;
        }
        i += 1;
    }
    false
}

/// Text of route `j` of input `i` up to and including `field`.
fn route_at_text(i: usize, j: usize, field: &str) -> (r: String)
    ensures
        r@ == route_at(i as int, j as int, field@),
{
    let mut m = number_message("inputs[", i as u64, "].routes[");
    push_decimal(&mut m, j as u64);
    m.append(field);
    m
}

impl Config {
    /// Check the configuration. `Ok(())` when nothing is wrong, otherwise
    /// every problem found, in a fixed order: delivery mode, sample rate,
    /// buffer size, channel volumes, logging level, bass management, inputs,
    /// ducking rules, HTTP.
    pub fn validate(&self) -> (r: Result<(), Vec<String>>)
        requires
            self.wf(),
        ensures
            match r {
                Ok(()) => validation_errors(*self).len() == 0,
                Err(v) => string_views(v@) == validation_errors(*self) && v@.len() > 0,
            },
    {
        let mut errors: Vec<String> = Vec::new();
        proof {
            assert(string_views(errors@) =~= Seq::<Seq<char>>::empty());
        }
        self.check_general(&mut errors);
        let ghost s1 = string_views(errors@);
        self.check_volumes(&mut errors);
        let ghost s2 = string_views(errors@);
        let level = self.logging.level.as_str();
        let valid = crate::keyed::same_text(level, "error") || crate::keyed::same_text(level, "warn")
            || crate::keyed::same_text(level, "info") || crate::keyed::same_text(level, "debug")
            || crate::keyed::same_text(level, "trace");
        push_if(
            &mut errors,
            !valid,
            "logging.level must be one of: error, warn, info, debug, trace",
        );
        let ghost s3 = string_views(errors@);
        self.check_bass(&mut errors);
        let ghost s4 = string_views(errors@);
        self.check_inputs(&mut errors);
        let ghost s5 = string_views(errors@);
        self.check_ducking(&mut errors);
        let ghost s6 = string_views(errors@);
        self.check_http(&mut errors);
        proof {
            assert(string_views(errors@) =~= validation_errors(*self));
        }
        if errors.len() == 0 {
            Ok(())
        } else {
            proof {
                assert(string_views(errors@).len() == errors@.len());
            }
            Err(errors)
        }
    }

    fn check_general(&self, errors: &mut Vec<String>)
        ensures
            string_views(final(errors)@) == string_views(old(errors)@) + general_errors(*self),
    {
        push_if(
            errors,
            self.mqtt.topic.is_none() && !self.http.enabled,
            "Either mqtt.topic or http.enabled is required",
        );
        push_if(
            errors,
            self.audio.sample_rate < 8000 || self.audio.sample_rate > 192000,
            "audio.sample_rate must be between 8000 and 192000",
        );
        push_if(
            errors,
            self.audio.buffer_size < 64 || self.audio.buffer_size > 8192,
            "audio.buffer_size must be between 64 and 8192",
        );
        proof {
            assert(string_views(errors@) =~= string_views(old(errors)@) + general_errors(*self));
        }
    }

    fn check_volumes(&self, errors: &mut Vec<String>)
        requires
            self.wf(),
        ensures
            string_views(final(errors)@) == string_views(old(errors)@) + volume_errors(
                *self,
                self.audio.channel_volumes.items().len() as int,
            ),
    {
        let n = self.audio.channel_volumes.len();
        let mut i: usize = 0;
        while i < n
            invariant
                self.wf(),
                n == self.audio.channel_volumes.items().len(),
                i <= n,
                string_views(errors@) == string_views(old(errors)@) + volume_errors(*self, i as int),
            decreases n - i,
        {
            let ghost before = string_views(errors@);
            let item = self.audio.channel_volumes.item(i);
            let key = item.0.as_str();
            let outside = item.1.below(ZERO_BITS) || item.1.above(MAX_GAIN_BITS);
            if outside {
                let mut m = "audio.channel_volumes.".to_owned();
                m.append(key);
                m.append(" must be between 0.0 and 4");
                push_message(errors, m);
            }
            let ghost mid = string_views(errors@);
            let mut at = "audio.channel_volumes.".to_owned();
            at.append(key);
            at.append(": ");
            push_resolve_problem(errors, self.resolve_channel_volume_key(key), at);
            proof {
                assert(mid =~= before + when(
                    float_outside(item.1.0, ZERO_BITS, MAX_GAIN_BITS),
                    "audio.channel_volumes."@ + key@ + " must be between 0.0 and 4"@,
                ));
                assert(string_views(errors@) =~= string_views(old(errors)@) + volume_errors(
                    *self,
                    i + 1,
                ));
            }
            i += 1;
        }
    }

    fn check_bass(&self, errors: &mut Vec<String>)
        requires
            self.wf(),
        ensures
            string_views(final(errors)@) == string_views(old(errors)@) + bass_errors(*self),
    {
        if !self.bass_management.enabled {
            proof {
                assert(string_views(errors@) =~= string_views(old(errors)@) + bass_errors(*self));
            }
            return;
        }
        let b = &self.bass_management;
        let outside = b.crossover_frequency_hz.below(TEN_BITS) || b.crossover_frequency_hz.above(
            TWO_HUNDRED_BITS,
        );
        push_if(errors, outside, "bass_management.crossover_frequency_hz must be between 10 and 200");
        push_if(
            errors,
            b.source_channels.len() == 0,
            "bass_management.source_channels must not be empty when enabled",
        );
        push_resolve_problem(
            errors,
            self.resolve_channel(&b.lfe_channel),
            "bass_management.lfe_channel: ".to_owned(),
        );
        let ghost head = string_views(errors@);
        let n = b.source_channels.len();
        let mut seen: Vec<usize> = Vec::new();
        let mut i: usize = 0;
        while i < n
            invariant
                self.wf(),
                n == self.bass_management.source_channels@.len(),
                i <= n,
                string_views(errors@) == head + source_errors(*self, i as int),
                forall|x: usize| #[trigger] seen@.contains(x) <==> resolved_before(*self, i as int, x),
            decreases n - i,
        {
            let ghost before = string_views(errors@);
            match self.resolve_channel(&self.bass_management.source_channels[i]) {
                Ok(index) => {
                    let twice = contains_index(&seen, index);
                    push_numbered_if(
                        errors,
                        twice,
                        "bass_management.source_channels lists channel ",
                        index,
                        " twice",
                    );
                    let ghost old_seen = seen@;
                    if !twice {
                        seen.push(index);
                        proof {
                            assert(seen@[old_seen.len() as int] == index);
                        }
                    }
                    proof {
                        assert(spec_resolve_channel(
                            *self,
                            self.bass_management.source_channels@[i as int],
                        ) == Ok::<usize, Seq<char>>(index));
                        assert forall|x: usize| #[trigger] seen@.contains(x) <==> resolved_before(
                            *self,
                            i + 1,
                            x,
                        ) by {
                            if old_seen.contains(x) {
                                let k = choose|k: int| 0 <= k < old_seen.len() && old_seen[k] == x;
                                assert(seen@[k] == x);
                            }
                            if seen@.contains(x) && x != index {
                                let k = choose|k: int| 0 <= k < seen@.len() && seen@[k] == x;
                                assert(old_seen[k] == x);
                            }
                            if resolved_before(*self, i as int, x) {
                                let k = choose|k: int|
                                    0 <= k < i && spec_resolve_channel(
                                        *self,
                                        self.bass_management.source_channels@[k],
                                    ) == Ok::<usize, Seq<char>>(x);
                                assert(0 <= k < i + 1);
                            }
                            if resolved_before(*self, i + 1, x) && x != index {
                                let k = choose|k: int|
                                    0 <= k < i + 1 && spec_resolve_channel(
                                        *self,
                                        self.bass_management.source_channels@[k],
                                    ) == Ok::<usize, Seq<char>>(x);
                                assert(k != i);
                                assert(resolved_before(*self, i as int, x));
                            }
                            if x == index {
                                assert(resolved_before(*self, i + 1, x));
                            }
                        }
                    }
                },
                Err(e) => {
                    let at = number_message("bass_management.source_channels[", i as u64, "]: ");
                    let mut m = at;
                    m.append(e.as_str());
                    push_message(errors, m);
                    proof {
                        assert forall|x: usize| #[trigger] seen@.contains(x) <==> resolved_before(
                            *self,
                            i + 1,
                            x,
                        ) by {
                            if resolved_before(*self, i + 1, x) {
                                let k = choose|k: int|
                                    0 <= k < i + 1 && spec_resolve_channel(
                                        *self,
                                        self.bass_management.source_channels@[k],
                                    ) == Ok::<usize, Seq<char>>(x);
                                assert(k != i);
                                assert(resolved_before(*self, i as int, x));
                            }
                            if resolved_before(*self, i as int, x) {
                                let k = choose|k: int|
                                    0 <= k < i && spec_resolve_channel(
                                        *self,
                                        self.bass_management.source_channels@[k],
                                    ) == Ok::<usize, Seq<char>>(x);
                                assert(0 <= k < i + 1);
                            }
                        }
                    }
                },
            }
            proof {
                assert(string_views(errors@) =~= head + source_errors(*self, i + 1));
            }
            i += 1;
        }
        proof {
            assert(string_views(errors@) =~= string_views(old(errors)@) + bass_errors(*self));
        }
    }

    fn check_routes(&self, i: usize, errors: &mut Vec<String>)
        requires
            self.wf(),
            i < self.inputs@.len(),
        ensures
            string_views(final(errors)@) == string_views(old(errors)@) + route_errors(
                *self,
                i as int,
                self.inputs@[i as int].routes@.len() as int,
            ),
    {
        let routes = &self.inputs[i].routes;
        let n = routes.len();
        let mut j: usize = 0;
        while j < n
            invariant
                self.wf(),
                i < self.inputs@.len(),
                *routes == self.inputs@[i as int].routes,
                n == routes@.len(),
                j <= n,
                string_views(errors@) == string_views(old(errors)@) + route_errors(
                    *self,
                    i as int,
                    j as int,
                ),
            decreases n - j,
        {
            let ghost before = string_views(errors@);
            push_resolve_problem(
                errors,
                self.resolve_channel(&routes[j].source_channel),
                route_at_text(i, j, "].source_channel: "),
            );
            push_resolve_problem(
                errors,
                self.resolve_channel(&routes[j].dest_channel),
                route_at_text(i, j, "].dest_channel: "),
            );
            proof {
                assert(string_views(errors@) =~= string_views(old(errors)@) + route_errors(
                    *self,
                    i as int,
                    j + 1,
                ));
            }
            j += 1;
        }
    }

    fn check_input_ranges(&self, i: usize, errors: &mut Vec<String>)
        requires
            i < self.inputs@.len(),
        ensures
            string_views(final(errors)@) == string_views(old(errors)@) + input_range_errors(
                *self,
                i as int,
            ),
    {
        let inp = &self.inputs[i];
        push_numbered_if(
            errors,
            inp.volume.below(ZERO_BITS) || inp.volume.above(MAX_GAIN_BITS),
            "inputs[",
            i,
            "].volume must be between 0.0 and 4",
        );
        push_numbered_if(errors, inp.routes.len() == 0, "inputs[", i, "].routes must not be empty");
        push_numbered_if(
            errors,
            inp.latency_ms < 5 || inp.latency_ms > 500,
            "inputs[",
            i,
            "].latency_ms must be between 5 and 500",
        );
        proof {
            assert(string_views(errors@) =~= string_views(old(errors)@) + input_range_errors(
                *self,
                i as int,
            ));
        }
    }

    fn check_input_options(&self, i: usize, errors: &mut Vec<String>)
        requires
            i < self.inputs@.len(),
        ensures
            string_views(final(errors)@) == string_views(old(errors)@) + input_option_errors(
                *self,
                i as int,
            ),
    {
        let inp = &self.inputs[i];
        let channels_wrong = match inp.channels {
            Some(c) => c == 0 || c > 64,
            None => false,
        };
        push_numbered_if(errors, channels_wrong, "inputs[", i, "].channels must be between 1 and 64");
        let rate_wrong = match inp.sample_rate {
            Some(r) => r < 8000 || r > 192000,
            None => false,
        };
        push_numbered_if(
            errors,
            rate_wrong,
            "inputs[",
            i,
            "].sample_rate must be between 8000 and 192000",
        );
        let threshold_wrong = match inp.activity_threshold {
            Some(t) => t.at_most(ZERO_BITS) || t.above(ONE_BITS),
            None => false,
        };
        push_numbered_if(
            errors,
            threshold_wrong,
            "inputs[",
            i,
            "].activity_threshold must be above 0.0 and at most 1.0",
        );
        push_numbered_if(
            errors,
            inp.activity_hold_ms > 10000,
            "inputs[",
            i,
            "].activity_hold_ms must be at most 10000",
        );
        proof {
            assert(string_views(errors@) =~= string_views(old(errors)@) + input_option_errors(
                *self,
                i as int,
            ));
        }
    }

    fn check_input(&self, i: usize, errors: &mut Vec<String>)
        requires
            self.wf(),
            i < self.inputs@.len(),
        ensures
            string_views(final(errors)@) == string_views(old(errors)@) + input_error(*self, i as int),
    {
        self.check_input_ranges(i, errors);
        self.check_input_options(i, errors);
        let ghost mid = string_views(errors@);
        proof {
            assert(mid =~= string_views(old(errors)@) + input_setting_errors(*self, i as int));
        }
        self.check_routes(i, errors);
        proof {
            assert(string_views(errors@) =~= string_views(old(errors)@) + input_error(*self, i as int));
        }
    }

    fn check_inputs(&self, errors: &mut Vec<String>)
        requires
            self.wf(),
        ensures
            string_views(final(errors)@) == string_views(old(errors)@) + input_errors(
                *self,
                self.inputs@.len() as int,
            ),
    {
        let n = self.inputs.len();
        let mut i: usize = 0;
        while i < n
            invariant
                self.wf(),
                n == self.inputs@.len(),
                i <= n,
                string_views(errors@) == string_views(old(errors)@) + input_errors(*self, i as int),
            decreases n - i,
        {
            self.check_input(i, errors);
            proof {
                assert(string_views(errors@) =~= string_views(old(errors)@) + input_errors(
                    *self,
                    i + 1,
                ));
            }
            i += 1;
        }
    }

    fn check_ducking(&self, errors: &mut Vec<String>)
        ensures
            string_views(final(errors)@) == string_views(old(errors)@) + ducking_errors(
                *self,
                self.ducking_rules@.len() as int,
            ),
    {
        let n = self.ducking_rules.len();
        let mut i: usize = 0;
        while i < n
            invariant
                n == self.ducking_rules@.len(),
                i <= n,
                string_views(errors@) == string_views(old(errors)@) + ducking_errors(*self, i as int),
            decreases n - i,
        {
            let rule = &self.ducking_rules[i];
            push_numbered_if(
                errors,
                rule.target_volume.below(ZERO_BITS) || rule.target_volume.above(ONE_BITS),
                "ducking_rules[",
                i,
                "].target_volume must be between 0.0 and 1.0",
            );
            push_numbered_if(
                errors,
                rule.fade_duration_ms > 60000,
                "ducking_rules[",
                i,
                "].fade_duration_ms must be at most 60000",
            );
            push_numbered_if(
                errors,
                rule.ducked_voices.len() == 0,
                "ducking_rules[",
                i,
                "].ducked_voices must not be empty",
            );
            proof {
                assert(string_views(errors@) =~= string_views(old(errors)@) + ducking_errors(
                    *self,
                    i + 1,
                ));
            }
            i += 1;
        }
    }

    fn check_http(&self, errors: &mut Vec<String>)
        ensures
            string_views(final(errors)@) == string_views(old(errors)@) + http_errors(*self),
    {
        if !self.http.enabled {
            proof {
                assert(string_views(errors@) =~= string_views(old(errors)@) + http_errors(*self));
            }
            return;
        }
        push_if(errors, self.http.bind_address.as_str().is_empty(), "http.bind_address must not be empty");
        let short_token = match &self.http.auth_token {
            Some(t) => utf8_len_below(t.as_str(), 8),
            None => false,
        };
        push_if(errors, short_token, "http.auth_token should be at least 8 characters for security");
        proof {
            assert(string_views(errors@) =~= string_views(old(errors)@) + http_errors(*self));
        }
    }
}

} // verus!
