//! Duration strings such as `"5m"`, `"1h30m"` or `"500ms"`, read as milliseconds.

use vstd::prelude::*;

use crate::text::{
    chars_of, copy_chars, is_alpha, is_ascii_alphabetic, is_ascii_digit, is_digit, is_ws, push_str,
    slice_chars, string_of, trim, trim_chars, trim_end, trim_start,
};

verus! {

/// What reading a duration string comes to: a total in milliseconds, a
/// diagnostic, or an intermediate total beyond `u64` (where the reader's
/// arithmetic would overflow).
pub enum DurationOutcome {
    Millis(int),
    Failure(Seq<char>),
    Overflow,
}

/// Number of leading ASCII digits of `s`.
pub open spec fn digit_run(s: Seq<char>) -> nat
    decreases s.len(),
{
    if s.len() > 0 && is_digit(s[0]) {
        1 + digit_run(s.drop_first())
    } else {
        0
    }
}

/// Number of leading ASCII letters of `s`.
pub open spec fn alpha_run(s: Seq<char>) -> nat
    decreases s.len(),
{
    if s.len() > 0 && is_alpha(s[0]) {
        1 + alpha_run(s.drop_first())
    } else {
        0
    }
}

/// The decimal value of a run of ASCII digits.
pub open spec fn digits_value(s: Seq<char>) -> int
    decreases s.len(),
{
    if s.len() == 0 {
        0
    } else {
        digits_value(s.drop_last()) * 10 + (s.last() as int - '0' as int)
    }
}

/// Milliseconds per unit for the supported suffixes `ms`, `s`, `m`, `h`, `d`.
pub open spec fn unit_millis(u: Seq<char>) -> Option<int> {
    if u == seq!['m', 's'] {
        Some(1)
    } else if u == seq!['s'] {
        Some(1000)
    } else if u == seq!['m'] {
        Some(60000)
    } else if u == seq!['h'] {
        Some(3600000)
    } else if u == seq!['d'] {
        Some(86400000)
    } else {
        None
    }
}

pub open spec fn msg_missing_number(c: char) -> Seq<char> {
    "unexpected '"@ + seq![c] + "' without a preceding number"@
}

pub open spec fn msg_invalid_number(n: Seq<char>) -> Seq<char> {
    "invalid number: '"@ + n + "'"@
}

pub open spec fn msg_unknown_unit(u: Seq<char>) -> Seq<char> {
    "unknown duration suffix '"@ + u + "' — use ms, s, m, h, or d"@
}

pub open spec fn msg_unexpected_char(c: char) -> Seq<char> {
    "unexpected character '"@ + seq![c] + "' in duration"@
}

pub open spec fn msg_trailing_number(n: Seq<char>) -> Seq<char> {
    "trailing number '"@ + n + "' without a unit suffix (ms, s, m, h, d)"@
}

/// Reads the segments `<digits><letters>` of `s` left to right, adding each
/// to `acc`; the first malformed spot decides the diagnostic.
pub open spec fn read_segments(s: Seq<char>, acc: int) -> DurationOutcome
    decreases s.len(),
{
    if s.len() == 0 {
        DurationOutcome::Millis(acc)
    } else {
        let d = digit_run(s) as int;
        if d >= s.len() {
            DurationOutcome::Failure(msg_trailing_number(s))
        } else if !is_alpha(s[d]) {
            DurationOutcome::Failure(msg_unexpected_char(s[d]))
        } else if d == 0 {
            DurationOutcome::Failure(msg_missing_number(s[0]))
        } else {
            let num = s.take(d);
            let rest = s.skip(d);
            let a = alpha_run(rest) as int;
            proof {
                lemma_alpha_run_bound(rest);
            }
            let unit = rest.take(a);
            if digits_value(num) > u64::MAX {
                DurationOutcome::Failure(msg_invalid_number(num))
            } else {
                match unit_millis(unit) {
                    None => DurationOutcome::Failure(msg_unknown_unit(unit)),
                    Some(m) => {
                        let next = acc + digits_value(num) * m;
                        if next > u64::MAX {
                            DurationOutcome::Overflow
                        } else {
                            read_segments(rest.skip(a), next)
                        }
                    }
                }
            }
        }
    }
}

/// What `parse_duration_ms` makes of `input`.
pub open spec fn duration_outcome(input: Seq<char>) -> DurationOutcome {
    let t = trim(input);
    if t.len() == 0 {
        DurationOutcome::Failure("empty duration string"@)
    } else {
        match read_segments(t, 0) {
            DurationOutcome::Millis(v) => if v == 0 {
                DurationOutcome::Failure("duration must be greater than zero"@)
            } else {
                DurationOutcome::Millis(v)
            },
            other => other,
        }
    }
}

/// Whether reading `input` runs past `u64` while adding up its segments.
pub open spec fn duration_overflows(input: Seq<char>) -> bool {
    duration_outcome(input) is Overflow
}

pub proof fn lemma_digits_value_nonneg(s: Seq<char>)
    requires
        forall|k: int| 0 <= k < s.len() ==> is_digit(#[trigger] s[k]),
    ensures
        digits_value(s) >= 0,
    decreases s.len(),
{
    if s.len() > 0 {
        lemma_digits_value_nonneg(s.drop_last());
    }
}

pub proof fn lemma_digits_value_grows(s: Seq<char>, k: int)
    requires
        0 <= k <= s.len(),
        forall|i: int| 0 <= i < s.len() ==> is_digit(#[trigger] s[i]),
    ensures
        digits_value(s.take(k)) <= digits_value(s),
    decreases s.len() - k,
{
    if k < s.len() {
        assert(s.take(s.len() - 1) =~= s.drop_last());
        lemma_digits_value_grows(s.drop_last(), k);
        assert(s.drop_last().take(k) =~= s.take(k));
        lemma_digits_value_nonneg(s.drop_last());
    } else {
        assert(s.take(k) =~= s);
    }
}

proof fn lemma_digit_run_bound(s: Seq<char>)
    ensures
        digit_run(s) <= s.len(),
        forall|k: int| 0 <= k < digit_run(s) ==> is_digit(#[trigger] s[k]),
        digit_run(s) < s.len() ==> !is_digit(s[digit_run(s) as int]),
    decreases s.len(),
{
    if s.len() > 0 && is_digit(s[0]) {
        lemma_digit_run_bound(s.drop_first());
        assert forall|k: int| 0 <= k < digit_run(s) implies is_digit(#[trigger] s[k]) by {
            if k > 0 {
                assert(s[k] == s.drop_first()[k - 1]);
            }
        }
    }
}

pub proof fn lemma_alpha_run_bound(s: Seq<char>)
    ensures
        alpha_run(s) <= s.len(),
        forall|k: int| 0 <= k < alpha_run(s) ==> is_alpha(#[trigger] s[k]),
        alpha_run(s) < s.len() ==> !is_alpha(s[alpha_run(s) as int]),
    decreases s.len(),
{
    if s.len() > 0 && is_alpha(s[0]) {
        lemma_alpha_run_bound(s.drop_first());
        assert forall|k: int| 0 <= k < alpha_run(s) implies is_alpha(#[trigger] s[k]) by {
            if k > 0 {
                assert(s[k] == s.drop_first()[k - 1]);
            }
        }
    }
}

fn in_run(c: char, digit: bool) -> (r: bool)
    ensures
        r == (if digit { is_digit(c) } else { is_alpha(c) }),
{
    if digit {
        is_ascii_digit(c)
    } else {
        is_ascii_alphabetic(c)
    }
}

/// Length of the run of characters satisfying `digit` (when `digit`) or
/// letters (otherwise) starting at `from`.
fn run_end(s: &Vec<char>, from: usize, digit: bool) -> (r: usize)
    requires
        from <= s@.len(),
    ensures
        from <= r <= s@.len(),
        digit ==> r - from == digit_run(s@.skip(from as int)),
        !digit ==> r - from == alpha_run(s@.skip(from as int)),
{
    let mut j = from;
    while j < s.len() && in_run(s[j], digit)
        invariant
            from <= j <= s@.len(),
            digit ==> digit_run(s@.skip(from as int)) == (j - from) + digit_run(s@.skip(j as int)),
            !digit ==> alpha_run(s@.skip(from as int)) == (j - from) + alpha_run(s@.skip(j as int)),
        decreases s@.len() - j,
    {
        assert(s@.skip(j as int).drop_first() =~= s@.skip(j + 1));
        j = j + 1;
    }
    if j < s.len() {
        assert(s@.skip(j as int)[0] == s@[j as int]);
    }
    j
}

/// The value of the digits `s[lo..hi]`, or `None` when it exceeds `u64`.
fn digits_u64(s: &Vec<char>, lo: usize, hi: usize) -> (r: Option<u64>)
    requires
        lo <= hi <= s@.len(),
        forall|k: int| lo <= k < hi ==> is_digit(#[trigger] s@[k]),
    ensures
        match r {
            Some(v) => v == digits_value(s@.subrange(lo as int, hi as int)),
            None => digits_value(s@.subrange(lo as int, hi as int)) > u64::MAX,
        },
{
    let mut v: u64 = 0;
    let mut j = lo;
    while j < hi
        invariant
            lo <= j <= hi <= s@.len(),
            forall|k: int| lo <= k < hi ==> is_digit(#[trigger] s@[k]),
            v == digits_value(s@.subrange(lo as int, j as int)),
        decreases hi - j,
    {
        let d = (s[j] as u32 - '0' as u32) as u64;
        assert(s@.subrange(lo as int, j + 1).drop_last() =~= s@.subrange(lo as int, j as int));
        if v > (u64::MAX - d) / 10 {
            proof {
                let whole = s@.subrange(lo as int, hi as int);
                assert(whole.take(j + 1 - lo) =~= s@.subrange(lo as int, j + 1));
                assert forall|i: int| 0 <= i < whole.len() implies is_digit(#[trigger] whole[i]) by {
                    assert(whole[i] == s@[lo + i]);
                }
                lemma_digits_value_grows(whole, j + 1 - lo);
                assert(v * 10 + d > u64::MAX) by (nonlinear_arith)
                    requires
                        v > (u64::MAX - d) / 10,
                        d <= 9,
                ;
            }
            return None;
        }
        v = v * 10 + d;
        j = j + 1;
    }
    Some(v)
}

/// Multiplier for a unit suffix `s[lo..hi]`.
fn unit_of(s: &Vec<char>, lo: usize, hi: usize) -> (r: Option<u64>)
    requires
        lo <= hi <= s@.len(),
    ensures
        match unit_millis(s@.subrange(lo as int, hi as int)) {
            Some(m) => r == Some(m as u64),
            None => r is None,
        },
{
    let u = slice_chars(s, lo, hi);
    let n = u.len();
    if n == 2 && u[0] == 'm' && u[1] == 's' {
        assert(u@ =~= seq!['m', 's']);
        Some(1)
    } else if n == 1 && u[0] == 's' {
        assert(u@ =~= seq!['s']);
        Some(1000)
    } else if n == 1 && u[0] == 'm' {
        assert(u@ =~= seq!['m']);
        Some(60000)
    } else if n == 1 && u[0] == 'h' {
        assert(u@ =~= seq!['h']);
        Some(3600000)
    } else if n == 1 && u[0] == 'd' {
        assert(u@ =~= seq!['d']);
        Some(86400000)
    } else {
        assert(u@ != seq!['m', 's']);
        assert(u@ != seq!['s']);
        assert(u@ != seq!['m']);
        assert(u@ != seq!['h']);
        assert(u@ != seq!['d']);
        None
    }
}

fn message(prefix: &str, middle: &Vec<char>, suffix: &str) -> (r: String)
    ensures
        r@ == prefix@ + middle@ + suffix@,
{
    let mut v = chars_of(prefix);
    let mut m = copy_chars(middle);
    v.append(&mut m);
    push_str(&mut v, suffix);
    string_of(&v)
}

fn char_message(prefix: &str, c: char, suffix: &str) -> (r: String)
    ensures
        r@ == prefix@ + seq![c] + suffix@,
{
    let mut m: Vec<char> = Vec::new();
    m.push(c);
    assert(m@ =~= seq![c]);
    message(prefix, &m, suffix)
}

/// The executable counterpart of `DurationOutcome`.
pub enum DurationRead {
    Millis(u64),
    Failure(String),
    Overflow,
}

/// Reads a duration string, reporting an overflowing total as `Overflow`.
pub fn read_duration(input: &str) -> (r: DurationRead)
    ensures
        match r {
            DurationRead::Millis(ms) => duration_outcome(input@) == DurationOutcome::Millis(ms as int),
            DurationRead::Failure(e) => duration_outcome(input@) == DurationOutcome::Failure(e@),
            DurationRead::Overflow => duration_outcome(input@) is Overflow,
        },
{
    let raw = chars_of(input);
    let t = trim_chars(&raw);
    if t.len() == 0 {
        let e = chars_of("empty duration string");
        return DurationRead::Failure(string_of(&e));
    }
    let ghost whole = t@;
    let mut total: u64 = 0;
    let mut i: usize = 0;
    assert(whole.skip(0) =~= whole);
    while i < t.len()
        invariant
            whole == t@,
            whole == trim(input@),
            whole.len() > 0,
            0 <= i <= t@.len(),
            read_segments(whole, 0) == read_segments(whole.skip(i as int), total as int),
        decreases t@.len() - i,
    {
        let ghost s = t@.skip(i as int);
        let d_end = run_end(&t, i, true);
        proof {
            lemma_digit_run_bound(s);
        }
        if d_end == t.len() {
            let num = slice_chars(&t, i, d_end);
            assert(num@ =~= s);
            return DurationRead::Failure(message("trailing number '", &num, "' without a unit suffix (ms, s, m, h, d)"));
        }
        let c = t[d_end];
        assert(s[d_end - i] == c);
        if !is_ascii_alphabetic(c) {
            return DurationRead::Failure(char_message("unexpected character '", c, "' in duration"));
        }
        if d_end == i {
            return DurationRead::Failure(char_message("unexpected '", c, "' without a preceding number"));
        }
        let a_end = run_end(&t, d_end, false);
        let ghost d = (d_end - i) as int;
        let ghost rest = s.skip(d);
        assert(rest =~= t@.skip(d_end as int));
        proof {
            lemma_alpha_run_bound(rest);
        }
        assert(s.take(d) =~= t@.subrange(i as int, d_end as int));
        assert(rest.take(a_end - d_end) =~= t@.subrange(d_end as int, a_end as int));
        assert(rest.skip(a_end - d_end) =~= t@.skip(a_end as int));
        assert forall|k: int| i <= k < d_end implies is_digit(#[trigger] t@[k]) by {
            assert(t@[k] == s[k - i]);
        }
        let num = match digits_u64(&t, i, d_end) {
            Some(n) => n,
            None => {
                let digits = slice_chars(&t, i, d_end);
                return DurationRead::Failure(message("invalid number: '", &digits, "'"));
            },
        };
        let mult = match unit_of(&t, d_end, a_end) {
            Some(m) => m,
            None => {
                let unit = slice_chars(&t, d_end, a_end);
                return DurationRead::Failure(message("unknown duration suffix '", &unit, "' — use ms, s, m, h, or d"));
            },
        };
        if num > (u64::MAX - total) / mult {
            assert(total as int + num as int * mult as int > u64::MAX) by (nonlinear_arith)
                requires
                    num as int > (u64::MAX as int - total as int) / (mult as int),
                    mult >= 1,
                    total <= u64::MAX,
            ;
            return DurationRead::Overflow;
        }
        assert(num as int * mult as int <= u64::MAX - total) by (nonlinear_arith)
            requires
                num as int <= (u64::MAX as int - total as int) / (mult as int),
                mult >= 1,
                total <= u64::MAX,
        ;
        total = total + num * mult;
        i = a_end;
    }
    assert(whole.skip(i as int).len() == 0);
    if total == 0 {
        let e = chars_of("duration must be greater than zero");
        return DurationRead::Failure(string_of(&e));
    }
    DurationRead::Millis(total)
}

/// Whether reading `input` would overflow while adding up its segments.
pub fn duration_overflows_at_runtime(input: &str) -> (r: bool)
    ensures
        r == duration_overflows(input@),
{
    match read_duration(input) {
        DurationRead::Overflow => true,
        _ => false,
    }
}

/// Parse a duration string like "5s", "2m", "1h30m", "500ms", "1m30s" into milliseconds.
///
/// Supported suffixes: `ms`, `s`, `m`, `h`, `d`. Segments combine:
/// `"1h30m"`, `"2m30s"`, `"1h15m30s"`. Surrounding whitespace is ignored.
pub fn parse_duration_ms(input: &str) -> (r: Result<u64, String>)
    requires
        !duration_overflows(input@),
    ensures
        match r {
            Ok(ms) => duration_outcome(input@) == DurationOutcome::Millis(ms as int),
            Err(e) => duration_outcome(input@) == DurationOutcome::Failure(e@),
        },
{
    match read_duration(input) {
        DurationRead::Millis(ms) => Ok(ms),
        DurationRead::Failure(e) => Err(e),
        DurationRead::Overflow => {
            assert(false);
            Err(String::new())
        },
    }
}

// ── laws ────────────────────────────────────────────────────────────────

proof fn lemma_digit_run_concat(s: Seq<char>, t: Seq<char>)
    requires
        digit_run(s) < s.len(),
    ensures
        digit_run(s + t) == digit_run(s),
    decreases s.len(),
{
    if is_digit(s[0]) {
        assert((s + t).drop_first() =~= s.drop_first() + t);
        lemma_digit_run_concat(s.drop_first(), t);
    }
}

proof fn lemma_alpha_run_concat(s: Seq<char>, t: Seq<char>)
    requires
        alpha_run(s) < s.len() || t.len() == 0 || !is_alpha(t[0]),
    ensures
        alpha_run(s + t) == alpha_run(s),
    decreases s.len(),
{
    if s.len() == 0 {
        assert(s + t =~= t);
    } else if is_alpha(s[0]) {
        assert((s + t).drop_first() =~= s.drop_first() + t);
        lemma_alpha_run_concat(s.drop_first(), t);
    }
}

/// A total lies between the starting amount and `u64::MAX`.
proof fn lemma_read_bounds(b: Seq<char>, c: int, z: int)
    requires
        read_segments(b, c) == DurationOutcome::Millis(z),
        0 <= c <= u64::MAX,
    ensures
        c <= z <= u64::MAX,
    decreases b.len(),
{
    if b.len() > 0 {
        let d = digit_run(b) as int;
        lemma_digit_run_bound(b);
        let num = b.take(d);
        let rest = b.skip(d);
        let a = alpha_run(rest) as int;
        lemma_alpha_run_bound(rest);
        let unit = rest.take(a);
        let m = unit_millis(unit)->0;
        assert(forall|k: int| 0 <= k < num.len() ==> is_digit(#[trigger] num[k]));
        lemma_digits_value_nonneg(num);
        let v = digits_value(num);
        assert(v * m >= 0) by (nonlinear_arith)
            requires
                v >= 0,
                m >= 1,
        ;
        lemma_read_bounds(rest.skip(a), c + v * m, z);
    }
}

/// A reading that ends in a total never loses what it added so far, and the
/// total moves with the starting amount.
proof fn lemma_read_shift(b: Seq<char>, c: int, acc: int, z: int)
    requires
        read_segments(b, c) == DurationOutcome::Millis(z),
        c >= 0,
        acc >= 0,
        z + acc <= u64::MAX,
    ensures
        z >= c,
        read_segments(b, c + acc) == DurationOutcome::Millis(z + acc),
    decreases b.len(),
{
    if b.len() > 0 {
        let d = digit_run(b) as int;
        lemma_digit_run_bound(b);
        let num = b.take(d);
        let rest = b.skip(d);
        let a = alpha_run(rest) as int;
        lemma_alpha_run_bound(rest);
        let unit = rest.take(a);
        let m = unit_millis(unit)->0;
        assert(forall|k: int| 0 <= k < num.len() ==> is_digit(#[trigger] num[k]));
        lemma_digits_value_nonneg(num);
        let v = digits_value(num);
        assert(v * m >= 0) by (nonlinear_arith)
            requires
                v >= 0,
                m >= 1,
        ;
        let next = c + v * m;
        lemma_read_shift(rest.skip(a), next, acc, z);
    }
}

/// A string the reader totals ends with the unit of its last segment.
proof fn lemma_read_ends_alpha(s: Seq<char>, c: int)
    requires
        read_segments(s, c) is Millis,
        s.len() > 0,
    ensures
        is_alpha(s.last()),
    decreases s.len(),
{
    let d = digit_run(s) as int;
    lemma_digit_run_bound(s);
    let rest = s.skip(d);
    let a = alpha_run(rest) as int;
    lemma_alpha_run_bound(rest);
    let tail = rest.skip(a);
    let m = unit_millis(rest.take(a))->0;
    let next = c + digits_value(s.take(d)) * m;
    if tail.len() > 0 {
        lemma_read_ends_alpha(tail, next);
        assert(tail.last() == s.last());
    } else {
        assert(a >= 1);
        assert(s.last() == rest[a - 1]);
    }
}

/// Reading `a` then `b`: what `b` reads, starting from `a`'s total.
proof fn lemma_read_concat(a: Seq<char>, b: Seq<char>, c: int)
    requires
        read_segments(a, c) is Millis,
        b.len() == 0 || is_digit(b[0]),
    ensures
        read_segments(a + b, c) == read_segments(b, read_segments(a, c)->Millis_0),
    decreases a.len(),
{
    if a.len() == 0 {
        assert(a + b =~= b);
    } else {
        let s = a + b;
        let d = digit_run(a) as int;
        lemma_digit_run_bound(a);
        lemma_digit_run_concat(a, b);
        let rest = a.skip(d);
        assert(s.skip(d) =~= rest + b);
        let al = alpha_run(rest) as int;
        lemma_alpha_run_bound(rest);
        let tail = rest.skip(al);
        if al < rest.len() {
            lemma_alpha_run_concat(rest, b);
        } else {
            assert(b.len() == 0 || !is_alpha(b[0]));
            lemma_alpha_run_concat(rest, b);
        }
        assert(s.take(d) =~= a.take(d));
        assert((rest + b).take(al) =~= rest.take(al));
        assert((rest + b).skip(al) =~= tail + b);
        let m = unit_millis(rest.take(al))->0;
        let next = c + digits_value(a.take(d)) * m;
        if tail.len() > 0 {
            lemma_read_concat(tail, b, next);
        } else {
            assert(tail + b =~= b);
        }
    }
}

/// Whitespace only at neither end: `trim` keeps the string.
proof fn lemma_trim_keeps(s: Seq<char>)
    requires
        s.len() > 0,
        !is_ws(s[0]),
        !is_ws(s.last()),
    ensures
        trim(s) == s,
{
}

/// Segments combine: a duration written as two unpadded durations one after
/// the other (`"1h"` then `"30m"`) reads as the sum of the two.
pub proof fn lemma_durations_combine(a: Seq<char>, b: Seq<char>, x: int, y: int)
    requires
        trim(a) == a,
        trim(b) == b,
        duration_outcome(a) == DurationOutcome::Millis(x),
        duration_outcome(b) == DurationOutcome::Millis(y),
        x + y <= u64::MAX,
    ensures
        duration_outcome(a + b) == DurationOutcome::Millis(x + y),
{
    assert(a.len() > 0 && b.len() > 0);
    assert(read_segments(a, 0) == DurationOutcome::Millis(x));
    assert(read_segments(b, 0) == DurationOutcome::Millis(y));
    lemma_digit_run_bound(b);
    assert(is_digit(b[0])) by {
        if !is_digit(b[0]) {
            assert(digit_run(b) == 0);
        }
    }
    lemma_read_concat(a, b, 0);
    lemma_read_bounds(a, 0, x);
    lemma_read_shift(b, 0, x, y);
    lemma_digit_run_bound(a);
    assert(is_digit(a[0])) by {
        if !is_digit(a[0]) {
            assert(digit_run(a) == 0);
        }
    }
    lemma_read_ends_alpha(b, 0);
    let s = a + b;
    assert(s[0] == a[0]);
    assert(s.last() == b.last());
    lemma_trim_keeps(s);
}

/// A duration that reads is positive: zero totals are refused.
pub proof fn lemma_duration_positive(input: Seq<char>)
    ensures
        duration_outcome(input) matches DurationOutcome::Millis(v) ==> v > 0,
{
    let t = trim(input);
    if t.len() > 0 {
        match read_segments(t, 0) {
            DurationOutcome::Millis(v) => {
                lemma_read_bounds(t, 0, v);
            },
            _ => {},
        }
    }
}


proof fn lemma_digit_run_all_digits(d: Seq<char>, u: Seq<char>)
    requires
        forall|k: int| 0 <= k < d.len() ==> is_digit(#[trigger] d[k]),
        u.len() > 0,
        !is_digit(u[0]),
    ensures
        digit_run(d + u) == d.len(),
    decreases d.len(),
{
    if d.len() == 0 {
        assert(d + u =~= u);
    } else {
        assert((d + u).drop_first() =~= d.drop_first() + u);
        lemma_digit_run_all_digits(d.drop_first(), u);
    }
}

proof fn lemma_alpha_run_all_alpha(u: Seq<char>)
    requires
        forall|k: int| 0 <= k < u.len() ==> is_alpha(#[trigger] u[k]),
    ensures
        alpha_run(u) == u.len(),
    decreases u.len(),
{
    if u.len() > 0 {
        lemma_alpha_run_all_alpha(u.drop_first());
    }
}

/// One segment reads as its number times its unit: for every number `n > 0`
/// written in decimal digits `d` and every unit `u` of `ms`, `s`, `m`, `h`,
/// `d`, the string `d` followed by `u` is `n` times the unit's milliseconds,
/// whenever that fits in `u64` (`"90m"` is 5 400 000).
#[verifier::spinoff_prover]
pub proof fn lemma_single_segment(d: Seq<char>, u: Seq<char>)
    requires
        d.len() > 0,
        forall|k: int| 0 <= k < d.len() ==> is_digit(#[trigger] d[k]),
        u == seq!['m', 's'] || u == seq!['s'] || u == seq!['m'] || u == seq!['h'] || u == seq!['d'],
        digits_value(d) > 0,
        digits_value(d) * (if u == seq!['m', 's'] {
            1int
        } else if u == seq!['s'] {
            1000int
        } else if u == seq!['m'] {
            60000int
        } else if u == seq!['h'] {
            3600000int
        } else {
            86400000int
        }) <= u64::MAX,
    ensures
        duration_outcome(d + u) == DurationOutcome::Millis(
            digits_value(d) * (if u == seq!['m', 's'] {
                1int
            } else if u == seq!['s'] {
                1000int
            } else if u == seq!['m'] {
                60000int
            } else if u == seq!['h'] {
                3600000int
            } else {
                86400000int
            }),
        ),
{
    let m: int = if u == seq!['m', 's'] {
        1int
    } else if u == seq!['s'] {
        1000int
    } else if u == seq!['m'] {
        60000int
    } else if u == seq!['h'] {
        3600000int
    } else {
        86400000int
    };
    let v = digits_value(d);
    let s = d + u;
    assert(forall|k: int| 0 <= k < u.len() ==> is_alpha(#[trigger] u[k]));
    assert(unit_millis(u) == Some(m));
    // no surrounding whitespace
    assert(!is_ws(s[0])) by {
        assert(s[0] == d[0]);
    }
    assert(trim_start(s) == s);
    assert(s.last() == u.last());
    assert(!is_ws(s.last()));
    assert(trim_end(s) == s);
    assert(trim(s) == s);
    // the one segment
    lemma_digit_run_all_digits(d, u);
    assert(s.take(d.len() as int) =~= d);
    assert(s.skip(d.len() as int) =~= u);
    lemma_alpha_run_all_alpha(u);
    assert(u.take(u.len() as int) =~= u);
    assert(u.skip(u.len() as int) =~= Seq::<char>::empty());
    assert(v <= v * m && v * m > 0) by (nonlinear_arith)
        requires
            v > 0,
            m >= 1,
    ;
    assert(read_segments(u.skip(u.len() as int), 0 + v * m) == DurationOutcome::Millis(v * m));
    assert(read_segments(s, 0) == DurationOutcome::Millis(v * m));
}

} // verus!
