//! `#[scheduled(...)]` attribute extraction.

use vstd::prelude::*;

use crate::attrs::{
    find_named, first_named, has_key, key_is, lemma_first_named, name_views, named, named_any,
    opt_view, read_str_arg, read_uint, retain_unnamed, str_arg, uint_of, Attr, Lit, MetaArg,
    MetaValue,
};
use crate::extract::duration::{digits_value, duration_outcome, read_duration, DurationOutcome, DurationRead};
use crate::bean::{first_where, lemma_first_where};
use crate::sig::{any_receiver, has_receiver, Sig};
use crate::text::{chars_of, is_digit, push_str, str_is, string_of};

verus! {

/// Whether the `cron` crate reads `expr` as a schedule.
pub uninterp spec fn cron_accepts(expr: Seq<char>) -> bool;

/// The text of the `cron` crate's parse error.
pub open spec fn cron_error_text() -> Seq<char> {
    "Invalid expression: Invalid cron expression."@
}

/// `cron::Schedule::from_str`. Its result depends on `expr` alone; its
/// error always displays as the one fixed text of the crate's
/// `ErrorKind::Expression("Invalid cron expression.")`.
#[verifier::external_body]
fn check_cron(expr: &str) -> (r: Result<(), String>)
    ensures
        r is Ok <==> cron_accepts(expr@),
        r matches Err(m) ==> m@ == cron_error_text(),
{
    match expr.parse::<cron::Schedule>() {
        Ok(_) => Ok(()),
        Err(e) => Err(e.to_string()),
    }
}

/// Parsed configuration from `#[scheduled(...)]`; durations in milliseconds.
pub struct ScheduledConfig {
    pub every_ms: Option<u64>,
    pub cron: Option<String>,
    pub initial_delay_ms: Option<u64>,
    pub name: Option<String>,
}

pub struct ScheduledSpec {
    pub every_ms: Option<u64>,
    pub cron: Option<Seq<char>>,
    pub initial_delay_ms: Option<u64>,
    pub name: Option<Seq<char>>,
}

impl View for ScheduledConfig {
    type V = ScheduledSpec;

    open spec fn view(&self) -> ScheduledSpec {
        ScheduledSpec {
            every_ms: self.every_ms,
            cron: opt_view(self.cron),
            initial_delay_ms: self.initial_delay_ms,
            name: opt_view(self.name),
        }
    }
}

/// What reading an argument comes to: a value, a diagnostic, or an
/// arithmetic overflow in the reader.
pub enum Reading<T> {
    Value(T),
    Refused(Seq<char>),
    Overflow,
}

/// A duration given as an integer literal (seconds) or a duration string.
pub open spec fn duration_arg(a: MetaArg) -> Reading<u64> {
    match a.value {
        MetaValue::Eq(Lit::Int(d)) => if d@.len() > 0 && d@[0] == '-' {
            Reading::Refused("expected integer literal or string literal"@)
        } else {
            match uint_of(d@, u64::MAX as int) {
                Err(e) => Reading::Refused(e),
                Ok(secs) => if secs == 0 {
                    Reading::Refused("duration must be greater than zero"@)
                } else if secs * 1000 > u64::MAX {
                    Reading::Overflow
                } else {
                    Reading::Value((secs * 1000) as u64)
                },
            }
        },
        MetaValue::Eq(Lit::Str(s)) => match duration_outcome(s@) {
            DurationOutcome::Millis(v) => Reading::Value(v as u64),
            DurationOutcome::Failure(m) => Reading::Refused(
                "invalid duration '"@ + s@ + "': "@ + m,
            ),
            DurationOutcome::Overflow => Reading::Overflow,
        },
        MetaValue::Eq(_) => Reading::Refused("expected integer literal or string literal"@),
        _ => Reading::Refused("expected `=`"@),
    }
}

pub open spec fn scheduled_unknown_key() -> Seq<char> {
    "unknown key in #[scheduled(...)]: expected `every`, `cron`, `initial_delay`, or `name`\n\nexamples:\n  #[scheduled(every = 30)]\n  #[scheduled(every = \"5m\")]\n  #[scheduled(cron = \"0 */5 * * * *\")]\n  #[scheduled(every = \"1h\", initial_delay = \"10s\")]"@
}

pub open spec fn scheduled_needs_trigger() -> Seq<char> {
    "#[scheduled] requires either `every` (interval) or `cron` (expression):\n\n  #[scheduled(every = 30)]                    — run every 30 seconds\n\n  #[scheduled(every = \"5m\")]                  — run every 5 minutes\n\n  #[scheduled(cron = \"0 */5 * * * *\")]        — cron schedule"@
}

pub open spec fn scheduled_exclusive() -> Seq<char> {
    "`every` and `cron` are mutually exclusive — use one or the other"@
}

pub open spec fn scheduled_delay_with_cron() -> Seq<char> {
    "`initial_delay` only works with `every` (interval-based schedules), not with `cron`\n\nFor cron, the schedule itself controls the first execution time."@
}

pub open spec fn scheduled_start() -> ScheduledSpec {
    ScheduledSpec { every_ms: None, cron: None, initial_delay_ms: None, name: None }
}

/// Applies one `#[scheduled(...)]` argument.
pub open spec fn scheduled_step(st: ScheduledSpec, a: MetaArg) -> Reading<ScheduledSpec> {
    if key_is(a, "every"@) {
        match duration_arg(a) {
            Reading::Value(v) => Reading::Value(ScheduledSpec { every_ms: Some(v), ..st }),
            Reading::Refused(e) => Reading::Refused(e),
            Reading::Overflow => Reading::Overflow,
        }
    } else if key_is(a, "cron"@) {
        match str_arg(a) {
            Ok(expr) => if cron_accepts(expr) {
                Reading::Value(ScheduledSpec { cron: Some(expr), ..st })
            } else {
                Reading::Refused("invalid cron expression '"@ + expr + "': "@ + cron_error_text())
            },
            Err(e) => Reading::Refused(e),
        }
    } else if key_is(a, "initial_delay"@) {
        match duration_arg(a) {
            Reading::Value(v) => Reading::Value(ScheduledSpec { initial_delay_ms: Some(v), ..st }),
            Reading::Refused(e) => Reading::Refused(e),
            Reading::Overflow => Reading::Overflow,
        }
    } else if key_is(a, "name"@) {
        match str_arg(a) {
            Ok(v) => Reading::Value(ScheduledSpec { name: Some(v), ..st }),
            Err(e) => Reading::Refused(e),
        }
    } else {
        Reading::Refused(scheduled_unknown_key())
    }
}

pub open spec fn scheduled_args(args: Seq<MetaArg>, st: ScheduledSpec) -> Reading<ScheduledSpec>
    decreases args.len(),
{
    if args.len() == 0 {
        Reading::Value(st)
    } else {
        match scheduled_step(st, args[0]) {
            Reading::Value(next) => scheduled_args(args.drop_first(), next),
            other => other,
        }
    }
}

/// What `extract_scheduled` makes of a method's attributes: `Value(None)`
/// when there is no `#[scheduled]`, `Overflow` where a duration overflows.
pub open spec fn scheduled_outcome<R>(attrs: Seq<Attr<R>>) -> Reading<Option<ScheduledSpec>> {
    match first_named(attrs, "scheduled"@) {
        None => Reading::Value(None),
        Some(i) => match attrs[i].meta {
            Err(m) => Reading::Refused(m@),
            Ok(args) => match scheduled_args(args@, scheduled_start()) {
                Reading::Refused(e) => Reading::Refused(e),
                Reading::Overflow => Reading::Overflow,
                Reading::Value(st) => if st.every_ms is None && st.cron is None {
                    Reading::Refused(scheduled_needs_trigger())
                } else if st.every_ms is Some && st.cron is Some {
                    Reading::Refused(scheduled_exclusive())
                } else if st.initial_delay_ms is Some && st.cron is Some {
                    Reading::Refused(scheduled_delay_with_cron())
                } else {
                    Reading::Value(Some(st))
                },
            },
        },
    }
}

/// The executable counterpart of `Reading`.
pub enum ReadResult<T> {
    Value(T),
    Refused(String),
    Overflow,
}

fn msg(s: &str) -> (r: String)
    ensures
        r@ == s@,
{
    string_of(&chars_of(s))
}

/// Reads a duration argument: integer seconds or a duration string.
fn parse_duration_value(a: &MetaArg) -> (r: ReadResult<u64>)
    ensures
        match r {
            ReadResult::Value(v) => duration_arg(*a) == Reading::Value(v),
            ReadResult::Refused(e) => duration_arg(*a) == Reading::<u64>::Refused(e@),
            ReadResult::Overflow => duration_arg(*a) is Overflow,
        },
{
    match &a.value {
        MetaValue::Eq(Lit::Int(d)) => {
            let ds = chars_of(d.as_str());
            if ds.len() > 0 && ds[0] == '-' {
                return ReadResult::Refused(msg("expected integer literal or string literal"));
            }
            let secs = match read_uint(d, u64::MAX) {
                Ok(v) => v,
                Err(e) => return ReadResult::Refused(e),
            };
            if secs == 0 {
                return ReadResult::Refused(msg("duration must be greater than zero"));
            }
            if secs > u64::MAX / 1000 {
                return ReadResult::Overflow;
            }
            ReadResult::Value(secs * 1000)
        },
        MetaValue::Eq(Lit::Str(s)) => match read_duration(s.as_str()) {
            DurationRead::Millis(v) => ReadResult::Value(v),
            DurationRead::Failure(m) => {
                let mut v = chars_of("invalid duration '");
                push_str(&mut v, s.as_str());
                push_str(&mut v, "': ");
                push_str(&mut v, m.as_str());
                ReadResult::Refused(string_of(&v))
            },
            DurationRead::Overflow => ReadResult::Overflow,
        },
        MetaValue::Eq(_) => ReadResult::Refused(msg("expected integer literal or string literal")),
        _ => ReadResult::Refused(msg("expected `=`")),
    }
}

/// Reads the first `#[scheduled(...)]` attribute, reporting a duration that
/// overflows its reader as `Overflow`.
pub fn read_scheduled<R>(attrs: &Vec<Attr<R>>) -> (r: ReadResult<Option<ScheduledConfig>>)
    ensures
        match r {
            ReadResult::Value(None) => scheduled_outcome(attrs@) == Reading::<
                Option<ScheduledSpec>,
            >::Value(None),
            ReadResult::Value(Some(c)) => scheduled_outcome(attrs@) == Reading::Value(Some(c@)),
            ReadResult::Refused(e) => scheduled_outcome(attrs@) == Reading::<
                Option<ScheduledSpec>,
            >::Refused(e@),
            ReadResult::Overflow => scheduled_outcome(attrs@) is Overflow,
        },
{
    proof {
        lemma_first_named(attrs@, "scheduled"@);
    }
    let i = match find_named(attrs, "scheduled") {
        None => return ReadResult::Value(None),
        Some(i) => i,
    };
    let args = match &attrs[i].meta {
        Err(m) => return ReadResult::Refused(m.clone()),
        Ok(args) => args,
    };
    let mut cfg = ScheduledConfig { every_ms: None, cron: None, initial_delay_ms: None, name: None };
    assert(cfg@ == scheduled_start());
    let mut k: usize = 0;
    assert(args@.skip(0) =~= args@);
    while k < args.len()
        invariant
            0 <= k <= args@.len(),
            i < attrs@.len(),
            first_named(attrs@, "scheduled"@) == Some(i as int),
            attrs@[i as int].meta matches Ok(v) && v@ == args@,
            scheduled_args(args@, scheduled_start()) == scheduled_args(args@.skip(k as int), cfg@),
        decreases args@.len() - k,
    {
        let a = &args[k];
        assert(args@.skip(k as int)[0] == *a);
        assert(args@.skip(k as int).drop_first() =~= args@.skip(k + 1));
        if has_key(a, "every") {
            match parse_duration_value(a) {
                ReadResult::Value(v) => cfg.every_ms = Some(v),
                ReadResult::Refused(e) => return ReadResult::Refused(e),
                ReadResult::Overflow => return ReadResult::Overflow,
            }
        } else if has_key(a, "cron") {
            let expr = match read_str_arg(a) {
                Ok(s) => s,
                Err(e) => return ReadResult::Refused(e),
            };
            match check_cron(expr.as_str()) {
                Ok(()) => cfg.cron = Some(expr),
                Err(ce) => {
                    let mut v = chars_of("invalid cron expression '");
                    push_str(&mut v, expr.as_str());
                    push_str(&mut v, "': ");
                    push_str(&mut v, ce.as_str());
                    return ReadResult::Refused(string_of(&v));
                },
            }
        } else if has_key(a, "initial_delay") {
            match parse_duration_value(a) {
                ReadResult::Value(v) => cfg.initial_delay_ms = Some(v),
                ReadResult::Refused(e) => return ReadResult::Refused(e),
                ReadResult::Overflow => return ReadResult::Overflow,
            }
        } else if has_key(a, "name") {
            match read_str_arg(a) {
                Ok(s) => cfg.name = Some(s),
                Err(e) => return ReadResult::Refused(e),
            }
        } else {
            return ReadResult::Refused(msg(
                "unknown key in #[scheduled(...)]: expected `every`, `cron`, `initial_delay`, or `name`\n\nexamples:\n  #[scheduled(every = 30)]\n  #[scheduled(every = \"5m\")]\n  #[scheduled(cron = \"0 */5 * * * *\")]\n  #[scheduled(every = \"1h\", initial_delay = \"10s\")]",
            ));
        }
        k = k + 1;
    }
    if cfg.every_ms.is_none() && cfg.cron.is_none() {
        return ReadResult::Refused(msg(
            "#[scheduled] requires either `every` (interval) or `cron` (expression):\n\n  #[scheduled(every = 30)]                    — run every 30 seconds\n\n  #[scheduled(every = \"5m\")]                  — run every 5 minutes\n\n  #[scheduled(cron = \"0 */5 * * * *\")]        — cron schedule",
        ));
    }
    if cfg.every_ms.is_some() && cfg.cron.is_some() {
        return ReadResult::Refused(msg(
            "`every` and `cron` are mutually exclusive — use one or the other",
        ));
    }
    if cfg.initial_delay_ms.is_some() && cfg.cron.is_some() {
        return ReadResult::Refused(msg(
            "`initial_delay` only works with `every` (interval-based schedules), not with `cron`\n\nFor cron, the schedule itself controls the first execution time.",
        ));
    }
    ReadResult::Value(Some(cfg))
}

/// Whether reading the method's `#[scheduled]` attribute overflows a duration.
pub fn scheduled_overflows<R>(attrs: &Vec<Attr<R>>) -> (r: bool)
    ensures
        r == (scheduled_outcome(attrs@) is Overflow),
{
    match read_scheduled(attrs) {
        ReadResult::Overflow => true,
        _ => false,
    }
}

/// Reads the first `#[scheduled(...)]` attribute of a method.
pub fn extract_scheduled<R>(attrs: &Vec<Attr<R>>) -> (r: Result<Option<ScheduledConfig>, String>)
    requires
        !(scheduled_outcome(attrs@) is Overflow),
    ensures
        match r {
            Ok(None) => scheduled_outcome(attrs@) == Reading::<Option<ScheduledSpec>>::Value(None),
            Ok(Some(c)) => scheduled_outcome(attrs@) == Reading::Value(Some(c@)),
            Err(e) => scheduled_outcome(attrs@) == Reading::<Option<ScheduledSpec>>::Refused(e@),
        },
{
    match read_scheduled(attrs) {
        ReadResult::Value(c) => Ok(c),
        ReadResult::Refused(e) => Err(e),
        ReadResult::Overflow => {
            assert(false);
            Err(String::new())
        },
    }
}

/// Removes `#[scheduled]` and `#[intercept]` attributes.
pub fn strip_scheduled_attrs<R>(attrs: Vec<Attr<R>>) -> (r: Vec<Attr<R>>)
    ensures
        r@ == attrs@.filter(|a: Attr<R>| !(named(a, "scheduled"@) || named(a, "intercept"@))),
{
    let names = vec!["scheduled", "intercept"];
    let r = retain_unnamed(attrs, &names);
    proof {
        let ns = name_views(names@);
        assert forall|a: Attr<R>| #![auto]
            named_any(a, ns) == (named(a, "scheduled"@) || named(a, "intercept"@)) by {
            if named(a, "scheduled"@) {
                assert(ns[0] == "scheduled"@);
            }
            if named(a, "intercept"@) {
                assert(ns[1] == "intercept"@);
            }
        }
        assert((|a: Attr<R>| !named_any(a, ns)) =~= (|a: Attr<R>|
            !(named(a, "scheduled"@) || named(a, "intercept"@))));
    }
    r
}

/// Default task name for a `#[scheduled]` method: `<Owner>_<method>`, unless
/// an explicit `name = "..."` was given.
pub fn task_name(config: &ScheduledConfig, owner: &str, fn_name: &str) -> (r: String)
    ensures
        r@ == match config.name {
            Some(n) => n@,
            None => owner@ + "_"@ + fn_name@,
        },
{
    match &config.name {
        Some(n) => n.clone(),
        None => {
            let mut v = chars_of(owner);
            push_str(&mut v, "_");
            push_str(&mut v, fn_name);
            string_of(&v)
        },
    }
}

/// The schedule a `#[scheduled]` configuration asks for.
pub enum ScheduleKind {
    IntervalWithDelay { interval_ms: u64, initial_delay_ms: u64 },
    Interval(u64),
    Cron(String),
}

/// The `ScheduleConfig` a parsed `#[scheduled]` configuration stands for:
/// an interval (with its initial delay when one is given) or a cron schedule.
pub fn schedule_config_expr(config: &ScheduledConfig) -> (r: ScheduleKind)
    requires
        config.every_ms is Some || config.cron is Some,
    ensures
        match config.every_ms {
            Some(e) => match config.initial_delay_ms {
                Some(d) => r == ScheduleKind::IntervalWithDelay { interval_ms: e, initial_delay_ms: d },
                None => r == ScheduleKind::Interval(e),
            },
            None => r matches ScheduleKind::Cron(c) && c@ == config.cron->0@,
        },
{
    match config.every_ms {
        Some(e) => match config.initial_delay_ms {
            Some(d) => ScheduleKind::IntervalWithDelay { interval_ms: e, initial_delay_ms: d },
            None => ScheduleKind::Interval(e),
        },
        None => match &config.cron {
            Some(c) => ScheduleKind::Cron(c.clone()),
            None => {
                assert(false);
                ScheduleKind::Cron(String::new())
            },
        },
    }
}


/// A resolved `skip_if = "..."` predicate: the method's name, and whether
/// its call is awaited.
pub struct SkipCall {
    pub fn_name: String,
    pub is_async: bool,
}

/// Why a `skip_if` value is refused: it names no plain method of the impl
/// block (the diagnostic, pointing at the literal), or the method it names
/// (its index among the plain methods) takes more than `&self`.
pub enum SkipFault {
    NotPlain(String),
    NotReceiverOnly(usize),
}

pub open spec fn skip_if_unknown_msg(target: Seq<char>) -> Seq<char> {
    "skip_if = \""@ + target
        + "\" does not name a plain method in this impl block\n\nThe predicate must be a plain `&self` method (sync or async) returning `bool`, defined in the same impl block as the #[scheduled] method — it cannot carry a route, #[scheduled], #[consumer], #[async_exec], or lifecycle marker.\n\nexample:\n  fn maintenance_mode(&self) -> bool { /* ... */ }\n\n  #[scheduled(every = \"5m\", skip_if = \"maintenance_mode\")]\n  async fn sync(&self) { /* ... */ }\n\nTo skip on a shared condition (Quarkus skipExecutionIf-style predicate bean), #[inject] the predicate bean and delegate to it from the method."@
}

pub open spec fn skip_if_signature_msg() -> Seq<char> {
    "a skip_if predicate must take only `&self` (no parameters) and return `bool`"@
}

impl SkipFault {
    /// The diagnostic of the refusal.
    pub fn message(&self) -> (r: String)
        ensures
            r@ == match self {
                SkipFault::NotPlain(m) => m@,
                SkipFault::NotReceiverOnly(_) => skip_if_signature_msg(),
            },
    {
        match self {
            SkipFault::NotPlain(m) => m.clone(),
            SkipFault::NotReceiverOnly(_) => {
                "a skip_if predicate must take only `&self` (no parameters) and return `bool`".to_string()
            },
        }
    }
}

/// Whether a plain method is the one that `target` names.
pub open spec fn sig_named(target: Seq<char>) -> spec_fn(Sig) -> bool {
    |m: Sig| m.ident@ == target
}

/// What a `skip_if` value resolves to against the plain methods of the impl
/// block: nothing without one; else the first method of that name, which
/// must take `&self` and nothing more.
pub open spec fn skip_outcome(skip_if: Option<Seq<char>>, plain: Seq<Sig>) -> Result<
    Option<(Seq<char>, bool)>,
    Result<Seq<char>, int>,
> {
    match skip_if {
        None => Ok(None),
        Some(t) => match first_where(plain, sig_named(t)) {
            None => Err(Ok(skip_if_unknown_msg(t))),
            Some(i) => if !has_receiver(plain[i].inputs@) || plain[i].inputs@.len() > 1 {
                Err(Err(i))
            } else {
                Ok(Some((plain[i].ident@, plain[i].is_async)))
            },
        },
    }
}

/// Resolves a `#[scheduled(skip_if = "...")]` value against the host impl
/// block's plain methods (those that carry no route, transverse or lifecycle
/// marker): the predicate must be a `&self`-only method, sync or async.
pub fn resolve_skip_if(skip_if: &Option<String>, plain: &Vec<Sig>) -> (r: Result<
    Option<SkipCall>,
    SkipFault,
>)
    ensures
        skip_outcome(opt_view(*skip_if), plain@) == match r {
            Ok(None) => Ok(None),
            Ok(Some(c)) => Ok(Some((c.fn_name@, c.is_async))),
            Err(SkipFault::NotPlain(m)) => Err(Ok(m@)),
            Err(SkipFault::NotReceiverOnly(i)) => Err(Err(i as int)),
        },
{
    let target = match skip_if {
        None => return Ok(None),
        Some(t) => t,
    };
    let ghost p = sig_named(target@);
    proof {
        lemma_first_where(plain@, p);
    }
    let mut i: usize = 0;
    while i < plain.len()
        invariant
            0 <= i <= plain@.len(),
            p == sig_named(target@),
            opt_view(*skip_if) == Some(target@),
            forall|k: int| 0 <= k < i ==> !p(#[trigger] plain@[k]),
            match first_where(plain@, p) {
                Some(j) => 0 <= j < plain@.len() && p(plain@[j]) && forall|k: int|
                    0 <= k < j ==> !p(#[trigger] plain@[k]),
                None => forall|k: int| 0 <= k < plain@.len() ==> !p(#[trigger] plain@[k]),
            },
        decreases plain@.len() - i,
    {
        let m = &plain[i];
        if str_is(m.ident.as_str(), target.as_str()) {
            assert(p(plain@[i as int]));
            assert(first_where(plain@, p) == Some(i as int));
            let has_self = any_receiver(&m.inputs);
            assert(*m == plain@[i as int]);
            if !has_self || m.inputs.len() > 1 {
                return Err(SkipFault::NotReceiverOnly(i));
            }
            return Ok(Some(SkipCall { fn_name: m.ident.clone(), is_async: m.is_async }));
        }
        i = i + 1;
    }
    assert(first_where(plain@, p) is None);
    let mut v = chars_of("skip_if = \"");
    push_str(&mut v, target.as_str());
    push_str(
        &mut v,
        "\" does not name a plain method in this impl block\n\nThe predicate must be a plain `&self` method (sync or async) returning `bool`, defined in the same impl block as the #[scheduled] method — it cannot carry a route, #[scheduled], #[consumer], #[async_exec], or lifecycle marker.\n\nexample:\n  fn maintenance_mode(&self) -> bool { /* ... */ }\n\n  #[scheduled(every = \"5m\", skip_if = \"maintenance_mode\")]\n  async fn sync(&self) { /* ... */ }\n\nTo skip on a shared condition (Quarkus skipExecutionIf-style predicate bean), #[inject] the predicate bean and delegate to it from the method.",
    );
    Err(SkipFault::NotPlain(string_of(&v)))
}


/// An integer literal is a number of seconds, for `every` and for
/// `initial_delay` alike: `key = n` with `n > 0` sets that key's
/// millisecond field to `n * 1000` and leaves the rest of the configuration
/// as it was (`initial_delay = 10` is 10 000 ms).
pub proof fn lemma_integer_durations_are_seconds(st: ScheduledSpec, a: MetaArg, d: String)
    requires
        a.key@ == "every"@ || a.key@ == "initial_delay"@,
        a.value == MetaValue::Eq(Lit::Int(d)),
        d@.len() > 0,
        forall|k: int| 0 <= k < d@.len() ==> is_digit(#[trigger] d@[k]),
        digits_value(d@) > 0,
        digits_value(d@) * 1000 <= u64::MAX,
    ensures
        a.key@ == "every"@ ==> scheduled_step(st, a) == Reading::Value(
            ScheduledSpec { every_ms: Some((digits_value(d@) * 1000) as u64), ..st },
        ),
        a.key@ == "initial_delay"@ ==> scheduled_step(st, a) == Reading::Value(
            ScheduledSpec { initial_delay_ms: Some((digits_value(d@) * 1000) as u64), ..st },
        ),
{
    reveal_strlit("every");
    reveal_strlit("cron");
    reveal_strlit("initial_delay");
    assert(d@[0] != '-');
    assert(!(exists|k: int| 0 <= k < d@.len() && !is_digit(#[trigger] d@[k])));
    assert(uint_of(d@, u64::MAX as int) == Ok::<int, Seq<char>>(digits_value(d@)));
    assert(duration_arg(a) == Reading::Value((digits_value(d@) * 1000) as u64));
    if a.key@ == "initial_delay"@ {
        assert(a.key@[0] == 'i');
        assert(!key_is(a, "every"@));
        assert(!key_is(a, "cron"@));
    }
}


/// A duration string gives the same field its reading in milliseconds, for
/// `every` and for `initial_delay` alike (`initial_delay = "10s"` is
/// 10 000 ms).
pub proof fn lemma_duration_strings_are_read(st: ScheduledSpec, a: MetaArg, t: String, v: int)
    requires
        a.key@ == "every"@ || a.key@ == "initial_delay"@,
        a.value == MetaValue::Eq(Lit::Str(t)),
        duration_outcome(t@) == DurationOutcome::Millis(v),
    ensures
        a.key@ == "every"@ ==> scheduled_step(st, a) == Reading::Value(ScheduledSpec { every_ms: Some(v as u64), ..st }),
        a.key@ == "initial_delay"@ ==> scheduled_step(st, a) == Reading::Value(
            ScheduledSpec { initial_delay_ms: Some(v as u64), ..st },
        ),
{
    reveal_strlit("every");
    reveal_strlit("cron");
    reveal_strlit("initial_delay");
    if a.key@ == "initial_delay"@ {
        assert(a.key@[0] == 'i');
        assert(!key_is(a, "every"@));
        assert(!key_is(a, "cron"@));
    }
}

} // verus!
