//! `#[consumer(...)]` attribute extraction.

use vstd::prelude::*;

use crate::attrs::{
    find_named, first_named, has_key, key_is, lemma_first_named, named, opt_view,
    read_str_arg, read_uint_arg, res_view, retain_unnamed, str_arg, uint_arg, Attr, MetaArg,
};
use crate::text::{chars_of, string_of};

verus! {

/// Parsed configuration from `#[consumer(...)]`.
pub struct ConsumerConfig {
    pub bus_field: String,
    pub topic: Option<String>,
    pub deserializer: Option<String>,
    pub filter: Option<String>,
    pub retry: Option<u32>,
    pub dlq: Option<String>,
}

/// The value of a `ConsumerConfig`.
pub struct ConsumerSpec {
    pub bus_field: Seq<char>,
    pub topic: Option<Seq<char>>,
    pub deserializer: Option<Seq<char>>,
    pub filter: Option<Seq<char>>,
    pub retry: Option<u32>,
    pub dlq: Option<Seq<char>>,
}

impl View for ConsumerConfig {
    type V = ConsumerSpec;

    open spec fn view(&self) -> ConsumerSpec {
        ConsumerSpec {
            bus_field: self.bus_field@,
            topic: opt_view(self.topic),
            deserializer: opt_view(self.deserializer),
            filter: opt_view(self.filter),
            retry: self.retry,
            dlq: opt_view(self.dlq),
        }
    }
}

pub open spec fn consumer_unknown_key() -> Seq<char> {
    "unknown key in #[consumer(...)]: expected `bus`, `topic`, `deserializer`, `filter`, `retry`, or `dlq`\n\n  usage: #[consumer(bus = \"event_bus\", topic = \"my-topic\")]"@
}

pub open spec fn consumer_missing_bus() -> Seq<char> {
    "#[consumer] requires `bus` — the name of the event bus field on the controller:\n\n  #[consumer(bus = \"event_bus\")]\n  async fn on_event(&self, event: Arc<MyEvent>) { }"@
}

/// The empty configuration the argument reading starts from.
pub open spec fn consumer_start() -> ConsumerSpec {
    ConsumerSpec {
        bus_field: Seq::empty(),
        topic: None,
        deserializer: None,
        filter: None,
        retry: None,
        dlq: None,
    }
}

/// Applies one `#[consumer(...)]` argument.
pub open spec fn consumer_step(st: ConsumerSpec, a: MetaArg) -> Result<ConsumerSpec, Seq<char>> {
    if key_is(a, "bus"@) {
        match str_arg(a) {
            Ok(v) => Ok(ConsumerSpec { bus_field: v, ..st }),
            Err(e) => Err(e),
        }
    } else if key_is(a, "topic"@) {
        match str_arg(a) {
            Ok(v) => Ok(ConsumerSpec { topic: Some(v), ..st }),
            Err(e) => Err(e),
        }
    } else if key_is(a, "deserializer"@) {
        match str_arg(a) {
            Ok(v) => Ok(ConsumerSpec { deserializer: Some(v), ..st }),
            Err(e) => Err(e),
        }
    } else if key_is(a, "filter"@) {
        match str_arg(a) {
            Ok(v) => Ok(ConsumerSpec { filter: Some(v), ..st }),
            Err(e) => Err(e),
        }
    } else if key_is(a, "retry"@) {
        match uint_arg(a, u32::MAX as int) {
            Ok(v) => Ok(ConsumerSpec { retry: Some(v as u32), ..st }),
            Err(e) => Err(e),
        }
    } else if key_is(a, "dlq"@) {
        match str_arg(a) {
            Ok(v) => Ok(ConsumerSpec { dlq: Some(v), ..st }),
            Err(e) => Err(e),
        }
    } else {
        Err(consumer_unknown_key())
    }
}

/// Applies the arguments in order; the first failing one decides.
pub open spec fn consumer_args(args: Seq<MetaArg>, st: ConsumerSpec) -> Result<ConsumerSpec, Seq<char>>
    decreases args.len(),
{
    if args.len() == 0 {
        Ok(st)
    } else {
        match consumer_step(st, args[0]) {
            Ok(next) => consumer_args(args.drop_first(), next),
            Err(e) => Err(e),
        }
    }
}

/// What `extract_consumer` makes of a method's attributes.
pub open spec fn consumer_outcome<R>(attrs: Seq<Attr<R>>) -> Result<Option<ConsumerSpec>, Seq<char>> {
    match first_named(attrs, "consumer"@) {
        None => Ok(None),
        Some(i) => match attrs[i].meta {
            Err(m) => Err(m@),
            Ok(args) => match consumer_args(args@, consumer_start()) {
                Err(e) => Err(e),
                Ok(st) => if st.bus_field.len() == 0 {
                    Err(consumer_missing_bus())
                } else {
                    Ok(Some(st))
                },
            },
        },
    }
}

fn msg(s: &str) -> (r: String)
    ensures
        r@ == s@,
{
    string_of(&chars_of(s))
}

/// Reads the first `#[consumer(...)]` attribute of a method.
pub fn extract_consumer<R>(attrs: &Vec<Attr<R>>) -> (r: Result<Option<ConsumerConfig>, String>)
    ensures
        match consumer_outcome(attrs@) {
            Ok(None) => r matches Ok(None),
            Ok(Some(c)) => r matches Ok(Some(x)) && x@ == c,
            Err(m) => r matches Err(e) && e@ == m,
        },
{
    proof {
        lemma_first_named(attrs@, "consumer"@);
    }
    let i = match find_named(attrs, "consumer") {
        None => return Ok(None),
        Some(i) => i,
    };
    let args = match &attrs[i].meta {
        Err(m) => return Err(m.clone()),
        Ok(args) => args,
    };
    let mut cfg = ConsumerConfig {
        bus_field: String::new(),
        topic: None,
        deserializer: None,
        filter: None,
        retry: None,
        dlq: None,
    };
    assert(cfg@ == consumer_start());
    let mut k: usize = 0;
    assert(args@.skip(0) =~= args@);
    while k < args.len()
        invariant
            0 <= k <= args@.len(),
            i < attrs@.len(),
            first_named(attrs@, "consumer"@) == Some(i as int),
            attrs@[i as int].meta matches Ok(v) && v@ == args@,
            consumer_args(args@, consumer_start()) == consumer_args(args@.skip(k as int), cfg@),
        decreases args@.len() - k,
    {
        let a = &args[k];
        assert(args@.skip(k as int)[0] == *a);
        assert(args@.skip(k as int).drop_first() =~= args@.skip(k + 1));
        if has_key(a, "bus") {
            cfg.bus_field = read_str_arg(a)?;
        } else if has_key(a, "topic") {
            cfg.topic = Some(read_str_arg(a)?);
        } else if has_key(a, "deserializer") {
            cfg.deserializer = Some(read_str_arg(a)?);
        } else if has_key(a, "filter") {
            cfg.filter = Some(read_str_arg(a)?);
        } else if has_key(a, "retry") {
            let v = match read_uint_arg(a, 0xffff_ffff) {
                Ok(v) => v,
                Err(e) => return Err(e),
            };
            cfg.retry = Some(v as u32);
        } else if has_key(a, "dlq") {
            cfg.dlq = Some(read_str_arg(a)?);
        } else {
            return Err(msg(
                "unknown key in #[consumer(...)]: expected `bus`, `topic`, `deserializer`, `filter`, `retry`, or `dlq`\n\n  usage: #[consumer(bus = \"event_bus\", topic = \"my-topic\")]",
            ));
        }
        k = k + 1;
    }
    if cfg.bus_field.as_str().is_empty() {
        return Err(msg(
            "#[consumer] requires `bus` — the name of the event bus field on the controller:\n\n  #[consumer(bus = \"event_bus\")]\n  async fn on_event(&self, event: Arc<MyEvent>) { }",
        ));
    }
    Ok(Some(cfg))
}

/// Removes `#[consumer]` attributes.
pub fn strip_consumer_attrs<R>(attrs: Vec<Attr<R>>) -> (r: Vec<Attr<R>>)
    ensures
        r@ == attrs@.filter(|a: Attr<R>| !named(a, "consumer"@)),
{
    let names = vec!["consumer"];
    let r = retain_unnamed(attrs, &names);
    proof {
        assert forall|a: Attr<R>| #![auto]
            crate::attrs::named_any(a, crate::attrs::name_views(names@)) == named(a, "consumer"@) by {
            if named(a, "consumer"@) {
                assert(crate::attrs::name_views(names@)[0] == "consumer"@);
            }
        }
        assert((|a: Attr<R>| !crate::attrs::named_any(a, crate::attrs::name_views(names@))) =~= (|
            a: Attr<R>,
        | !named(a, "consumer"@)));
    }
    r
}

} // verus!
