//! `#[r2e::test_suite]`: which methods of the impl block are cases and
//! hooks, the order each case claims, and the rules a suite must obey.

use vstd::prelude::*;

use crate::attrs::{
    any_named, has_named, name_views, named, named_any, retain_unnamed, uint_arg, Attr, AttrForm, MetaArg,
};
use crate::sig::{FnInput, Pat};
use crate::text::{chars_of, decimal, decimal_chars, push_str, str_is, string_of};
use crate::types::{last_is, last_named, last_seg, last_segment, unwrap_named, wrapped_in, Ty};

verus! {

/// The role an attribute gives a method of a test suite.
#[derive(Clone, Copy, PartialEq, Eq, Structural, Debug)]
pub enum SuiteAttr {
    Case,
    BeforeAll,
    BeforeEach,
    AfterEach,
    AfterAll,
}

/// The role an attribute name stands for (snake_case or camelCase spelling).
pub open spec fn suite_attr_named(n: Seq<char>) -> Option<SuiteAttr> {
    if n == "case"@ {
        Some(SuiteAttr::Case)
    } else if n == "before_all"@ || n == "beforeAll"@ {
        Some(SuiteAttr::BeforeAll)
    } else if n == "before_each"@ || n == "beforeEach"@ {
        Some(SuiteAttr::BeforeEach)
    } else if n == "after_each"@ || n == "afterEach"@ {
        Some(SuiteAttr::AfterEach)
    } else if n == "after_all"@ || n == "afterAll"@ {
        Some(SuiteAttr::AfterAll)
    } else {
        None
    }
}

/// The role of one attribute: only a single-identifier path has one.
pub open spec fn role_of<R>(a: Attr<R>) -> Option<SuiteAttr> {
    match a.ident {
        Some(n) => suite_attr_named(n@),
        None => None,
    }
}

/// The suite roles among a method's attributes, in order.
pub open spec fn roles_of<R>(attrs: Seq<Attr<R>>) -> Seq<SuiteAttr>
    decreases attrs.len(),
{
    if attrs.len() == 0 {
        Seq::empty()
    } else {
        roles_of(attrs.drop_last()) + match role_of(attrs.last()) {
            Some(r) => seq![r],
            None => Seq::empty(),
        }
    }
}

/// The role of an attribute, if it is one of the suite's.
pub fn suite_attr<R>(attr: &Attr<R>) -> (r: Option<SuiteAttr>)
    ensures
        r == role_of(*attr),
{
    proof {
        reveal_strlit("case");
        reveal_strlit("before_all");
        reveal_strlit("beforeAll");
        reveal_strlit("before_each");
        reveal_strlit("beforeEach");
        reveal_strlit("after_each");
        reveal_strlit("afterEach");
        reveal_strlit("after_all");
        reveal_strlit("afterAll");
    }
    match &attr.ident {
        None => None,
        Some(n) => {
            let s = n.as_str();
            if str_is(s, "case") {
                Some(SuiteAttr::Case)
            } else if str_is(s, "before_all") || str_is(s, "beforeAll") {
                Some(SuiteAttr::BeforeAll)
            } else if str_is(s, "before_each") || str_is(s, "beforeEach") {
                Some(SuiteAttr::BeforeEach)
            } else if str_is(s, "after_each") || str_is(s, "afterEach") {
                Some(SuiteAttr::AfterEach)
            } else if str_is(s, "after_all") || str_is(s, "afterAll") {
                Some(SuiteAttr::AfterAll)
            } else {
                None
            }
        },
    }
}

/// Whether the attribute is one of the suite's (and so removed from the
/// emitted impl).
pub fn is_suite_attr<R>(attr: &Attr<R>) -> (r: bool)
    ensures
        r == (role_of(*attr) is Some),
{
    suite_attr(attr).is_some()
}

/// The suite roles among the attributes, in order.
pub fn suite_attrs<R>(attrs: &Vec<Attr<R>>) -> (r: Vec<SuiteAttr>)
    ensures
        r@ == roles_of(attrs@),
{
    let mut out: Vec<SuiteAttr> = Vec::new();
    let mut i: usize = 0;
    while i < attrs.len()
        invariant
            0 <= i <= attrs@.len(),
            out@ == roles_of(attrs@.take(i as int)),
        decreases attrs@.len() - i,
    {
        assert(attrs@.take(i + 1).drop_last() =~= attrs@.take(i as int));
        assert(attrs@.take(i + 1).last() == attrs@[i as int]);
        match suite_attr(&attrs[i]) {
            Some(r) => {
                out.push(r);
            },
            None => {},
        }
        i = i + 1;
        assert(out@ =~= roles_of(attrs@.take(i as int)));
    }
    assert(attrs@.take(attrs@.len() as int) =~= attrs@);
    out
}

// ── case order ──────────────────────────────────────────────────────────

/// The position of the first `#[case]` attribute.
pub open spec fn first_case<R>(attrs: Seq<Attr<R>>) -> Option<int>
    decreases attrs.len(),
{
    if attrs.len() == 0 {
        None
    } else if role_of(attrs[0]) == Some(SuiteAttr::Case) {
        Some(0)
    } else {
        match first_case(attrs.drop_first()) {
            Some(i) => Some(i + 1),
            None => None,
        }
    }
}

/// An argument key as an identifier: a path of several segments reads as
/// the empty name.
pub open spec fn ident_key(k: Seq<char>) -> Seq<char> {
    if k.contains(':') {
        Seq::empty()
    } else {
        k
    }
}

/// The refusal of an unknown `#[case(...)]` argument.
pub open spec fn unknown_case_arg(k: Seq<char>) -> Seq<char> {
    "unknown #[case] argument `"@ + ident_key(k) + "`"@
}

/// The order the arguments of `#[case(...)]` give, read left to right.
pub open spec fn order_args(ms: Seq<MetaArg>) -> Result<Option<u32>, Seq<char>>
    decreases ms.len(),
{
    if ms.len() == 0 {
        Ok(None)
    } else {
        match order_args(ms.drop_last()) {
            Err(e) => Err(e),
            Ok(o) => {
                let a = ms.last();
                if a.key@ == "order"@ {
                    match uint_arg(a, u32::MAX as int) {
                        Ok(v) => Ok(Some(v as u32)),
                        Err(e) => Err(e),
                    }
                } else {
                    Err(unknown_case_arg(a.key@))
                }
            },
        }
    }
}

/// The order the first `#[case]` claims: none for a bare `#[case]`.
pub open spec fn case_order_of<R>(attrs: Seq<Attr<R>>) -> Result<Option<u32>, Seq<char>> {
    match first_case(attrs) {
        None => Ok(None),
        Some(i) => if attrs[i].form is Bare {
            Ok(None)
        } else {
            match attrs[i].meta {
                Err(e) => Err(e@),
                Ok(ms) => order_args(ms@),
            }
        },
    }
}

fn contains_colon(s: &String) -> (r: bool)
    ensures
        r == s@.contains(':'),
{
    let c = chars_of(s.as_str());
    let mut i: usize = 0;
    while i < c.len()
        invariant
            0 <= i <= c@.len(),
            c@ == s@,
            forall|k: int| 0 <= k < i ==> c@[k] != ':',
        decreases c@.len() - i,
    {
        if c[i] == ':' {
            return true;
        }
        i = i + 1;
    }
    false
}

fn order_args_of(ms: &Vec<MetaArg>) -> (r: Result<Option<u32>, String>)
    ensures
        match r {
            Ok(o) => order_args(ms@) == Ok::<Option<u32>, Seq<char>>(o),
            Err(e) => order_args(ms@) == Err::<Option<u32>, Seq<char>>(e@),
        },
{
    proof {
        reveal_strlit("order");
    }
    let mut order: Option<u32> = None;
    let mut i: usize = 0;
    while i < ms.len()
        invariant
            0 <= i <= ms@.len(),
            order_args(ms@.take(i as int)) == Ok::<Option<u32>, Seq<char>>(order),
        decreases ms@.len() - i,
    {
        assert(ms@.take(i + 1).drop_last() =~= ms@.take(i as int));
        assert(ms@.take(i + 1).last() == ms@[i as int]);
        let a = &ms[i];
        if str_is(a.key.as_str(), "order") {
            match crate::attrs::read_uint_arg(a, 4294967295) {
                Ok(v) => {
                    order = Some(v as u32);
                },
                Err(e) => {
                    proof {
                        lemma_order_args_stop(ms@, i as int);
                    }
                    return Err(e);
                },
            }
        } else {
            let mut m: Vec<char> = Vec::new();
            push_str(&mut m, "unknown #[case] argument `");
            if !contains_colon(&a.key) {
                push_str(&mut m, a.key.as_str());
            }
            push_str(&mut m, "`");
            proof {
                lemma_order_args_stop(ms@, i as int);
            }
            return Err(string_of(&m));
        }
        i = i + 1;
    }
    assert(ms@.take(ms@.len() as int) =~= ms@);
    Ok(order)
}

proof fn lemma_order_args_stop(ms: Seq<MetaArg>, i: int)
    requires
        0 <= i < ms.len(),
        order_args(ms.take(i + 1)) is Err,
    ensures
        order_args(ms) == order_args(ms.take(i + 1)),
    decreases ms.len() - i,
{
    if i + 1 == ms.len() {
        assert(ms.take(i + 1) =~= ms);
    } else {
        assert(ms.drop_last().take(i + 1) =~= ms.take(i + 1));
        lemma_order_args_stop(ms.drop_last(), i);
    }
}

fn find_case<R>(attrs: &Vec<Attr<R>>) -> (r: Option<usize>)
    ensures
        match r {
            Some(i) => i < attrs@.len() && first_case(attrs@) == Some(i as int),
            None => first_case(attrs@) is None,
        },
{
    let mut i: usize = 0;
    assert(attrs@.skip(0) =~= attrs@);
    while i < attrs.len()
        invariant
            0 <= i <= attrs@.len(),
            first_case(attrs@) == match first_case(attrs@.skip(i as int)) {
                Some(j) => Some(j + i),
                None => None::<int>,
            },
        decreases attrs@.len() - i,
    {
        assert(attrs@.skip(i as int)[0] == attrs@[i as int]);
        assert(attrs@.skip(i as int).drop_first() =~= attrs@.skip(i + 1));
        if matches!(suite_attr(&attrs[i]), Some(SuiteAttr::Case)) {
            return Some(i);
        }
        i = i + 1;
    }
    None
}

/// The order a case method claims with `#[case(order = N)]`.
pub fn case_order<R>(attrs: &Vec<Attr<R>>) -> (r: Result<Option<u32>, String>)
    ensures
        match r {
            Ok(o) => case_order_of(attrs@) == Ok::<Option<u32>, Seq<char>>(o),
            Err(e) => case_order_of(attrs@) == Err::<Option<u32>, Seq<char>>(e@),
        },
{
    match find_case(attrs) {
        None => Ok(None),
        Some(i) => {
            let a = &attrs[i];
            match &a.form {
                AttrForm::Bare => Ok(None),
                _ => match &a.meta {
                    Err(e) => Err(e.clone()),
                    Ok(ms) => order_args_of(ms),
                },
            }
        },
    }
}

// ── the suite ───────────────────────────────────────────────────────────

/// One method of the impl block: its name, attributes and parameters.
pub struct SuiteMethod<R> {
    pub name: String,
    pub attrs: Vec<Attr<R>>,
    pub inputs: Vec<FnInput>,
}

/// A case: the method's position and the order it claims.
#[derive(Clone, Copy, PartialEq, Eq, Debug)]
pub struct CaseMethod {
    pub method: usize,
    pub order: Option<u32>,
}

/// The methods of a suite by role, each by its position among the methods.
pub struct SuitePlan {
    pub before_all: Option<usize>,
    pub before_each: Vec<usize>,
    pub after_each: Vec<usize>,
    pub after_all: Option<usize>,
    pub cases: Vec<CaseMethod>,
}

/// A suite plan as values.
pub struct PlanView {
    pub before_all: Option<usize>,
    pub before_each: Seq<usize>,
    pub after_each: Seq<usize>,
    pub after_all: Option<usize>,
    pub cases: Seq<CaseMethod>,
}

impl SuitePlan {
    pub open spec fn view(&self) -> PlanView {
        PlanView {
            before_all: self.before_all,
            before_each: self.before_each@,
            after_each: self.after_each@,
            after_all: self.after_all,
            cases: self.cases@,
        }
    }
}

/// Where a refusal is reported.
#[derive(Clone, Copy, PartialEq, Eq, Debug)]
pub enum SuiteSpan {
    /// The `impl` token of the block.
    Impl,
    /// The name of the method at this position.
    Method(usize),
    /// The arguments of the `#[case(...)]` of the method at this position.
    CaseArgs(usize),
    /// The parameter at position `param` of method `method`.
    Param { method: usize, param: usize },
    /// The pattern of that parameter.
    Pattern { method: usize, param: usize },
}

/// Why a suite is refused: where, and the message.
pub struct SuiteFault {
    pub at: SuiteSpan,
    pub message: String,
}

pub open spec fn fault_is(f: SuiteFault, at: SuiteSpan, message: Seq<char>) -> bool {
    f.at == at && f.message@ == message
}

pub open spec fn multiple_roles_msg() -> Seq<char> {
    "a test-suite method can have only one of #[case], #[before_all], #[before_each], #[after_each], or #[after_all]"@
}

pub open spec fn second_before_all_msg() -> Seq<char> {
    "only one #[before_all] method is allowed per test suite"@
}

pub open spec fn second_after_all_msg() -> Seq<char> {
    "only one #[after_all] method is allowed per test suite"@
}

/// A refusal as values.
pub type FaultSpec = (SuiteSpan, Seq<char>);

/// Files method `m` (at position `i`) under its role.
pub open spec fn suite_step<R>(st: PlanView, m: SuiteMethod<R>, i: int) -> Result<PlanView, FaultSpec> {
    let roles = roles_of(m.attrs@);
    if roles.len() == 0 {
        Ok(st)
    } else if roles.len() > 1 {
        Err((SuiteSpan::Method(i as usize), multiple_roles_msg()))
    } else {
        match roles[0] {
            SuiteAttr::Case => match case_order_of(m.attrs@) {
                Ok(o) => Ok(PlanView { cases: st.cases.push(CaseMethod { method: i as usize, order: o }), ..st }),
                Err(e) => Err((SuiteSpan::CaseArgs(i as usize), e)),
            },
            SuiteAttr::BeforeAll => if st.before_all is Some {
                Err((SuiteSpan::Method(i as usize), second_before_all_msg()))
            } else {
                Ok(PlanView { before_all: Some(i as usize), ..st })
            },
            SuiteAttr::BeforeEach => Ok(PlanView { before_each: st.before_each.push(i as usize), ..st }),
            SuiteAttr::AfterEach => Ok(PlanView { after_each: st.after_each.push(i as usize), ..st }),
            SuiteAttr::AfterAll => if st.after_all is Some {
                Err((SuiteSpan::Method(i as usize), second_after_all_msg()))
            } else {
                Ok(PlanView { after_all: Some(i as usize), ..st })
            },
        }
    }
}

pub open spec fn empty_plan() -> PlanView {
    PlanView {
        before_all: None,
        before_each: Seq::empty(),
        after_each: Seq::empty(),
        after_all: None,
        cases: Seq::empty(),
    }
}

/// Files the methods in order; the first refused method stops the reading.
pub open spec fn suite_scan<R>(ms: Seq<SuiteMethod<R>>) -> Result<PlanView, FaultSpec>
    decreases ms.len(),
{
    if ms.len() == 0 {
        Ok(empty_plan())
    } else {
        match suite_scan(ms.drop_last()) {
            Err(f) => Err(f),
            Ok(st) => suite_step(st, ms.last(), ms.len() - 1),
        }
    }
}

proof fn lemma_suite_scan_stop<R>(ms: Seq<SuiteMethod<R>>, i: int)
    requires
        0 <= i < ms.len(),
        suite_scan(ms.take(i + 1)) is Err,
    ensures
        suite_scan(ms) == suite_scan(ms.take(i + 1)),
    decreases ms.len() - i,
{
    if i + 1 == ms.len() {
        assert(ms.take(i + 1) =~= ms);
    } else {
        assert(ms.drop_last().take(i + 1) =~= ms.take(i + 1));
        lemma_suite_scan_stop(ms.drop_last(), i);
    }
}

fn fault(at: SuiteSpan, msg: &str) -> (r: SuiteFault)
    ensures
        fault_is(r, at, msg@),
{
    SuiteFault { at, message: string_of(&chars_of(msg)) }
}

/// Sort the methods of the impl block into cases and hooks.
pub fn parse_suite<R>(methods: &Vec<SuiteMethod<R>>) -> (r: Result<SuitePlan, SuiteFault>)
    ensures
        match r {
            Ok(plan) => suite_scan(methods@) == Ok::<PlanView, FaultSpec>(plan.view()) && plan_within(
                plan.view(),
                methods@.len() as int,
            ),
            Err(f) => suite_scan(methods@) == Err::<PlanView, FaultSpec>((f.at, f.message@)),
        },
{
    proof {
        reveal_strlit(
            "a test-suite method can have only one of #[case], #[before_all], #[before_each], #[after_each], or #[after_all]",
        );
        reveal_strlit("only one #[before_all] method is allowed per test suite");
        reveal_strlit("only one #[after_all] method is allowed per test suite");
    }
    let mut plan = SuitePlan {
        before_all: None,
        before_each: Vec::new(),
        after_each: Vec::new(),
        after_all: None,
        cases: Vec::new(),
    };
    let mut i: usize = 0;
    assert(plan.view() =~= empty_plan());
    while i < methods.len()
        invariant
            0 <= i <= methods@.len(),
            suite_scan(methods@.take(i as int)) == Ok::<PlanView, FaultSpec>(plan.view()),
        decreases methods@.len() - i,
    {
        assert(methods@.take(i + 1).drop_last() =~= methods@.take(i as int));
        assert(methods@.take(i + 1).last() == methods@[i as int]);
        let m = &methods[i];
        let roles = suite_attrs(&m.attrs);
        if roles.len() > 1 {
            proof {
                lemma_suite_scan_stop(methods@, i as int);
            }
            return Err(
                fault(
                    SuiteSpan::Method(i),
                    "a test-suite method can have only one of #[case], #[before_all], #[before_each], #[after_each], or #[after_all]",
                ),
            );
        }
        if roles.len() == 1 {
            let ghost before = plan.view();
            match roles[0] {
                SuiteAttr::Case => match case_order(&m.attrs) {
                    Ok(order) => {
                        plan.cases.push(CaseMethod { method: i, order });
                        assert(plan.view() =~= PlanView {
                            cases: before.cases.push(CaseMethod { method: i, order }),
                            ..before
                        });
                    },
                    Err(e) => {
                        proof {
                            lemma_suite_scan_stop(methods@, i as int);
                        }
                        return Err(SuiteFault { at: SuiteSpan::CaseArgs(i), message: e });
                    },
                },
                SuiteAttr::BeforeAll => {
                    if plan.before_all.is_some() {
                        proof {
                            lemma_suite_scan_stop(methods@, i as int);
                        }
                        return Err(
                            fault(
                                SuiteSpan::Method(i),
                                "only one #[before_all] method is allowed per test suite",
                            ),
                        );
                    }
                    plan.before_all = Some(i);
                },
                SuiteAttr::BeforeEach => {
                    plan.before_each.push(i);
                    assert(plan.view() =~= PlanView {
                        before_each: before.before_each.push(i),
                        ..before
                    });
                },
                SuiteAttr::AfterEach => {
                    plan.after_each.push(i);
                    assert(plan.view() =~= PlanView { after_each: before.after_each.push(i), ..before });
                },
                SuiteAttr::AfterAll => {
                    if plan.after_all.is_some() {
                        proof {
                            lemma_suite_scan_stop(methods@, i as int);
                        }
                        return Err(
                            fault(
                                SuiteSpan::Method(i),
                                "only one #[after_all] method is allowed per test suite",
                            ),
                        );
                    }
                    plan.after_all = Some(i);
                },
            }
        }
        i = i + 1;
    }
    assert(methods@.take(methods@.len() as int) =~= methods@);
    proof {
        lemma_scan_within(methods@);
    }
    Ok(plan)
}

/// Every position a sorted suite names is the position of one of its
/// methods.
pub proof fn lemma_scan_within<R>(ms: Seq<SuiteMethod<R>>)
    ensures
        suite_scan(ms) matches Ok(p) ==> plan_within(p, ms.len() as int),
    decreases ms.len(),
{
    if ms.len() > 0 {
        lemma_scan_within(ms.drop_last());
        match suite_scan(ms.drop_last()) {
            Ok(st) => {
                let i = ms.len() - 1;
                match suite_step(st, ms.last(), i) {
                    Ok(p) => {
                        assert(plan_within(st, i));
                        assert forall|k: int| 0 <= k < p.cases.len() implies #[trigger] p.cases[k].method
                            < ms.len() by {
                            if k < st.cases.len() {
                                assert(p.cases[k] == st.cases[k] || p.cases == st.cases);
                            }
                        }
                        assert forall|k: int| 0 <= k < p.before_each.len() implies #[trigger] p.before_each[k]
                            < ms.len() by {
                            if k < st.before_each.len() {
                                assert(p.before_each[k] == st.before_each[k] || p.before_each == st.before_each);
                            }
                        }
                        assert forall|k: int| 0 <= k < p.after_each.len() implies #[trigger] p.after_each[k]
                            < ms.len() by {
                            if k < st.after_each.len() {
                                assert(p.after_each[k] == st.after_each[k] || p.after_each == st.after_each);
                            }
                        }
                    },
                    Err(_) => {},
                }
            },
            Err(_) => {},
        }
    }
}

// ── validation ──────────────────────────────────────────────────────────

pub open spec fn no_cases_msg() -> Seq<char> {
    "#[r2e::test_suite] requires at least one #[case] method"@
}

pub open spec fn receiver_missing_msg(attr: Seq<char>) -> Seq<char> {
    attr + " methods must take `&self` or `&mut self`"@
}

pub open spec fn receiver_only_msg(attr: Seq<char>) -> Seq<char> {
    attr + " methods must take `&self` or `&mut self` and no other parameters"@
}

pub open spec fn before_all_self_msg() -> Seq<char> {
    "#[before_all] must be an associated function without `self`; return `Self` to construct the suite, or return `()` and require `Default`"@
}

/// The refusal of a method (at position `m`, under `attr`) that does not take
/// exactly a `self` receiver.
pub open spec fn receiver_fault(inputs: Seq<FnInput>, m: int, attr: Seq<char>) -> Option<FaultSpec> {
    if inputs.len() == 0 {
        Some((SuiteSpan::Method(m as usize), receiver_missing_msg(attr)))
    } else if !(inputs[0] is Receiver) {
        Some((SuiteSpan::Param { method: m as usize, param: 0 }, receiver_only_msg(attr)))
    } else if inputs.len() > 1 {
        Some((SuiteSpan::Param { method: m as usize, param: 1 }, receiver_only_msg(attr)))
    } else {
        None
    }
}

/// Check that a hook or case takes `&self` / `&mut self` and nothing else.
pub fn validate_receiver_only(inputs: &Vec<FnInput>, method: usize, attr: &str) -> (r: Result<(), SuiteFault>)
    ensures
        match r {
            Ok(()) => receiver_fault(inputs@, method as int, attr@) is None,
            Err(f) => receiver_fault(inputs@, method as int, attr@) == Some((f.at, f.message@)),
        },
{
    if inputs.len() == 0 {
        let mut m: Vec<char> = Vec::new();
        push_str(&mut m, attr);
        push_str(&mut m, " methods must take `&self` or `&mut self`");
        return Err(SuiteFault { at: SuiteSpan::Method(method), message: string_of(&m) });
    }
    let first_is_receiver = match &inputs[0] {
        FnInput::Receiver { .. } => true,
        _ => false,
    };
    if !first_is_receiver || inputs.len() > 1 {
        let mut m: Vec<char> = Vec::new();
        push_str(&mut m, attr);
        push_str(&mut m, " methods must take `&self` or `&mut self` and no other parameters");
        let param = if !first_is_receiver {
            0
        } else {
            1
        };
        return Err(SuiteFault { at: SuiteSpan::Param { method, param }, message: string_of(&m) });
    }
    Ok(())
}

pub open spec fn no_self_msg(attr: Seq<char>) -> Seq<char> {
    attr + " does not accept `self`"@
}

pub open spec fn ident_pattern_msg(attr: Seq<char>) -> Seq<char> {
    attr + " parameters must use identifier patterns"@
}

/// The refusal of a parameter that cannot be bound by name.
pub open spec fn bindable_fault(input: FnInput, m: int, k: int, attr: Seq<char>) -> Option<FaultSpec> {
    match input {
        FnInput::Receiver { .. } => Some(
            (SuiteSpan::Param { method: m as usize, param: k as usize }, no_self_msg(attr)),
        ),
        FnInput::Typed { pat, .. } => if pat is Ident {
            None
        } else {
            Some(
                (SuiteSpan::Pattern { method: m as usize, param: k as usize }, ident_pattern_msg(attr)),
            )
        },
    }
}

/// Check that a parameter is a typed one with an identifier pattern.
pub fn validate_bindable_param(input: &FnInput, method: usize, param: usize, attr: &str) -> (r: Result<(), SuiteFault>)
    ensures
        match r {
            Ok(()) => bindable_fault(*input, method as int, param as int, attr@) is None,
            Err(f) => bindable_fault(*input, method as int, param as int, attr@) == Some(
                (f.at, f.message@),
            ),
        },
{
    match input {
        FnInput::Receiver { .. } => {
            let mut m: Vec<char> = Vec::new();
            push_str(&mut m, attr);
            push_str(&mut m, " does not accept `self`");
            Err(SuiteFault { at: SuiteSpan::Param { method, param }, message: string_of(&m) })
        },
        FnInput::Typed { pat, .. } => match pat {
            Pat::Ident(_) => Ok(()),
            _ => {
                let mut m: Vec<char> = Vec::new();
                push_str(&mut m, attr);
                push_str(&mut m, " parameters must use identifier patterns");
                Err(SuiteFault { at: SuiteSpan::Pattern { method, param }, message: string_of(&m) })
            },
        },
    }
}

/// The position among `cases` of the first case that claims order `o`.
pub open spec fn first_claim(cases: Seq<CaseMethod>, o: u32) -> Option<int>
    decreases cases.len(),
{
    if cases.len() == 0 {
        None
    } else {
        match first_claim(cases.drop_last(), o) {
            Some(j) => Some(j),
            None => if cases.last().order == Some(o) {
                Some(cases.len() - 1)
            } else {
                None
            },
        }
    }
}

pub open spec fn duplicate_order_msg(o: u32, first: Seq<char>, this: Seq<char>) -> Seq<char> {
    "duplicate #[case(order = "@ + decimal(o as nat) + ")] in this test suite: both `"@ + first
        + "` and `"@ + this + "` claim it"@
}

/// The refusal of the cases, checked in order: each takes only `self`, and
/// no two claim the same order.
pub open spec fn cases_fault<R>(ms: Seq<SuiteMethod<R>>, cases: Seq<CaseMethod>) -> Option<FaultSpec>
    decreases cases.len(),
{
    if cases.len() == 0 {
        None
    } else {
        match cases_fault(ms, cases.drop_last()) {
            Some(f) => Some(f),
            None => {
                let c = cases.last();
                match receiver_fault(ms[c.method as int].inputs@, c.method as int, "#[case]"@) {
                    Some(f) => Some(f),
                    None => match c.order {
                        Some(o) => match first_claim(cases.drop_last(), o) {
                            Some(j) => Some(
                                (
                                    SuiteSpan::Method(c.method),
                                    duplicate_order_msg(
                                        o,
                                        ms[cases[j].method as int].name@,
                                        ms[c.method as int].name@,
                                    ),
                                ),
                            ),
                            None => None,
                        },
                        None => None,
                    },
                }
            },
        }
    }
}

/// The refusal of a list of hooks, in order.
pub open spec fn hooks_fault<R>(ms: Seq<SuiteMethod<R>>, hooks: Seq<usize>, attr: Seq<char>) -> Option<
    FaultSpec,
>
    decreases hooks.len(),
{
    if hooks.len() == 0 {
        None
    } else {
        match hooks_fault(ms, hooks.drop_last(), attr) {
            Some(f) => Some(f),
            None => receiver_fault(ms[hooks.last() as int].inputs@, hooks.last() as int, attr),
        }
    }
}

/// The refusal of the parameters of `#[before_all]`, in order.
pub open spec fn params_fault(inputs: Seq<FnInput>, m: int) -> Option<FaultSpec>
    decreases inputs.len(),
{
    if inputs.len() == 0 {
        None
    } else {
        match params_fault(inputs.drop_last(), m) {
            Some(f) => Some(f),
            None => bindable_fault(inputs.last(), m, inputs.len() - 1, "#[before_all]"@),
        }
    }
}

/// The refusal of `#[before_all]`: it takes no `self`, and binds each
/// parameter by name.
pub open spec fn before_all_fault(inputs: Seq<FnInput>, m: int) -> Option<FaultSpec> {
    if crate::sig::has_receiver(inputs) {
        Some((SuiteSpan::Method(m as usize), before_all_self_msg()))
    } else {
        params_fault(inputs, m)
    }
}

/// The first refusal of a suite, in the order the checks run.
pub open spec fn suite_fault<R>(ms: Seq<SuiteMethod<R>>, p: PlanView) -> Option<FaultSpec> {
    if p.cases.len() == 0 {
        Some((SuiteSpan::Impl, no_cases_msg()))
    } else {
        match cases_fault(ms, p.cases) {
            Some(f) => Some(f),
            None => match hooks_fault(ms, p.before_each, "#[before_each]"@) {
                Some(f) => Some(f),
                None => match hooks_fault(ms, p.after_each, "#[after_each]"@) {
                    Some(f) => Some(f),
                    None => match (match p.after_all {
                        Some(a) => receiver_fault(ms[a as int].inputs@, a as int, "#[after_all]"@),
                        None => None,
                    }) {
                        Some(f) => Some(f),
                        None => match p.before_all {
                            Some(b) => before_all_fault(ms[b as int].inputs@, b as int),
                            None => None,
                        },
                    },
                },
            },
        }
    }
}

/// The checks that run before those of `#[before_all]` pass.
pub open spec fn passes_until_before_all<R>(ms: Seq<SuiteMethod<R>>, p: PlanView) -> bool {
    &&& p.cases.len() > 0
    &&& cases_fault(ms, p.cases) is None
    &&& hooks_fault(ms, p.before_each, "#[before_each]"@) is None
    &&& hooks_fault(ms, p.after_each, "#[after_each]"@) is None
    &&& match p.after_all {
        Some(a) => receiver_fault(ms[a as int].inputs@, a as int, "#[after_all]"@) is None,
        None => true,
    }
}

/// Every method position in the plan names a method.
pub open spec fn plan_within(p: PlanView, n: int) -> bool {
    &&& (p.before_all matches Some(b) ==> b < n)
    &&& (p.after_all matches Some(a) ==> a < n)
    &&& forall|k: int| 0 <= k < p.before_each.len() ==> #[trigger] p.before_each[k] < n
    &&& forall|k: int| 0 <= k < p.after_each.len() ==> #[trigger] p.after_each[k] < n
    &&& forall|k: int| 0 <= k < p.cases.len() ==> #[trigger] p.cases[k].method < n
}

fn check_hooks<R>(methods: &Vec<SuiteMethod<R>>, hooks: &Vec<usize>, attr: &str) -> (r: Result<(), SuiteFault>)
    requires
        forall|k: int| 0 <= k < hooks@.len() ==> #[trigger] hooks@[k] < methods@.len(),
    ensures
        match r {
            Ok(()) => hooks_fault(methods@, hooks@, attr@) is None,
            Err(f) => hooks_fault(methods@, hooks@, attr@) == Some((f.at, f.message@)),
        },
{
    let mut i: usize = 0;
    while i < hooks.len()
        invariant
            0 <= i <= hooks@.len(),
            forall|k: int| 0 <= k < hooks@.len() ==> #[trigger] hooks@[k] < methods@.len(),
            hooks_fault(methods@, hooks@.take(i as int), attr@) is None,
        decreases hooks@.len() - i,
    {
        assert(hooks@.take(i + 1).drop_last() =~= hooks@.take(i as int));
        assert(hooks@.take(i + 1).last() == hooks@[i as int]);
        let h = hooks[i];
        match validate_receiver_only(&methods[h].inputs, h, attr) {
            Ok(()) => {},
            Err(f) => {
                proof {
                    lemma_hooks_fault_stop(methods@, hooks@, attr@, i as int);
                }
                return Err(f);
            },
        }
        i = i + 1;
    }
    assert(hooks@.take(hooks@.len() as int) =~= hooks@);
    Ok(())
}

proof fn lemma_hooks_fault_stop<R>(ms: Seq<SuiteMethod<R>>, hooks: Seq<usize>, attr: Seq<char>, i: int)
    requires
        0 <= i < hooks.len(),
        hooks_fault(ms, hooks.take(i + 1), attr) is Some,
    ensures
        hooks_fault(ms, hooks, attr) == hooks_fault(ms, hooks.take(i + 1), attr),
    decreases hooks.len() - i,
{
    if i + 1 == hooks.len() {
        assert(hooks.take(i + 1) =~= hooks);
    } else {
        assert(hooks.drop_last().take(i + 1) =~= hooks.take(i + 1));
        lemma_hooks_fault_stop(ms, hooks.drop_last(), attr, i);
    }
}

proof fn lemma_cases_fault_stop<R>(ms: Seq<SuiteMethod<R>>, cases: Seq<CaseMethod>, i: int)
    requires
        0 <= i < cases.len(),
        cases_fault(ms, cases.take(i + 1)) is Some,
    ensures
        cases_fault(ms, cases) == cases_fault(ms, cases.take(i + 1)),
    decreases cases.len() - i,
{
    if i + 1 == cases.len() {
        assert(cases.take(i + 1) =~= cases);
    } else {
        assert(cases.drop_last().take(i + 1) =~= cases.take(i + 1));
        lemma_cases_fault_stop(ms, cases.drop_last(), i);
    }
}

proof fn lemma_params_fault_stop(inputs: Seq<FnInput>, m: int, i: int)
    requires
        0 <= i < inputs.len(),
        params_fault(inputs.take(i + 1), m) is Some,
    ensures
        params_fault(inputs, m) == params_fault(inputs.take(i + 1), m),
    decreases inputs.len() - i,
{
    if i + 1 == inputs.len() {
        assert(inputs.take(i + 1) =~= inputs);
    } else {
        assert(inputs.drop_last().take(i + 1) =~= inputs.take(i + 1));
        lemma_params_fault_stop(inputs.drop_last(), m, i);
    }
}

fn find_claim(cases: &Vec<CaseMethod>, upto: usize, o: u32) -> (r: Option<usize>)
    requires
        upto <= cases@.len(),
    ensures
        match r {
            Some(j) => first_claim(cases@.take(upto as int), o) == Some(j as int) && j < upto,
            None => first_claim(cases@.take(upto as int), o) is None,
        },
{
    let mut j: usize = 0;
    while j < upto
        invariant
            0 <= j <= upto <= cases@.len(),
            first_claim(cases@.take(j as int), o) is None,
        decreases upto - j,
    {
        assert(cases@.take(j + 1).drop_last() =~= cases@.take(j as int));
        if cases[j].order == Some(o) {
            proof {
                lemma_first_claim_extend(cases@, upto as int, j as int, o);
            }
            return Some(j);
        }
        j = j + 1;
    }
    None
}

proof fn lemma_first_claim_extend(cases: Seq<CaseMethod>, upto: int, j: int, o: u32)
    requires
        0 <= j < upto <= cases.len(),
        first_claim(cases.take(j + 1), o) == Some(j),
    ensures
        first_claim(cases.take(upto), o) == Some(j),
    decreases upto - j,
{
    if upto > j + 1 {
        lemma_first_claim_extend(cases, upto - 1, j, o);
        assert(cases.take(upto).drop_last() =~= cases.take(upto - 1));
    }
}

/// Check a sorted suite: at least one case; cases and per-case hooks take
/// only `self`; no two cases claim one order; `#[before_all]` takes no `self`
/// and binds its parameters by name.
pub fn validate_suite<R>(methods: &Vec<SuiteMethod<R>>, plan: &SuitePlan) -> (r: Result<(), SuiteFault>)
    requires
        plan_within(plan.view(), methods@.len() as int),
    ensures
        match r {
            Ok(()) => suite_fault(methods@, plan.view()) is None,
            Err(f) => suite_fault(methods@, plan.view()) == Some((f.at, f.message@)),
        },
{
    proof {
        reveal_strlit("#[r2e::test_suite] requires at least one #[case] method");
        reveal_strlit(
            "#[before_all] must be an associated function without `self`; return `Self` to construct the suite, or return `()` and require `Default`",
        );
        reveal_strlit("#[case]");
        reveal_strlit("#[before_each]");
        reveal_strlit("#[after_each]");
        reveal_strlit("#[after_all]");
        reveal_strlit("#[before_all]");
    }
    let cases = &plan.cases;
    if cases.len() == 0 {
        return Err(fault(SuiteSpan::Impl, "#[r2e::test_suite] requires at least one #[case] method"));
    }
    let mut i: usize = 0;
    while i < cases.len()
        invariant
            0 <= i <= cases@.len(),
            cases@ == plan.cases@,
            plan_within(plan.view(), methods@.len() as int),
            cases_fault(methods@, cases@.take(i as int)) is None,
        decreases cases@.len() - i,
    {
        assert(cases@.take(i + 1).drop_last() =~= cases@.take(i as int));
        assert(cases@.take(i + 1).last() == cases@[i as int]);
        let c = cases[i];
        assert(plan.view().cases[i as int] == c);
        match validate_receiver_only(&methods[c.method].inputs, c.method, "#[case]") {
            Ok(()) => {},
            Err(f) => {
                proof {
                    lemma_cases_fault_stop(methods@, cases@, i as int);
                }
                return Err(f);
            },
        }
        match c.order {
            Some(o) => match find_claim(cases, i, o) {
                Some(j) => {
                    assert(plan.view().cases[j as int] == cases@[j as int]);
                    let mut m: Vec<char> = Vec::new();
                    push_str(&mut m, "duplicate #[case(order = ");
                    let mut d = decimal_chars(o as usize);
                    m.append(&mut d);
                    push_str(&mut m, ")] in this test suite: both `");
                    push_str(&mut m, methods[cases[j].method].name.as_str());
                    push_str(&mut m, "` and `");
                    push_str(&mut m, methods[c.method].name.as_str());
                    push_str(&mut m, "` claim it");
                    proof {
                        assert(cases@.take(i as int) =~= cases@.take(i + 1).drop_last());
                        assert(m@ =~= duplicate_order_msg(
                            o,
                            methods@[cases@[j as int].method as int].name@,
                            methods@[c.method as int].name@,
                        ));
                        lemma_cases_fault_stop(methods@, cases@, i as int);
                    }
                    return Err(SuiteFault { at: SuiteSpan::Method(c.method), message: string_of(&m) });
                },
                None => {},
            },
            None => {},
        }
        i = i + 1;
    }
    assert(cases@.take(cases@.len() as int) =~= cases@);
    assert(plan.view().before_each == plan.before_each@);
    check_hooks(methods, &plan.before_each, "#[before_each]")?;
    check_hooks(methods, &plan.after_each, "#[after_each]")?;
    match plan.after_all {
        Some(a) => {
            validate_receiver_only(&methods[a].inputs, a, "#[after_all]")?;
        },
        None => {},
    }
    match plan.before_all {
        Some(b) => {
            let inputs = &methods[b].inputs;
            if crate::sig::any_receiver(inputs) {
                return Err(
                    fault(
                        SuiteSpan::Method(b),
                        "#[before_all] must be an associated function without `self`; return `Self` to construct the suite, or return `()` and require `Default`",
                    ),
                );
            }
            let mut k: usize = 0;
            while k < inputs.len()
                invariant
                    0 <= k <= inputs@.len(),
                    plan.before_all == Some(b),
                    b < methods@.len(),
                    inputs@ == methods@[b as int].inputs@,
                    !crate::sig::has_receiver(inputs@),
                    passes_until_before_all(methods@, plan.view()),
                    params_fault(inputs@.take(k as int), b as int) is None,
                decreases inputs@.len() - k,
            {
                assert(inputs@.take(k + 1).drop_last() =~= inputs@.take(k as int));
                assert(inputs@.take(k + 1).last() == inputs@[k as int]);
                match validate_bindable_param(&inputs[k], b, k, "#[before_all]") {
                    Ok(()) => {},
                    Err(f) => {
                        proof {
                            lemma_params_fault_stop(inputs@, b as int, k as int);
                        }
                        return Err(f);
                    },
                }
                k = k + 1;
            }
            assert(inputs@.take(inputs@.len() as int) =~= inputs@);
        },
        None => {},
    }
    Ok(())
}

/// The refusals of the impl block itself, before its methods are read.
pub open spec fn impl_fault(is_trait_impl: bool, is_generic: bool, has_app: bool, has_with: bool, jwt: bool) -> Option<
    Seq<char>,
> {
    if is_trait_impl {
        Some("#[r2e::test_suite] only supports inherent impl blocks"@)
    } else if is_generic {
        Some("#[r2e::test_suite] does not support generic impl blocks yet"@)
    } else if !has_app && (has_with || !jwt) {
        Some("`with = ...` and `jwt = ...` require `app = <App type>`"@)
    } else {
        None
    }
}

/// Check the impl block: an inherent, non-generic impl; `with` and `jwt =
/// false` only together with `app`.
pub fn check_suite_impl(is_trait_impl: bool, is_generic: bool, has_app: bool, has_with: bool, jwt: bool) -> (r:
    Result<(), String>)
    ensures
        match r {
            Ok(()) => impl_fault(is_trait_impl, is_generic, has_app, has_with, jwt) is None,
            Err(m) => impl_fault(is_trait_impl, is_generic, has_app, has_with, jwt) == Some(m@),
        },
{
    proof {
        reveal_strlit("#[r2e::test_suite] only supports inherent impl blocks");
        reveal_strlit("#[r2e::test_suite] does not support generic impl blocks yet");
        reveal_strlit("`with = ...` and `jwt = ...` require `app = <App type>`");
    }
    if is_trait_impl {
        Err(string_of(&chars_of("#[r2e::test_suite] only supports inherent impl blocks")))
    } else if is_generic {
        Err(string_of(&chars_of("#[r2e::test_suite] does not support generic impl blocks yet")))
    } else if !has_app && (has_with || !jwt) {
        Err(string_of(&chars_of("`with = ...` and `jwt = ...` require `app = <App type>`")))
    } else {
        Ok(())
    }
}

// ── laws ────────────────────────────────────────────────────────────────

/// Cases keep the order in which the impl block declares them: their
/// positions strictly increase.
pub proof fn lemma_cases_in_order<R>(ms: Seq<SuiteMethod<R>>)
    requires
        ms.len() <= usize::MAX,
    ensures
        suite_scan(ms) matches Ok(p) ==> forall|i: int, j: int|
            0 <= i < j < p.cases.len() ==> (#[trigger] p.cases[i]).method < (#[trigger] p.cases[j]).method,
    decreases ms.len(),
{
    if ms.len() > 0 {
        lemma_cases_in_order(ms.drop_last());
        lemma_scan_within(ms.drop_last());
        match suite_scan(ms.drop_last()) {
            Ok(st) => {
                let n = ms.len() - 1;
                match suite_step(st, ms.last(), n) {
                    Ok(p) => {
                        assert(p.cases =~= st.cases || p.cases =~= st.cases.push(
                            CaseMethod { method: n as usize, order: p.cases.last().order },
                        ));
                        assert forall|i: int, j: int| 0 <= i < j < p.cases.len() implies (
                        #[trigger] p.cases[i]).method < (#[trigger] p.cases[j]).method by {
                            if j < st.cases.len() {
                                assert(p.cases[i] == st.cases[i]);
                                assert(p.cases[j] == st.cases[j]);
                            } else {
                                assert(p.cases[i] == st.cases[i]);
                                assert(st.cases[i].method < n);
                            }
                        }
                    },
                    Err(_) => {},
                }
            },
            Err(_) => {},
        }
    }
}

/// Once no case claims an order twice among the first cases, none does: the
/// check of each case looks at all those before it.
proof fn lemma_orders_distinct<R>(ms: Seq<SuiteMethod<R>>, cases: Seq<CaseMethod>)
    requires
        cases_fault(ms, cases) is None,
    ensures
        forall|i: int, j: int|
            0 <= i < j < cases.len() && (#[trigger] cases[i]).order is Some ==> (#[trigger] cases[j]).order
                != cases[i].order,
    decreases cases.len(),
{
    if cases.len() > 0 {
        lemma_orders_distinct(ms, cases.drop_last());
        let last = cases.last();
        assert forall|i: int, j: int|
            0 <= i < j < cases.len() && (#[trigger] cases[i]).order is Some implies (
        #[trigger] cases[j]).order != cases[i].order by {
            if j < cases.len() - 1 {
                assert(cases[i] == cases.drop_last()[i]);
                assert(cases[j] == cases.drop_last()[j]);
            } else {
                let o = cases[i].order->0;
                if last.order == Some(o) {
                    lemma_first_claim_found(cases.drop_last(), o, i);
                }
            }
        }
    }
}

proof fn lemma_first_claim_found(cases: Seq<CaseMethod>, o: u32, i: int)
    requires
        0 <= i < cases.len(),
        cases[i].order == Some(o),
    ensures
        first_claim(cases, o) is Some,
    decreases cases.len(),
{
    if i < cases.len() - 1 {
        lemma_first_claim_found(cases.drop_last(), o, i);
    }
}

/// A suite that passes validation has at least one case and never two cases
/// that claim the same order.
pub proof fn lemma_valid_suite_orders<R>(ms: Seq<SuiteMethod<R>>, p: PlanView)
    requires
        suite_fault(ms, p) is None,
    ensures
        p.cases.len() > 0,
        forall|i: int, j: int|
            0 <= i < j < p.cases.len() && (#[trigger] p.cases[i]).order is Some ==> (
            #[trigger] p.cases[j]).order != p.cases[i].order,
{
    lemma_orders_distinct(ms, p.cases);
}


/// How the suite value comes out of the `#[before_all]` hook.
#[derive(Clone, Copy, PartialEq, Eq, Structural, Debug)]
pub enum BeforeAllKind {
    /// The hook returns the suite type itself.
    ConstructsSelf,
    /// The hook returns `Result<Self, _>`; an `Err` fails the suite.
    ConstructsSelfResult,
    /// The hook returns nothing (or anything else): it runs as a hook and the
    /// suite value is `Default::default()`.
    DefaultAfterHook,
}

/// Whether `t` names the suite type: a path ending in `Self`, or the same
/// tokens as the impl's self type.
pub open spec fn is_self_type(t: Ty, self_ty: Ty) -> bool {
    last_is(t, "Self"@) || t.tokens@ == self_ty.tokens@
}

/// Whether `t` is `Result<S, ..>` with `S` the suite type.
pub open spec fn is_self_result(t: Ty, self_ty: Ty) -> bool {
    wrapped_in(t, "Result"@) matches Some(inner) && is_self_type(inner, self_ty)
}

/// The kind of a `#[before_all]` hook by its return type (`None` for none
/// written).
pub open spec fn before_all_kind_of(output: Option<Ty>, self_ty: Ty) -> BeforeAllKind {
    match output {
        None => BeforeAllKind::DefaultAfterHook,
        Some(t) => if is_self_type(t, self_ty) {
            BeforeAllKind::ConstructsSelf
        } else if is_self_result(t, self_ty) {
            BeforeAllKind::ConstructsSelfResult
        } else {
            BeforeAllKind::DefaultAfterHook
        },
    }
}

/// Whether `ty` names the suite type `self_ty`.
pub fn type_is_self(ty: &Ty, self_ty: &Ty) -> (r: bool)
    ensures
        r == is_self_type(*ty, *self_ty),
{
    last_named(ty, "Self") || str_is(ty.tokens.as_str(), self_ty.tokens.as_str())
}

/// Whether `ty` is `Result<Self, _>` for the suite type `self_ty`.
pub fn result_inner_is_self(ty: &Ty, self_ty: &Ty) -> (r: bool)
    ensures
        r == is_self_result(*ty, *self_ty),
{
    match unwrap_named(ty, "Result") {
        Some(inner) => type_is_self(inner, self_ty),
        None => false,
    }
}

/// The kind of a `#[before_all]` hook, from its return type.
pub fn before_all_kind(output: &Option<Ty>, self_ty: &Ty) -> (r: BeforeAllKind)
    ensures
        r == before_all_kind_of(*output, *self_ty),
{
    match output {
        None => BeforeAllKind::DefaultAfterHook,
        Some(t) => if type_is_self(t, self_ty) {
            BeforeAllKind::ConstructsSelf
        } else if result_inner_is_self(t, self_ty) {
            BeforeAllKind::ConstructsSelfResult
        } else {
            BeforeAllKind::DefaultAfterHook
        },
    }
}

pub open spec fn concrete_path_msg() -> Seq<char> {
    "#[r2e::test_suite] requires an impl for a concrete path type"@
}

/// The name of the suite: the last segment of the impl's self type, which
/// must be a path type.
pub fn suite_ident(ty: &Ty) -> (r: Result<String, String>)
    ensures
        match last_seg(*ty) {
            Some(s) => r matches Ok(n) && n@ == s.ident@,
            None => r matches Err(m) && m@ == concrete_path_msg(),
        },
{
    match last_segment(ty) {
        Some(s) => Ok(s.ident.clone()),
        None => Err("#[r2e::test_suite] requires an impl for a concrete path type".to_string()),
    }
}


/// The positions of the attributes that are not the suite's, in order.
pub open spec fn kept_attrs<R>(attrs: Seq<Attr<R>>) -> Seq<int>
    decreases attrs.len(),
{
    if attrs.len() == 0 {
        Seq::empty()
    } else {
        kept_attrs(attrs.drop_last()) + if role_of(attrs.last()) is None {
            seq![attrs.len() - 1]
        } else {
            Seq::empty()
        }
    }
}

/// How one case becomes a generated `#[test]`: the positions of the
/// method's attributes carried over (all but the suite's), whether it
/// expects a panic, its claimed order, whether its ordered turn is told to
/// expect the panic or marked failed when the case panics, and whether the
/// `#[after_all]` hook may run after it.
pub struct CasePlan {
    pub kept_attrs: Vec<usize>,
    pub should_panic: bool,
    pub order: Option<u32>,
    pub expect_panic: bool,
    pub mark_failed: bool,
    pub runs_after_all: bool,
}

/// The plan of one case, from its attributes, the order it claims and
/// whether the suite has an `#[after_all]` hook. An ordered case submits its
/// entry and takes its turn; its turn expects the panic of a
/// `#[should_panic]` case, and is marked failed when any other case panics.
pub fn plan_case<R>(attrs: &Vec<Attr<R>>, order: Option<u32>, has_after_all: bool) -> (r: CasePlan)
    ensures
        r.kept_attrs@.map_values(|k: usize| k as int) == kept_attrs(attrs@),
        r.should_panic == has_named(attrs@, "should_panic"@),
        r.order == order,
        r.expect_panic == (order is Some && r.should_panic),
        r.mark_failed == (order is Some && !r.should_panic),
        r.runs_after_all == has_after_all,
{
    let mut kept: Vec<usize> = Vec::new();
    let mut i: usize = 0;
    while i < attrs.len()
        invariant
            0 <= i <= attrs@.len(),
            kept@.map_values(|k: usize| k as int) == kept_attrs(attrs@.take(i as int)),
        decreases attrs@.len() - i,
    {
        assert(attrs@.take(i + 1).drop_last() =~= attrs@.take(i as int));
        assert(attrs@.take(i + 1).last() == attrs@[i as int]);
        if !is_suite_attr(&attrs[i]) {
            let ghost before = kept@;
            kept.push(i);
            assert(kept@.map_values(|k: usize| k as int) =~= before.map_values(|k: usize| k as int).push(
                i as int,
            ));
        }
        i = i + 1;
        assert(kept@.map_values(|k: usize| k as int) =~= kept_attrs(attrs@.take(i as int)));
    }
    assert(attrs@.take(attrs@.len() as int) =~= attrs@);
    let should_panic = any_named(attrs, "should_panic");
    CasePlan {
        kept_attrs: kept,
        should_panic,
        order,
        expect_panic: order.is_some() && should_panic,
        mark_failed: order.is_some() && !should_panic,
        runs_after_all: has_after_all,
    }
}


/// Whether a method attribute is consumed by the suite macro: a suite role,
/// `#[ignore]` or `#[should_panic]` (those two go on the generated tests).
pub open spec fn consumed_method_attr<R>(a: Attr<R>) -> bool {
    role_of(a) is Some || named(a, "ignore"@) || named(a, "should_panic"@)
}

/// The attributes a method of the suite keeps in the emitted impl block.
pub fn clean_method_attrs<R>(attrs: Vec<Attr<R>>) -> (r: Vec<Attr<R>>)
    ensures
        r@ == attrs@.filter(|a: Attr<R>| !consumed_method_attr(a)),
{
    let names = vec![
        "case",
        "before_all",
        "beforeAll",
        "before_each",
        "beforeEach",
        "after_each",
        "afterEach",
        "after_all",
        "afterAll",
        "ignore",
        "should_panic",
    ];
    let r = retain_unnamed(attrs, &names);
    proof {
        let ns = name_views(names@);
        assert forall|a: Attr<R>| #![auto] named_any(a, ns) == consumed_method_attr(a) by {
            if named_any(a, ns) {
                let k = choose|k: int| 0 <= k < ns.len() && named(a, #[trigger] ns[k]);
                assert(ns[k] == names@[k]@);
            }
            if consumed_method_attr(a) {
                let n = a.ident->Some_0@;
                let k: int = if n == "case"@ {
                    0
                } else if n == "before_all"@ {
                    1
                } else if n == "beforeAll"@ {
                    2
                } else if n == "before_each"@ {
                    3
                } else if n == "beforeEach"@ {
                    4
                } else if n == "after_each"@ {
                    5
                } else if n == "afterEach"@ {
                    6
                } else if n == "after_all"@ {
                    7
                } else if n == "afterAll"@ {
                    8
                } else if n == "ignore"@ {
                    9
                } else {
                    10
                };
                assert(ns[k] == names@[k]@);
                assert(named(a, ns[k]));
            }
        }
        assert((|a: Attr<R>| !named_any(a, ns)) =~= (|a: Attr<R>| !consumed_method_attr(a)));
    }
    r
}

/// The attributes a parameter of a suite method keeps: all but `#[inject]`.
pub fn clean_param_attrs<R>(attrs: Vec<Attr<R>>) -> (r: Vec<Attr<R>>)
    ensures
        r@ == attrs@.filter(|a: Attr<R>| !named(a, "inject"@)),
{
    let names = vec!["inject"];
    let r = retain_unnamed(attrs, &names);
    proof {
        let ns = name_views(names@);
        assert forall|a: Attr<R>| #![auto] named_any(a, ns) == named(a, "inject"@) by {
            if named(a, "inject"@) {
                assert(ns[0] == "inject"@);
            }
        }
        assert((|a: Attr<R>| !named_any(a, ns)) =~= (|a: Attr<R>| !named(a, "inject"@)));
    }
    r
}

} // verus!
