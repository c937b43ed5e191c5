//! `#[r2e::main]` and `#[r2e::test]`: which arguments go with which entry
//! point, and whether the function runs as a plain body or boots an app.

use vstd::prelude::*;

use crate::attrs::{read_uint, uint_of};
use crate::text::{chars_of, string_of};

verus! {

/// The arguments of the attribute, as far as the entry point depends on
/// them: `tracing = ...`, whether `app`, `with`, `env` and `jwt` were given
/// (and `jwt`'s value), and the literals of `order` (its digits) and `group`.
pub struct EntryArgs {
    pub tracing: bool,
    pub app: bool,
    pub with: bool,
    pub env: bool,
    pub jwt: bool,
    pub jwt_key: bool,
    pub order: Option<String>,
    pub group: Option<String>,
}

/// Where a refusal points.
#[derive(PartialEq, Eq, Structural, Clone, Copy, Debug)]
pub enum EntrySite {
    FnToken,
    Order,
    Group,
    Sig,
    Env,
    With,
    JwtKey,
}

/// How the function is run.
#[derive(PartialEq, Eq, Structural, Clone, Copy, Debug)]
pub enum EntryKind {
    /// `app = ...`: boot the app into a `TestApp` first.
    Boot,
    /// The body inside a runtime.
    Standard,
}

/// What the attribute generates: the kind of entry point, the position of
/// an ordered test, whether tracing is set up, and whether the function is
/// a test.
#[derive(PartialEq, Eq, Structural, Clone, Copy, Debug)]
pub struct EntryPlan {
    pub kind: EntryKind,
    pub order: Option<u32>,
    pub tracing: bool,
    pub is_test: bool,
}

pub open spec fn not_async_msg(is_test: bool) -> Seq<char> {
    if is_test {
        "#[r2e::test] requires an async function"@
    } else {
        "#[r2e::main] requires an async function"@
    }
}

pub open spec fn order_not_test_msg() -> Seq<char> {
    "`order` is only supported on `#[r2e::test]`"@
}

pub open spec fn group_not_test_msg() -> Seq<char> {
    "`group` is only supported on `#[r2e::test]`"@
}

pub open spec fn group_without_order_msg() -> Seq<char> {
    "`group` requires `order` — `group` only names the barrier for tests that also declare an `order`"@
}

pub open spec fn app_not_test_msg() -> Seq<char> {
    "`app = ...` is only valid on #[r2e::test]"@
}

pub open spec fn env_without_app_msg() -> Seq<char> {
    "`env = ...` requires `app = <App type>` — the environment is handed to `App::build`, so there is nothing to boot it into:\n\n  #[r2e::test(app = MyApp, env = ENV.get().await)]"@
}

pub open spec fn with_without_app_msg() -> Seq<char> {
    "`with = ...` requires `app = <App type>` — the hook pre-configures the `AppBuilder` of the app being booted"@
}

pub open spec fn jwt_without_app_msg() -> Seq<char> {
    "`jwt = ...` requires `app = <App type>` — it turns the harness's `TestJwt` wiring off on the booted app"@
}

pub open spec fn main_params_msg() -> Seq<char> {
    "#[r2e::main] does not accept parameters — declare your app via `impl r2e::App` and call `r2e::launch::<MyApp>()` in a parameterless main:\n\n    #[r2e::main]\n    async fn main() { r2e::launch::<MyApp>().await.unwrap() }"@
}

pub open spec fn test_params_msg() -> Seq<char> {
    "#[r2e::test] does not accept parameters unless it boots an app — parameters are bound from the booted `TestApp`:\n\n  #[r2e::test(app = MyApp)]\n  async fn t(app: TestApp) { ... }"@
}

/// The position of an ordered test, read as a `u32`.
pub open spec fn order_value(a: EntryArgs) -> Result<Option<u32>, Seq<char>> {
    match a.order {
        None => Ok(None),
        Some(d) => match uint_of(d@, u32::MAX as int) {
            Ok(v) => Ok(Some(v as u32)),
            Err(e) => Err(e),
        },
    }
}

/// What the attribute generates for a function, or where and why it
/// refuses it, checking in this order: `async`; `order` and `group` only on
/// tests, `group` only with `order`, `order` a `u32`; `app` only on tests;
/// without `app`, no `env`, `with` or `jwt`; with `app`, a boot; otherwise
/// no parameters.
pub open spec fn entry_outcome(a: EntryArgs, is_async: bool, has_params: bool, is_test: bool) -> Result<
    EntryPlan,
    (EntrySite, Seq<char>),
> {
    if !is_async {
        Err((EntrySite::FnToken, not_async_msg(is_test)))
    } else if !is_test && a.order is Some {
        Err((EntrySite::Order, order_not_test_msg()))
    } else if !is_test && a.group is Some {
        Err((EntrySite::Group, group_not_test_msg()))
    } else if a.group is Some && a.order is None {
        Err((EntrySite::Group, group_without_order_msg()))
    } else {
        match order_value(a) {
            Err(e) => Err((EntrySite::Order, e)),
            Ok(order) => if a.app && !is_test {
                Err((EntrySite::Sig, app_not_test_msg()))
            } else if !a.app && a.env {
                Err((EntrySite::Env, env_without_app_msg()))
            } else if !a.app && a.with {
                Err((EntrySite::With, with_without_app_msg()))
            } else if !a.app && a.jwt_key {
                Err((EntrySite::JwtKey, jwt_without_app_msg()))
            } else if a.app {
                Ok(EntryPlan { kind: EntryKind::Boot, order, tracing: a.tracing, is_test })
            } else if has_params {
                Err((EntrySite::Sig, if is_test { test_params_msg() } else { main_params_msg() }))
            } else {
                Ok(EntryPlan { kind: EntryKind::Standard, order, tracing: a.tracing, is_test })
            },
        }
    }
}

fn msg(s: &str) -> (r: String)
    ensures
        r@ == s@,
{
    string_of(&chars_of(s))
}

/// What `#[r2e::main]` (`is_test` false) or `#[r2e::test]` generates for a
/// function that is `is_async` and has parameters where `has_params`.
pub fn plan_entry(a: &EntryArgs, is_async: bool, has_params: bool, is_test: bool) -> (r: Result<
    EntryPlan,
    (EntrySite, String),
>)
    ensures
        match entry_outcome(*a, is_async, has_params, is_test) {
            Ok(p) => r == Ok::<EntryPlan, (EntrySite, String)>(p),
            Err((s, m)) => r matches Err((s2, m2)) && s2 == s && m2@ == m,
        },
{
    if !is_async {
        return Err(
            (
                EntrySite::FnToken,
                if is_test {
                    msg("#[r2e::test] requires an async function")
                } else {
                    msg("#[r2e::main] requires an async function")
                },
            ),
        );
    }
    if !is_test && a.order.is_some() {
        return Err((EntrySite::Order, msg("`order` is only supported on `#[r2e::test]`")));
    }
    if !is_test && a.group.is_some() {
        return Err((EntrySite::Group, msg("`group` is only supported on `#[r2e::test]`")));
    }
    if a.group.is_some() && a.order.is_none() {
        return Err(
            (
                EntrySite::Group,
                msg(
                    "`group` requires `order` — `group` only names the barrier for tests that also declare an `order`",
                ),
            ),
        );
    }
    let order: Option<u32> = match &a.order {
        None => None,
        Some(d) => match read_uint(d, 4294967295u64) {
            Ok(v) => Some(v as u32),
            Err(e) => return Err((EntrySite::Order, e)),
        },
    };
    if a.app && !is_test {
        return Err((EntrySite::Sig, msg("`app = ...` is only valid on #[r2e::test]")));
    }
    if !a.app {
        if a.env {
            return Err(
                (
                    EntrySite::Env,
                    msg(
                        "`env = ...` requires `app = <App type>` — the environment is handed to `App::build`, so there is nothing to boot it into:\n\n  #[r2e::test(app = MyApp, env = ENV.get().await)]",
                    ),
                ),
            );
        }
        if a.with {
            return Err(
                (
                    EntrySite::With,
                    msg(
                        "`with = ...` requires `app = <App type>` — the hook pre-configures the `AppBuilder` of the app being booted",
                    ),
                ),
            );
        }
        if a.jwt_key {
            return Err(
                (
                    EntrySite::JwtKey,
                    msg(
                        "`jwt = ...` requires `app = <App type>` — it turns the harness's `TestJwt` wiring off on the booted app",
                    ),
                ),
            );
        }
    }
    if a.app {
        return Ok(EntryPlan { kind: EntryKind::Boot, order, tracing: a.tracing, is_test });
    }
    if has_params {
        return Err(
            (
                EntrySite::Sig,
                if is_test {
                    msg(
                        "#[r2e::test] does not accept parameters unless it boots an app — parameters are bound from the booted `TestApp`:\n\n  #[r2e::test(app = MyApp)]\n  async fn t(app: TestApp) { ... }",
                    )
                } else {
                    msg(
                        "#[r2e::main] does not accept parameters — declare your app via `impl r2e::App` and call `r2e::launch::<MyApp>()` in a parameterless main:\n\n    #[r2e::main]\n    async fn main() { r2e::launch::<MyApp>().await.unwrap() }",
                    )
                },
            ),
        );
    }
    Ok(EntryPlan { kind: EntryKind::Standard, order, tracing: a.tracing, is_test })
}

// ── laws ────────────────────────────────────────────────────────────────

/// Ordering is a test-only feature, and the main entry point never boots
/// an app or takes parameters: whatever `#[r2e::main]` accepts runs its
/// body unordered, without parameters.
pub proof fn lemma_main_is_plain(a: EntryArgs, is_async: bool, has_params: bool, p: EntryPlan)
    requires
        entry_outcome(a, is_async, has_params, false) == Ok::<EntryPlan, (EntrySite, Seq<char>)>(p),
    ensures
        p.kind == EntryKind::Standard,
        p.order is None,
        !has_params,
        a.order is None && a.group is None && !a.app,
{
}

} // verus!
