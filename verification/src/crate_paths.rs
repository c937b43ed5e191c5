//! The paths generated code names the framework's crates by: which
//! dependency names are tried, in which order, and how a found dependency
//! is written.

use vstd::prelude::*;

use crate::text::{chars_of, push_str, string_of};

verus! {

/// Where a dependency was found: the crate being compiled is it, or it is
/// a dependency under this (normalized) name.
pub enum Found {
    Itself,
    Name(String),
}

/// A framework crate that generated code refers to.
#[derive(PartialEq, Eq, Structural, Clone, Copy, Debug)]
pub enum R2eCrate {
    Core,
    Security,
    Events,
    Scheduler,
    Devtools,
    Grpc,
    Schemars,
}

/// How a found dependency is written, followed by `suffix` within it.
pub open spec fn rendered(f: Found, suffix: Seq<char>) -> Seq<char> {
    match f {
        Found::Itself => if suffix.len() == 0 {
            "crate"@
        } else {
            "crate::"@ + suffix
        },
        Found::Name(n) => if suffix.len() == 0 {
            "::"@ + n@
        } else {
            "::"@ + n@ + "::"@ + suffix
        },
    }
}

/// How a found dependency is written, followed by `suffix` within it.
pub fn render_found(f: &Found, suffix: &str) -> (r: String)
    ensures
        r@ == rendered(*f, suffix@),
{
    let empty = chars_of(suffix).len() == 0;
    match f {
        Found::Itself => {
            if empty {
                string_of(&chars_of("crate"))
            } else {
                let mut v = chars_of("crate::");
                push_str(&mut v, suffix);
                string_of(&v)
            }
        },
        Found::Name(n) => {
            let mut v = chars_of("::");
            push_str(&mut v, n.as_str());
            if !empty {
                push_str(&mut v, "::");
                push_str(&mut v, suffix);
            }
            string_of(&v)
        },
    }
}

/// The dependency names tried for a crate, in order, each with the module
/// path of the crate within that dependency.
pub open spec fn candidates_of(c: R2eCrate) -> Seq<(Seq<char>, Seq<char>)> {
    match c {
        R2eCrate::Core => seq![("r2e"@, ""@), ("r2e-core"@, ""@)],
        R2eCrate::Security => seq![("r2e"@, "r2e_security"@), ("r2e-security"@, ""@)],
        R2eCrate::Events => seq![("r2e"@, "r2e_events"@), ("r2e-events"@, ""@)],
        R2eCrate::Scheduler => seq![("r2e"@, "r2e_scheduler"@), ("r2e-scheduler"@, ""@)],
        R2eCrate::Devtools => seq![("r2e"@, "devtools"@), ("r2e-devtools"@, ""@)],
        R2eCrate::Grpc => seq![("r2e"@, "r2e_grpc"@), ("r2e-grpc"@, ""@)],
        R2eCrate::Schemars => seq![("schemars"@, ""@), ("r2e-openapi"@, "schemars"@)],
    }
}

/// The path used when no candidate is a dependency; `schemars` has none.
pub open spec fn fallback_of(c: R2eCrate) -> Option<Seq<char>> {
    match c {
        R2eCrate::Core => Some("::r2e_core"@),
        R2eCrate::Security => Some("::r2e_security"@),
        R2eCrate::Events => Some("::r2e_events"@),
        R2eCrate::Scheduler => Some("::r2e_scheduler"@),
        R2eCrate::Devtools => Some("::r2e_devtools"@),
        R2eCrate::Grpc => Some("::r2e_grpc"@),
        R2eCrate::Schemars => None,
    }
}

pub open spec fn pair_views(v: Seq<(&'static str, &'static str)>) -> Seq<(Seq<char>, Seq<char>)> {
    v.map_values(|p: (&'static str, &'static str)| (p.0@, p.1@))
}

impl R2eCrate {
    /// The dependency names tried, in order, with the module path within each.
    pub fn candidates(self) -> (r: Vec<(&'static str, &'static str)>)
        ensures
            pair_views(r@) == candidates_of(self),
    {
        let r = match self {
            R2eCrate::Core => vec![("r2e", ""), ("r2e-core", "")],
            R2eCrate::Security => vec![("r2e", "r2e_security"), ("r2e-security", "")],
            R2eCrate::Events => vec![("r2e", "r2e_events"), ("r2e-events", "")],
            R2eCrate::Scheduler => vec![("r2e", "r2e_scheduler"), ("r2e-scheduler", "")],
            R2eCrate::Devtools => vec![("r2e", "devtools"), ("r2e-devtools", "")],
            R2eCrate::Grpc => vec![("r2e", "r2e_grpc"), ("r2e-grpc", "")],
            R2eCrate::Schemars => vec![("schemars", ""), ("r2e-openapi", "schemars")],
        };
        proof {
            assert(pair_views(r@) =~= candidates_of(self));
        }
        r
    }

    /// The path used when no candidate is a dependency.
    pub fn fallback(self) -> (r: Option<&'static str>)
        ensures
            match r {
                Some(s) => fallback_of(self) == Some(s@),
                None => fallback_of(self) is None,
            },
    {
        match self {
            R2eCrate::Core => Some("::r2e_core"),
            R2eCrate::Security => Some("::r2e_security"),
            R2eCrate::Events => Some("::r2e_events"),
            R2eCrate::Scheduler => Some("::r2e_scheduler"),
            R2eCrate::Devtools => Some("::r2e_devtools"),
            R2eCrate::Grpc => Some("::r2e_grpc"),
            R2eCrate::Schemars => None,
        }
    }
}

/// The path of the first candidate that is a dependency (`found[k]` is
/// the lookup of candidate `k`), rendered with its module path; `None`
/// where none is.
pub open spec fn first_found(found: Seq<Option<Found>>, cands: Seq<(Seq<char>, Seq<char>)>) -> Option<Seq<char>>
    decreases found.len(),
{
    if found.len() == 0 || cands.len() == 0 {
        None
    } else {
        match found[0] {
            Some(f) => Some(rendered(f, cands[0].1)),
            None => first_found(found.drop_first(), cands.drop_first()),
        }
    }
}

/// The path of crate `c`, given the lookup of each of its candidates: the
/// first found candidate, else the fallback.
pub fn resolve_path(c: R2eCrate, found: &Vec<Option<Found>>) -> (r: Option<String>)
    ensures
        match first_found(found@, candidates_of(c)) {
            Some(p) => r matches Some(s) && s@ == p,
            None => match fallback_of(c) {
                Some(p) => r matches Some(s) && s@ == p,
                None => r is None,
            },
        },
{
    let cands = c.candidates();
    let ghost cv = pair_views(cands@);
    let mut i: usize = 0;
    proof {
        assert(found@.skip(0) =~= found@);
        assert(cv.skip(0) =~= cv);
    }
    while i < found.len() && i < cands.len()
        invariant
            0 <= i <= found@.len(),
            i <= cands@.len(),
            cv == pair_views(cands@),
            cv == candidates_of(c),
            first_found(found@, cv) == first_found(found@.skip(i as int), cv.skip(i as int)),
        decreases found@.len() - i,
    {
        proof {
            assert(found@.skip(i as int).drop_first() =~= found@.skip(i + 1));
            assert(cv.skip(i as int).drop_first() =~= cv.skip(i + 1));
            assert(found@.skip(i as int)[0] == found@[i as int]);
            assert(cv.skip(i as int)[0] == cv[i as int]);
        }
        if let Some(f) = &found[i] {
            return Some(render_found(f, cands[i].1));
        }
        i = i + 1;
    }
    proof {
        assert(found@.skip(i as int).len() == 0 || cv.skip(i as int).len() == 0);
    }
    match c.fallback() {
        Some(s) => Some(string_of(&chars_of(s))),
        None => None,
    }
}

} // verus!
