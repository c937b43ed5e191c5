//! Managed-resource parameters: those marked `#[managed]`, which the
//! generated handler acquires before the call and releases after it.

use vstd::prelude::*;

use crate::sig::{FnInput, Sig};
use crate::text::{chars_of, string_of};
use crate::types::{extract_mut_ref_inner, Ty, TyKind};

verus! {

/// Whether a parameter's attribute names include `managed`.
pub open spec fn marked_managed(names: Seq<Option<String>>) -> bool {
    exists|k: int| 0 <= k < names.len() && (#[trigger] names[k] matches Some(n) && n@ == "managed"@)
}

/// The inner type of `&mut T`.
pub open spec fn mut_ref_inner(t: Ty) -> Option<Ty> {
    match t.kind {
        TyKind::Ref { mutable, elem } => if mutable {
            Some(*elem)
        } else {
            None
        },
        _ => None,
    }
}

pub open spec fn not_mut_ref_msg() -> Seq<char> {
    "#[managed] parameter must be a mutable reference (`&mut T`):\n\n  #[managed] tx: &mut Tx<'_, Sqlite>\n\nThe resource is acquired before the handler and released after it."@
}

/// The managed parameters among `inputs`, as (position among the typed
/// parameters, resource type), or the position of the first one that is
/// not `&mut T`. `k` counts the typed parameters before `inputs`.
pub open spec fn managed_from(inputs: Seq<FnInput>, k: int) -> Result<Seq<(int, Ty)>, int>
    decreases inputs.len(),
{
    if inputs.len() == 0 {
        Ok(Seq::empty())
    } else {
        match inputs[0] {
            FnInput::Typed { ty, attrs, .. } => {
                let rest = managed_from(inputs.drop_first(), k + 1);
                if marked_managed(attrs@) {
                    match mut_ref_inner(ty) {
                        None => Err(k),
                        Some(inner) => match rest {
                            Ok(ps) => Ok(seq![(k, inner)] + ps),
                            Err(e) => Err(e),
                        },
                    }
                } else {
                    rest
                }
            },
            _ => managed_from(inputs.drop_first(), k),
        }
    }
}

fn is_managed(names: &Vec<Option<String>>) -> (r: bool)
    ensures
        r == marked_managed(names@),
{
    proof {
        reveal_strlit("managed");
    }
    let mut i: usize = 0;
    while i < names.len()
        invariant
            0 <= i <= names@.len(),
            forall|k: int| 0 <= k < i ==> !(#[trigger] names@[k] matches Some(n) && n@ == "managed"@),
        decreases names@.len() - i,
    {
        match &names[i] {
            Some(n) => {
                if crate::text::str_is(n.as_str(), "managed") {
                    return true;
                }
            },
            None => {},
        }
        i = i + 1;
    }
    false
}

/// The view of a list of managed parameters.
pub open spec fn managed_view(v: Seq<(usize, &Ty)>) -> Seq<(int, Ty)> {
    v.map_values(|p: (usize, &Ty)| (p.0 as int, *p.1))
}

/// The `#[managed]` parameters of a method: position among its typed
/// parameters and the resource type inside `&mut`. A managed parameter that
/// is not a mutable reference is refused.
pub fn extract_managed_params(sig: &Sig) -> (r: Result<Vec<(usize, &Ty)>, String>)
    ensures
        match r {
            Ok(v) => managed_from(sig.inputs@, 0) == Ok::<Seq<(int, Ty)>, int>(managed_view(v@)),
            Err(e) => managed_from(sig.inputs@, 0) is Err && e@ == not_mut_ref_msg(),
        },
{
    proof {
        reveal_strlit(
            "#[managed] parameter must be a mutable reference (`&mut T`):\n\n  #[managed] tx: &mut Tx<'_, Sqlite>\n\nThe resource is acquired before the handler and released after it.",
        );
    }
    let inputs = &sig.inputs;
    let mut out: Vec<(usize, &Ty)> = Vec::new();
    let mut k: usize = 0;
    let mut i: usize = 0;
    assert(inputs@.skip(0) =~= inputs@);
    while i < inputs.len()
        invariant
            0 <= i <= inputs@.len(),
            k <= i,
            inputs@ == sig.inputs@,
            managed_from(inputs@, 0) == match managed_from(inputs@.skip(i as int), k as int) {
                Ok(ps) => Ok(managed_view(out@) + ps),
                Err(e) => Err::<Seq<(int, Ty)>, int>(e),
            },
        decreases inputs@.len() - i,
    {
        let ghost rest = inputs@.skip(i as int);
        assert(rest[0] == inputs@[i as int]);
        assert(rest.drop_first() =~= inputs@.skip(i + 1));
        match &inputs[i] {
            FnInput::Typed { ty, attrs, .. } => {
                if is_managed(attrs) {
                    match extract_mut_ref_inner(ty) {
                        None => {
                            return Err(string_of(&chars_of(
                                "#[managed] parameter must be a mutable reference (`&mut T`):\n\n  #[managed] tx: &mut Tx<'_, Sqlite>\n\nThe resource is acquired before the handler and released after it.",
                            )));
                        },
                        Some(inner) => {
                            let ghost before = out@;
                            out.push((k, inner));
                            assert(managed_view(out@) =~= managed_view(before).push((k as int, *inner)));
                            proof {
                                match managed_from(inputs@.skip(i + 1), k + 1) {
                                    Ok(ps) => {
                                        assert(managed_view(before) + (seq![(k as int, *inner)] + ps)
                                            =~= managed_view(out@) + ps);
                                    },
                                    Err(_) => {},
                                }
                            }
                        },
                    }
                }
                k = k + 1;
            },
            _ => {},
        }
        i = i + 1;
    }
    assert(inputs@.skip(i as int) =~= Seq::<FnInput>::empty());
    assert(managed_view(out@) + Seq::<(int, Ty)>::empty() =~= managed_view(out@));
    Ok(out)
}


/// Whether an attribute name is `managed`.
pub open spec fn is_managed_name(n: Option<String>) -> bool {
    n matches Some(s) && s@ == "managed"@
}

/// A parameter's attribute names without `managed`.
pub open spec fn unmanaged(names: Seq<Option<String>>) -> Seq<Option<String>> {
    names.filter(|n: Option<String>| !is_managed_name(n))
}

fn drop_managed_names(names: Vec<Option<String>>) -> (r: Vec<Option<String>>)
    ensures
        r@ == unmanaged(names@),
{
    proof {
        reveal_strlit("managed");
    }
    let ghost p = |n: Option<String>| !is_managed_name(n);
    let ghost orig = names@;
    let mut rest = names;
    let mut out: Vec<Option<String>> = Vec::new();
    while rest.len() > 0
        invariant
            p == (|n: Option<String>| !is_managed_name(n)),
            out@ + rest@.filter(p) == orig.filter(p),
        decreases rest@.len(),
    {
        let ghost before = rest@;
        let n = rest.remove(0);
        proof {
            assert(before =~= seq![n] + rest@);
            rest@.lemma_filter_prepend(n, p);
        }
        let managed = match &n {
            Some(s) => crate::text::str_is(s.as_str(), "managed"),
            None => false,
        };
        if !managed {
            out.push(n);
        }
        assert(out@ + rest@.filter(p) =~= orig.filter(p));
    }
    assert(rest@.filter(p) =~= Seq::<Option<String>>::empty()) by {
        reveal(Seq::filter);
    }
    assert(out@ =~= orig.filter(p));
    out
}

/// The parameters with every `#[managed]` attribute removed: receivers and
/// the patterns, types and other attributes of typed parameters stay as
/// they are, in order.
pub fn strip_managed_attrs(inputs: Vec<FnInput>) -> (r: Vec<FnInput>)
    ensures
        r@.len() == inputs@.len(),
        forall|k: int|
            0 <= k < r@.len() ==> match (#[trigger] inputs@[k], r@[k]) {
                (FnInput::Receiver { reference, mutable }, FnInput::Receiver { reference: r2, mutable: m2 }) => reference
                    == r2 && mutable == m2,
                (FnInput::Typed { pat, ty, attrs }, FnInput::Typed { pat: p2, ty: t2, attrs: a2 }) => pat == p2
                    && ty == t2 && a2@ == unmanaged(attrs@),
                _ => false,
            },
{
    let ghost orig = inputs@;
    let mut rest = inputs;
    let mut out: Vec<FnInput> = Vec::new();
    while rest.len() > 0
        invariant
            out@.len() + rest@.len() == orig.len(),
            forall|j: int| 0 <= j < rest@.len() ==> rest@[j] == orig[out@.len() + j],
            forall|k: int|
                0 <= k < out@.len() ==> match (#[trigger] orig[k], out@[k]) {
                    (
                        FnInput::Receiver { reference, mutable },
                        FnInput::Receiver { reference: r2, mutable: m2 },
                    ) => reference == r2 && mutable == m2,
                    (FnInput::Typed { pat, ty, attrs }, FnInput::Typed { pat: p2, ty: t2, attrs: a2 }) => pat
                        == p2 && ty == t2 && a2@ == unmanaged(attrs@),
                    _ => false,
                },
        decreases rest@.len(),
    {
        let ghost before = rest@;
        let ghost at = out@.len();
        let input = rest.remove(0);
        assert(input == orig[at as int]);
        assert forall|j: int| 0 <= j < rest@.len() implies rest@[j] == orig[at + 1 + j] by {
            assert(rest@[j] == before[j + 1]);
        }
        let cleaned = match input {
            FnInput::Receiver { reference, mutable } => FnInput::Receiver { reference, mutable },
            FnInput::Typed { pat, ty, attrs } => FnInput::Typed { pat, ty, attrs: drop_managed_names(attrs) },
        };
        out.push(cleaned);
    }
    out
}

} // verus!
