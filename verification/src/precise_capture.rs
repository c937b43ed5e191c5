//! The `+ use<...>` clause added to the return-position `impl Trait` of a
//! handler: whether the signature gets it, what it lists, and which
//! `impl Trait` nodes receive it.

use vstd::prelude::*;

verus! {

/// A generic parameter of a handler, by kind and name.
pub enum GenericParam {
    Lifetime(String),
    Type(String),
    Const(String),
}

/// The names a `use<...>` clause lists: the method's type and const
/// parameters, in order; lifetimes are left out.
pub open spec fn capture_names(ps: Seq<GenericParam>) -> Seq<Seq<char>>
    decreases ps.len(),
{
    if ps.len() == 0 {
        Seq::empty()
    } else {
        capture_names(ps.drop_last()) + match ps.last() {
            GenericParam::Lifetime(_) => Seq::empty(),
            GenericParam::Type(n) => seq![n@],
            GenericParam::Const(n) => seq![n@],
        }
    }
}

/// The clause to add to a handler's return type: none where it has no
/// return type or an argument is an `impl Trait` (that type parameter has
/// no name to list); else the names the clause lists.
pub fn capture_clause<'a>(has_return_type: bool, arg_impl_trait: bool, generics: &'a Vec<GenericParam>) -> (r: Option<
    Vec<&'a String>,
>)
    ensures
        !has_return_type || arg_impl_trait ==> r is None,
        has_return_type && !arg_impl_trait ==> (r matches Some(v) && v@.map_values(|s: &'a String| s@)
            == capture_names(generics@)),
{
    if !has_return_type || arg_impl_trait {
        return None;
    }
    let mut out: Vec<&'a String> = Vec::new();
    let mut i: usize = 0;
    proof {
        assert(generics@.take(0) =~= Seq::<GenericParam>::empty());
        assert(out@.map_values(|s: &'a String| s@) =~= Seq::<Seq<char>>::empty());
    }
    while i < generics.len()
        invariant
            0 <= i <= generics@.len(),
            out@.map_values(|s: &'a String| s@) == capture_names(generics@.take(i as int)),
        decreases generics@.len() - i,
    {
        proof {
            assert(generics@.take(i + 1).drop_last() =~= generics@.take(i as int));
            assert(generics@.take(i + 1).last() == generics@[i as int]);
        }
        match &generics[i] {
            GenericParam::Lifetime(_) => {
                proof {
                    assert(capture_names(generics@.take(i + 1)) =~= capture_names(generics@.take(i as int)));
                }
            },
            GenericParam::Type(n) | GenericParam::Const(n) => {
                let ghost before = out@;
                out.push(n);
                proof {
                    assert(out@.map_values(|s: &'a String| s@) =~= before.map_values(|s: &'a String| s@).push(n@));
                    assert(capture_names(generics@.take(i + 1)) =~= capture_names(generics@.take(i as int))
                        + seq![n@]);
                }
            },
        }
        i = i + 1;
    }
    proof {
        assert(generics@.take(i as int) =~= generics@);
    }
    Some(out)
}

/// Whether an `impl Trait` node of the return type receives the clause:
/// not where it already has a precise-capture bound, nor where its bounds
/// mention a lifetime or a reference (omitting that lifetime would be an
/// error).
pub fn node_takes_clause(has_precise_capture: bool, bounds_mention_lifetime: bool) -> (r: bool)
    ensures
        r == (!has_precise_capture && !bounds_mention_lifetime),
{
    !has_precise_capture && !bounds_mention_lifetime
}

/// Whether a token sequence of bounds (by the character of each punctuation
/// token) names a lifetime or a reference: a `'` or a `&`.
pub fn mentions_lifetime(puncts: &Vec<char>) -> (r: bool)
    ensures
        r == exists|k: int| 0 <= k < puncts@.len() && (#[trigger] puncts@[k] == '\'' || puncts@[k] == '&'),
{
    let mut i: usize = 0;
    while i < puncts.len()
        invariant
            0 <= i <= puncts@.len(),
            forall|k: int| 0 <= k < i ==> !(#[trigger] puncts@[k] == '\'' || puncts@[k] == '&'),
        decreases puncts@.len() - i,
    {
        if puncts[i] == '\'' || puncts[i] == '&' {
            return true;
        }
        i = i + 1;
    }
    false
}

} // verus!
