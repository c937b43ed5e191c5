//! Function signatures as the macro logic reads them.

use vstd::prelude::*;

use crate::types::Ty;

verus! {

/// One input of a function signature.
pub enum FnInput {
    /// A `self` receiver: `reference` for `&self` / `&mut self`, `mutable`
    /// when `mut` is written (`&mut self`, `mut self`).
    Receiver { reference: bool, mutable: bool },
    /// A typed parameter `pat: ty`, with its attributes' names.
    Typed { pat: Pat, ty: Ty, attrs: Vec<Option<String>> },
}

/// A parameter pattern.
pub enum Pat {
    /// An identifier binding (`x`, `mut x`, `ref x`).
    Ident(String),
    /// A tuple pattern `(a, b)`.
    Tuple(Vec<Pat>),
    /// A tuple-struct pattern `Path(a, b)`.
    TupleStruct(Vec<Pat>),
    /// Any other pattern.
    Other,
}

/// A function signature: name, `async`, and inputs in order.
pub struct Sig {
    pub ident: String,
    pub is_async: bool,
    pub inputs: Vec<FnInput>,
}

/// Index of the first receiver among `inputs`.
pub open spec fn first_receiver(inputs: Seq<FnInput>) -> Option<int>
    decreases inputs.len(),
{
    if inputs.len() == 0 {
        None
    } else if inputs[0] is Receiver {
        Some(0)
    } else {
        match first_receiver(inputs.drop_first()) {
            Some(i) => Some(i + 1),
            None => None,
        }
    }
}

/// Whether `inputs` has a receiver.
pub open spec fn has_receiver(inputs: Seq<FnInput>) -> bool {
    exists|i: int| 0 <= i < inputs.len() && #[trigger] inputs[i] is Receiver
}

pub proof fn lemma_first_receiver(inputs: Seq<FnInput>)
    ensures
        first_receiver(inputs) matches Some(i) ==> 0 <= i < inputs.len() && inputs[i] is Receiver
            && forall|k: int| 0 <= k < i ==> !(#[trigger] inputs[k] is Receiver),
        first_receiver(inputs) is None ==> forall|k: int|
            0 <= k < inputs.len() ==> !(#[trigger] inputs[k] is Receiver),
        first_receiver(inputs) is None <==> !has_receiver(inputs),
    decreases inputs.len(),
{
    if inputs.len() > 0 {
        lemma_first_receiver(inputs.drop_first());
        assert forall|k: int| 1 <= k < inputs.len() implies inputs[k] == inputs.drop_first()[k
            - 1] by {}
        if has_receiver(inputs) && !(inputs[0] is Receiver) {
            let k = choose|k: int| 0 <= k < inputs.len() && #[trigger] inputs[k] is Receiver;
            assert(inputs.drop_first()[k - 1] == inputs[k]);
        }
    }
}

/// Index of the first receiver of `sig`.
pub fn find_receiver(inputs: &Vec<FnInput>) -> (r: Option<usize>)
    ensures
        match r {
            Some(j) => first_receiver(inputs@) == Some(j as int),
            None => first_receiver(inputs@) is None,
        },
{
    proof {
        lemma_first_receiver(inputs@);
    }
    let mut i: usize = 0;
    while i < inputs.len()
        invariant
            0 <= i <= inputs@.len(),
            forall|k: int| 0 <= k < i ==> !(#[trigger] inputs@[k] is Receiver),
            first_receiver(inputs@) matches Some(j) ==> 0 <= j < inputs@.len() && inputs@[j] is Receiver
                && forall|k: int| 0 <= k < j ==> !(#[trigger] inputs@[k] is Receiver),
            first_receiver(inputs@) is None ==> forall|k: int|
                0 <= k < inputs@.len() ==> !(#[trigger] inputs@[k] is Receiver),
        decreases inputs@.len() - i,
    {
        if let FnInput::Receiver { .. } = &inputs[i] {
            return Some(i);
        }
        i = i + 1;
    }
    None
}

/// Whether `inputs` has a receiver.
pub fn any_receiver(inputs: &Vec<FnInput>) -> (r: bool)
    ensures
        r == has_receiver(inputs@),
{
    proof {
        lemma_first_receiver(inputs@);
    }
    find_receiver(inputs).is_some()
}

} // verus!
