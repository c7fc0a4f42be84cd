use vstd::prelude::*;

verus! {

/// A proposition: a type whose values are proofs of it.
pub trait Prop {}

/// A proposition with no inner structure.
pub trait AtomicProp: Prop {}

/// A proposition that holds when all of its members hold (a struct of its members).
pub trait Conjunction: Prop {}

/// A proposition that holds when one of its members holds (an enum of its members).
pub trait Disjunction: Prop {}

/// Alternate syntax for accessing the components of a conjunction.
pub trait HasProp<F>: Conjunction {
    fn prop(&self) -> F;
}

/// The uninhabited proposition: reaching a value of it proves a contradiction.
///
/// Its invariant can never hold, so verified code cannot build one; the field is private,
/// so no other crate can build one either.
pub struct Absurd {
    never: (),
}

impl Absurd {
    #[verifier::type_invariant]
    spec fn uninhabited(self) -> bool {
        false
    }
}

/// From a contradiction, any proposition follows.
/// `Absurd` has no values, so this function can never be entered: there is nothing to
/// promise of its result.
pub fn ex_falso<P: Prop>(absurd: Absurd) -> P
    decreases 0nat,
{
    proof {
        use_type_invariant(&absurd);
    }
    ex_falso(absurd)
}

/// The type of the natural-number parameters of generic propositions.
pub type Nat = u32;

} // verus!
