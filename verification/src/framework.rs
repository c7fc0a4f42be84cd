use vstd::prelude::*;

verus! {

/// A proposition: a type whose values are proofs of it.
pub trait Prop {}

/// A proposition with no inner structure.
pub trait AtomicProp: Prop {}

/// A proposition that holds when all of its members hold.
pub trait Conjunction: Prop {}

/// A proposition that holds when one of its members holds.
pub trait Disjunction: Prop {}

/// Bypass any proof requirements and provide a proposition directly.
pub trait Sorry: Sized {
    fn sorry() -> Self;
}

/// Introduce a proposition without proof, only allowed for atomic propositions.
/// If you need this for a non-atomic, introduce an intermediate atomic which implies the
/// proposition, i.e. `A && B` can be provided by `ProvideProp<C>` with `C -> A && B`.
pub trait ProvideProp<P: Prop> {}

/// Allows an artifact to contain a proposition.
pub trait HasProp<F: Prop>: Conjunction {
    /// The member that the artifact holds.
    spec fn held(&self) -> F;

    fn prop(&self) -> (r: F)
        ensures
            r == self.held(),
    ;
}

/// A stage of a pipeline: it needs one proposition and provides another.
pub trait Process {
    type Requires;
    type Provides;

    fn run(self, input: Self::Requires) -> Self::Provides;
}

} // verus!
