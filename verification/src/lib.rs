pub mod rprop;
pub mod framework;
pub mod props;
pub mod lowering;
pub mod text;
pub mod tokens;
pub mod lexer;
pub mod error;
pub mod search;
pub mod case;
pub mod derive;
pub mod rose;
pub mod macros;
pub mod site;

pub use crate::rprop::{Absurd, AtomicProp, Conjunction, Disjunction, HasProp, Nat, Prop, ex_falso};
pub use crate::framework::Sorry;
