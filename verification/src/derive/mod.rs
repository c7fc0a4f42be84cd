pub mod ast;
pub mod generics;
pub mod keywords;
pub mod lower;
pub mod natural;
pub mod parse;
pub mod emit;
pub mod api;
pub mod shape;
