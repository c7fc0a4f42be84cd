pub mod ast;
pub mod parse;
pub mod lower;
pub mod named;
pub mod emit;
pub mod facts;
