pub mod members;
pub mod emit;
pub mod api;
