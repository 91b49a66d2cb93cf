pub mod engine;
pub mod grammar;
pub mod laws;
pub mod model;
pub mod parser;
pub mod semantics;
