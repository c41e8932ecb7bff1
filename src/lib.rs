//! String analysis records: metrics of a string, a structured filter over
//! those metrics, a parser from free text to such a filter, and the compiler
//! from a filter to an ordered list of storage constraints.

pub mod analyser;
pub mod compiler;
pub mod filters;
pub mod models;
pub mod nlp;
pub mod routes;
pub mod text;
pub mod tokenizer;
