//! Converts `recv.for_each(|p| { if c { body } })` into
//! `recv.filter(|&p| c).for_each(|p| { body })` over a lossless syntax tree.
pub mod tree;
pub mod lexer;
pub mod parser;
pub mod matcher;
pub mod rewrite;
pub mod assist;
pub mod laws;

pub use assist::{AssistContext, convert_if_to_filter};
pub use rewrite::Edit;
pub use tree::Tree;
