//! Parser for a compact textual encoding of filter predicates.
//!
//! A caller in another runtime serializes a predicate such as
//! `or(lt(a.b.c, 2.0), gt(a.b.c, 3.0))` as a single string; this crate
//! reconstructs it as a typed expression tree that a query engine can
//! use to prune data. Unknown operator keywords become the permissive
//! [`expr::ExpressionNode::Unsupported`] marker; text that does not
//! follow the grammar is reported as a recoverable
//! [`expr::FilterError::MalformedFilter`] error.

pub mod expr;
pub mod splitter;
pub mod parser;

pub use expr::{ExprModel, ExpressionNode, FilterError, Operator};
pub use parser::Parser;
