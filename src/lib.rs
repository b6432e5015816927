//! Lowers `macro_rules!` rule sets whose rules bind the results of other
//! macro invocations (`let $x:tt = other!(..) in`) into plain rule sets that
//! thread those results through an explicit call stack and data stack.
pub mod compile;
pub mod diagnostics;
pub mod error;
pub mod item;
pub mod laws;
pub mod leaf;
pub mod names;
pub mod pattern;
pub mod protocol;
pub mod rule;
pub mod ruleset;
pub mod text;
pub mod tokens;
