//! Parsing and evaluation core of a small live-coding scene language.
//!
//! A program is parsed into commands (`statement::parser`), and a pass of the
//! evaluator (`eval::Evaluator`) flattens them into leaf commands for a
//! renderer, leaving arithmetic to its host.
pub mod ast;
pub mod lexer;
pub mod expr;
pub mod condition;
pub mod statement;
pub mod eval;
pub mod laws;
pub mod syntax_laws;

pub use ast::{Builtin, Command, ConditionalBuiltin, Decimal, Factor, Node, Operation};
pub use condition::boolean_expr;
pub use eval::{decide, Evaluator, Step};
pub use expr::{expr, factor, mult, number, sum, variable, SyntaxError};
pub use statement::{
    assignment, circle, command_for, command_if, draw_shape, parser, square, statement,
    variable_name,
};
