//! An interpreter for a small branching-dialogue scripting language.
//!
//! A script is a set of named nodes. Each node holds lines of dialogue,
//! choices, conditionals, assignments, jumps and commands for the host. The
//! host loads scripts into a [`YarnEngine`], activates a node and pulls
//! events from the engine one at a time.
//!
//! The engine does no arithmetic on numbers and formats none: where a step
//! needs a sum or the decimal text of a number, a pull hands out a
//! [`Request`], and goes on once the host has handed back the [`Answer`].

pub mod ast;
pub mod conversation;
pub mod engine;
pub mod eval;
pub mod expression;
pub mod host;
pub mod laws;
pub mod lexer;
pub mod minimal;
pub mod node;
pub mod number;
pub mod parse;
pub mod scan;
pub mod table;
pub mod text;
pub mod value;

pub use crate::ast::{NodeName, VariableName};
pub use crate::engine::{ChoiceError, Pull, YarnEngine, YarnEntry};
pub use crate::eval::{Answer, ArithOp, EvalError, Request};
pub use crate::host::HostFunction;
pub use crate::node::{Node, Nodes};
pub use crate::number::Number;
pub use crate::parse::ParseError;
pub use crate::value::Value;
