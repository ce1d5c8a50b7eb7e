//! An interpreter for a small concatenative, stack-based language.
//!
//! Program text is consumed one character at a time through a [`Buffer`];
//! every operator acts on the operand stack of a [`State`]; the only control
//! flow is to evaluate a string taken from the stack as code.

pub mod buffer;
pub mod eval;
pub mod failure;
pub mod integer;
pub mod laws;
pub mod lexer;
pub mod operators;
pub mod semantics;
pub mod state;
pub mod text;
pub mod value;

pub use buffer::Buffer;
pub use eval::{eval, evaluate};
pub use failure::Failure;
pub use integer::Integer;
pub use state::State;
pub use value::{Datum, Value};
