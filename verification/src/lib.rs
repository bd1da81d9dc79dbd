//! A parser that turns a finished token sequence into a tree of statements
//! and expressions.

pub mod ast;
pub mod depth;
pub mod error;
pub mod grammar;
pub mod laws;
pub mod parser;
pub mod spans;
pub mod steps;
pub mod text;
pub mod token;
pub mod traveler;

pub use crate::ast::{operand, Expression, Function, Operand, Statement, Value};
pub use crate::error::{ErrorKind, ParseError};
pub use crate::parser::Parser;
pub use crate::token::{Category, Token, TokenType};
pub use crate::traveler::Traveler;
