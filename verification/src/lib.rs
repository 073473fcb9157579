//! A small SQL-style boolean expression engine: a lexer and recursive-descent
//! parser that turn a source string into a typed syntax tree, and a
//! tree-walking evaluator that applies caller-supplied variable bindings.

pub mod ast;
pub mod errors;
pub mod eval;
pub mod float;
pub mod lexer;
pub mod like;
pub mod parser;
pub mod strutil;
pub mod token;
pub mod value;

pub use ast::{BooleanExpr, ComparisonOp, EqualityOp, RelationalExpr, ValueExpr, ValueLiteral};
pub use errors::{EvalError, ParseError};
pub use eval::evaluate;
pub use parser::parse;
pub use value::{Bindings, RuntimeValue};
