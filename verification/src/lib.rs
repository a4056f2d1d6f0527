pub mod ast;
pub mod ast_printer;
pub mod decimal;
pub mod evaluation;
pub mod parsing;
pub mod strings;
pub mod token;

pub use evaluation::{checked_evaluate, evaluate, EvalResult, Object};
pub use parsing::{checked_parse, parse, Lexer, ParseError, TokenStream};
