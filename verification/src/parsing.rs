pub mod grammar;
pub mod lexer;
pub mod parser;

pub use lexer::Lexer;
pub use parser::{checked_parse, parse, ParseError, TokenStream};
