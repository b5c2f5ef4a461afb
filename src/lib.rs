//! Route patterns such as `/user/:id` turned into token lists, regular
//! expressions with a directory of their parameters, and back into paths.
pub mod ast;
pub mod compiler;
pub mod engine;
pub mod error;
pub mod laws;
pub mod lexer;
pub mod matcher;
pub mod parser;
pub mod re;
pub mod text;

pub use ast::{Key, Token};
pub use compiler::{Compiler, CompilerBuilder, CompilerOptions};
pub use error::{LexTokenKind, PathError};
pub use matcher::{MatchResult, Matcher, MatcherBuilder, MatcherOptions, ParamValue};
pub use parser::{Parser, ParserBuilder, ParserOptions, DEFAULT_DELIMITER};
pub use re::{PathRegex, PathRegexBuilder, PathRegexOptions};
