//! A verified parser for a markdown-flavoured screenplay format.
//!
//! The pipeline turns raw text into a token stream (`lexer`), assembles the
//! tokens into a structured document (`parser`, producing the types in `ast`),
//! and checks the finished document for semantic problems (`validator`).

pub mod ast;
pub mod lexer;
pub mod parser;
pub mod text;
pub mod validator;
