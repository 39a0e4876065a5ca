//! A lexer for arithmetic expressions: operators, parentheses and
//! floating-point literals, with insignificant whitespace skipped.
pub mod token;
pub mod scan;
pub mod recognize;
pub mod tokenizer;
pub mod laws;
