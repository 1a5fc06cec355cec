pub mod ast;
pub mod chars;
pub mod convert;
pub mod delimiter;
pub mod grammar;
pub mod laws;
pub mod lexer;
pub mod location;
pub mod number;
pub mod pattern;
pub mod radix;
mod sharing;
pub mod sign;
pub mod spacing;
pub mod stream;
pub mod token;
pub mod token_stream;
