//! A declarative command-line flag parser whose behaviour is stated in
//! contracts and proved.
//!
//! A [`Program`] is built by registering flags, required or optional, each
//! with a value type and a description. It is then parsed against a list of
//! arguments, and afterwards hands out the value of each flag in the type
//! that the caller asks for.

pub mod decimal;
pub mod error;
pub mod flag;
pub mod help;
pub mod kind;
pub mod laws;
pub mod parser;
pub mod program;
pub mod resolver;
pub mod scan;
pub mod text;
pub mod tokenizer;
pub mod value;

pub use program::Program;
