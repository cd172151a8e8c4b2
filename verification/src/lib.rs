//! Finds TODO-style annotations in source comments, and removes them.
//!
//! The library works on plain values: it is shown the bytes of a file and
//! says which annotations they hold, and it says which bytes a file is to
//! hold once an annotation has been removed. Reading and writing files is
//! left to the caller.
pub mod builder;
pub mod comments;
pub mod configs;
pub mod custom_tags;
pub mod display;
pub mod engine;
pub mod errors;
pub mod example;
pub mod laws;
pub mod lines;
pub mod maps;
pub mod parser;
pub mod printer;
pub mod remover;
pub mod rescan;
pub mod text;
pub mod todo;
pub mod todor;

pub use crate::builder::TodoRBuilder;
pub use crate::example::write_example_config;
pub use crate::todor::TodoR;
