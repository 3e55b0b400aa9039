//! Turns documentation code snippets into C and C++ test sources and keeps
//! the test section of a JSON project manifest in step with them.

pub mod language;
pub mod text;
pub mod render;
pub mod error;
pub mod generator;
pub mod manifest;
pub mod generators;
