//! Built-in language plugins.

pub mod go;
pub mod python;
pub mod rust;
