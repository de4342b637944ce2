//! Extraction and validation of a dependency catalog held in an evaluated
//! build-configuration document.

pub mod catalog;
pub mod dependency;
pub mod parser;
pub mod value;
