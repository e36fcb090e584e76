//! The abstract syntax of DSDL files.

pub mod ident;
pub mod comment;
pub mod cast_mode;
pub mod directive;
pub mod array;
pub mod ty;
pub mod lit;
pub mod file_name;
pub mod attribute_definition;
pub mod line;
pub mod type_definition;
pub mod file;
pub mod dsdl;
