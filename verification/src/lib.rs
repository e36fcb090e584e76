//! A parser for the DSDL (Data Structure Description Language) used in UAVCAN,
//! with the data type signature algorithm (CRC-64-WE) it relies on.

pub mod crc;
pub mod text;
pub mod ast;
pub mod lexer;
pub mod normalize;
pub mod compiler;
pub mod parser;
pub mod bench;
pub mod transfer;

pub use ast::ty::Ty;
pub use ast::ty::CompositeType;
pub use ast::ty::PrimitiveType;
pub use ast::ident::Ident;
pub use ast::comment::Comment;
pub use ast::directive::Directive;
pub use ast::attribute_definition::AttributeDefinition;
pub use ast::attribute_definition::ConstDefinition;
pub use ast::attribute_definition::FieldDefinition;
pub use ast::file_name::FileName;
pub use ast::file_name::Version;
pub use ast::array::ArrayInfo;
pub use ast::cast_mode::CastMode;
pub use ast::lit::Lit;
pub use ast::lit::Sign;
pub use ast::type_definition::TypeDefinition;
pub use ast::type_definition::MessageDefinition;
pub use ast::type_definition::ServiceDefinition;
pub use ast::line::Line;
pub use ast::file::File;
pub use ast::file::NormalizedFile;
pub use ast::dsdl::DSDL;
