pub mod text;
pub mod types;
pub mod ops;
pub mod lexer;
pub mod insordmap;
pub mod target;
pub mod ast;
pub mod bindings;
pub mod simpler;
pub mod check;
pub mod parse_types;
pub mod parse;
pub mod ir;
pub mod codegen;
pub mod strings;
