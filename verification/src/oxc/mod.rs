//! TypeScript to JavaScript compilation through OXC: parsing, transforming
//! and printing a program, and the compiler that derives each stage's
//! configuration from its own.
pub mod codegen;
pub mod compiler;
pub mod parser;
pub mod transformer;
