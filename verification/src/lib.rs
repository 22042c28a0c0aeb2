pub mod assembler;
pub mod ast;
pub mod cpu;
pub mod error;
pub mod lexer;
pub mod parser;
pub mod program;
pub mod names;
pub mod simulator;
mod show;
mod text;
