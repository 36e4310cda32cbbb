//! Aura: the verified core of a small object-oriented language.

pub mod arith;
pub mod bytecode;
pub mod jit;
pub mod natives;
pub mod text;
pub mod typer;
pub mod vm;
