//! The type checker.

pub mod agreements;
pub mod assign;
pub mod ast;
pub mod branches;
pub mod calls;
pub mod check;
pub mod checker;
pub mod composing;
pub mod declarations;
pub mod descent;
pub mod exprs;
pub mod flow;
pub mod gather;
pub mod hierarchy;
pub mod infer;
pub mod info;
pub mod keyed;
pub mod members;
pub mod membership;
pub mod narrowing;
pub mod operands;
pub mod program;
pub mod recording;
pub mod rules;
pub mod signatures;
pub mod soundness;
pub mod suggest;
pub mod types;
pub mod undoing;
