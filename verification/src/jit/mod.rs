//! Just-in-time compiler for Aura bytecode.

pub mod analyze;
pub mod assembler;
pub mod assembly;
pub mod blocks;
pub mod cfg;
pub mod code;
pub mod codegen;
pub mod coexist;
pub mod compiler;
pub mod decide;
pub mod decode;
pub mod edges;
pub mod entry;
pub mod folding;
pub mod frame;
pub mod handover;
pub mod heights;
pub mod inline;
pub mod insns;
pub mod ir;
pub mod liveness;
pub mod lower;
pub mod meaning;
pub mod mem;
pub mod methods;
pub mod optimize;
pub mod placing;
pub mod plain;
pub mod preserve;
pub mod processor;
pub mod regalloc;
pub mod regs;
pub mod runs;
pub mod select;
pub mod simulate;
pub mod sweep;
pub mod tidy;
pub mod typed;
pub mod value;
pub mod whole;
pub mod xmms;
