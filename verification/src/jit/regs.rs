//! Numbers of the general purpose registers.

use vstd::prelude::*;

verus! {

/// `rax`.
pub const RAX: u8 = 0;

/// `rcx`.
pub const RCX: u8 = 1;

/// `rdx`.
pub const RDX: u8 = 2;

/// `rbx`.
pub const RBX: u8 = 3;

/// `rsp`.
pub const RSP: u8 = 4;

/// `rbp`.
pub const RBP: u8 = 5;

/// `rsi`.
pub const RSI: u8 = 6;

/// `rdi`.
pub const RDI: u8 = 7;

/// `r8`.
pub const R8: u8 = 8;

/// `r9`.
pub const R9: u8 = 9;

/// `r10`.
pub const R10: u8 = 10;

/// `r11`.
pub const R11: u8 = 11;

/// `r12`.
pub const R12: u8 = 12;

/// `r13`.
pub const R13: u8 = 13;

/// `r14`.
pub const R14: u8 = 14;

/// `r15`.
pub const R15: u8 = 15;

} // verus!
