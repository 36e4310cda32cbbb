//! Numbers of the XMM registers.

use vstd::prelude::*;

verus! {

/// `xmm0`.
pub const XMM0: u8 = 0;

/// `xmm1`.
pub const XMM1: u8 = 1;

/// `xmm2`.
pub const XMM2: u8 = 2;

/// `xmm3`.
pub const XMM3: u8 = 3;

/// `xmm4`.
pub const XMM4: u8 = 4;

/// `xmm5`.
pub const XMM5: u8 = 5;

/// `xmm6`.
pub const XMM6: u8 = 6;

/// `xmm7`.
pub const XMM7: u8 = 7;

/// `xmm8`.
pub const XMM8: u8 = 8;

/// `xmm9`.
pub const XMM9: u8 = 9;

/// `xmm10`.
pub const XMM10: u8 = 10;

/// `xmm11`.
pub const XMM11: u8 = 11;

/// `xmm12`.
pub const XMM12: u8 = 12;

/// `xmm13`.
pub const XMM13: u8 = 13;

/// `xmm14`.
pub const XMM14: u8 = 14;

/// `xmm15`.
pub const XMM15: u8 = 15;

} // verus!
