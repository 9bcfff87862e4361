//! PVM ABI constants: register assignments and stack frame layout.
use vstd::prelude::*;

verus! {

/// Return address register (ra): holds the return address (jump table index) for calls.
pub const RETURN_ADDR_REG: u8 = 0;

/// Stack pointer register (sp): the top of the stack, which grows downwards.
pub const STACK_PTR_REG: u8 = 1;

/// Temporary register 1 (t0): operands loaded from stack slots or immediates.
pub const TEMP1: u8 = 2;

/// Temporary register 2 (t1): operands loaded from stack slots.
pub const TEMP2: u8 = 3;

/// Temporary register for computation results (t2).
pub const TEMP_RESULT: u8 = 4;

/// Scratch register 1 (s0).
pub const SCRATCH1: u8 = 5;

/// Scratch register 2 (s1).
pub const SCRATCH2: u8 = 6;

/// Return value register (a0); also the arguments pointer of the entry function.
pub const RETURN_VALUE_REG: u8 = 7;

/// Arguments pointer register of the entry function (same register as the return value).
pub const ARGS_PTR_REG: u8 = 7;

/// Arguments length register (a1) of the entry function.
pub const ARGS_LEN_REG: u8 = 8;

/// First local variable register (l0): start of the callee-saved registers r9-r12.
pub const FIRST_LOCAL_REG: u8 = 9;

/// Number of registers dedicated to local variables (r9-r12).
pub const MAX_LOCAL_REGS: usize = 4;

/// Maximum stack frame header size in bytes: saved r0 and r9-r12, 8 bytes each.
pub const FRAME_HEADER_SIZE: i32 = 40;

/// Operand stack spill area base offset (relative to SP, negative direction).
pub const OPERAND_SPILL_BASE: i32 = -0x100;

} // verus!
