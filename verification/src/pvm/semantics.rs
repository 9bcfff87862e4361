//! What the register operations of the PVM compute: the 64-bit value an
//! arithmetic, logic, shift, comparison, bit-count or extension instruction
//! writes into its destination register, from the values of its source
//! registers. A 32-bit operation computes on the low 32 bits of its sources
//! and writes its 32-bit result sign-extended to 64 bits.
use super::instruction::Instruction;
use vstd::prelude::*;

verus! {

/// 2^32.
pub open spec fn two32() -> int {
    0x1_0000_0000
}

/// 2^64.
pub open spec fn two64() -> int {
    0x1_0000_0000_0000_0000
}

/// `x` modulo 2^64, as a register value.
pub open spec fn wrap64(x: int) -> u64 {
    (x % two64()) as u64
}

/// The sign extension of the low 32 bits of `v`.
pub open spec fn sext32(v: u64) -> u64 {
    if v & 0x8000_0000 != 0 {
        v | 0xFFFF_FFFF_0000_0000
    } else {
        v & 0xFFFF_FFFF
    }
}

/// The sign extension of the low 8 bits of `v`.
pub open spec fn sext8(v: u64) -> u64 {
    if v & 0x80 != 0 {
        v | 0xFFFF_FFFF_FFFF_FF00
    } else {
        v & 0xFF
    }
}

/// The sign extension of the low 16 bits of `v`.
pub open spec fn sext16(v: u64) -> u64 {
    if v & 0x8000 != 0 {
        v | 0xFFFF_FFFF_FFFF_0000
    } else {
        v & 0xFFFF
    }
}

/// The low 32 bits of `v` read as a signed number.
pub open spec fn signed32(v: u64) -> int {
    let t = (v % 0x1_0000_0000) as int;
    if t >= 0x8000_0000 {
        t - two32()
    } else {
        t
    }
}

/// `v` read as a signed 64-bit number.
pub open spec fn signed64(v: u64) -> int {
    if v >= 0x8000_0000_0000_0000 {
        v - two64()
    } else {
        v as int
    }
}

/// Division rounding toward zero (`b != 0`).
pub open spec fn div_trunc(a: int, b: int) -> int {
    let q = abs(a) / abs(b);
    if (a < 0) != (b < 0) {
        -q
    } else {
        q
    }
}

/// The remainder of division rounding toward zero: it has the sign of `a`.
pub open spec fn rem_trunc(a: int, b: int) -> int {
    a - b * div_trunc(a, b)
}

/// |x|.
pub open spec fn abs(x: int) -> int {
    if x < 0 {
        -x
    } else {
        x
    }
}

/// The number of set bits among the low `n` bits of `v`.
pub open spec fn ones(v: u64, n: nat) -> nat
    decreases n,
{
    if n == 0 {
        0
    } else {
        (v & 1) as nat + ones(v >> 1, (n - 1) as nat)
    }
}

/// The number of zero bits above the highest set bit among the low `n` bits of `v`.
pub open spec fn leading_zeros(v: u64, n: nat) -> nat
    decreases n,
{
    if n == 0 {
        0
    } else if (v >> ((n - 1) as u64)) & 1 == 1 {
        0
    } else {
        1 + leading_zeros(v, (n - 1) as nat)
    }
}

/// The number of zero bits below the lowest set bit among the low `n` bits of `v`.
pub open spec fn trailing_zeros(v: u64, n: nat) -> nat
    decreases n,
{
    if n == 0 {
        0
    } else if v & 1 == 1 {
        0
    } else {
        1 + trailing_zeros(v >> 1, (n - 1) as nat)
    }
}

/// The 64-bit value a register operation writes into its destination, from
/// the registers' values `regs`; `None` for an instruction that is not a
/// register operation (a load, a store, a jump, a branch, ...).
///
/// Division by zero gives all ones (a remainder gives the dividend), and the
/// one overflowing signed division gives the dividend (its remainder 0).
pub open spec fn alu_value(instr: Instruction, regs: spec_fn(u8) -> u64) -> Option<u64> {
    match instr {
        Instruction::LoadImm64 { reg, value } => Some(value),
        Instruction::LoadImm { reg, value } => Some(wrap64(value as int)),
        Instruction::MoveReg { dst, src } => Some(regs(src)),
        Instruction::Add32 { dst, src1, src2 } => Some(sext32(wrap64(regs(src1) + regs(src2)))),
        Instruction::Sub32 { dst, src1, src2 } => Some(sext32(wrap64(regs(src1) - regs(src2)))),
        Instruction::Mul32 { dst, src1, src2 } => Some(sext32(wrap64(regs(src1) * regs(src2)))),
        Instruction::DivU32 { dst, src1, src2 } => {
            let a = regs(src1) % 0x1_0000_0000;
            let b = regs(src2) % 0x1_0000_0000;
            Some(if b == 0 { u64::MAX } else { sext32(a / b) })
        },
        Instruction::DivS32 { dst, src1, src2 } => {
            let a = signed32(regs(src1));
            let b = signed32(regs(src2));
            Some(
                if b == 0 {
                    u64::MAX
                } else if a == -0x8000_0000 && b == -1 {
                    sext32(wrap64(a))
                } else {
                    sext32(wrap64(div_trunc(a, b)))
                },
            )
        },
        Instruction::RemU32 { dst, src1, src2 } => {
            let a = regs(src1) % 0x1_0000_0000;
            let b = regs(src2) % 0x1_0000_0000;
            Some(if b == 0 { sext32(a) } else { sext32(a % b) })
        },
        Instruction::RemS32 { dst, src1, src2 } => {
            let a = signed32(regs(src1));
            let b = signed32(regs(src2));
            Some(
                if b == 0 {
                    sext32(wrap64(a))
                } else if a == -0x8000_0000 && b == -1 {
                    0
                } else {
                    sext32(wrap64(rem_trunc(a, b)))
                },
            )
        },
        Instruction::Add64 { dst, src1, src2 } => Some(wrap64(regs(src1) + regs(src2))),
        Instruction::Sub64 { dst, src1, src2 } => Some(wrap64(regs(src1) - regs(src2))),
        Instruction::Mul64 { dst, src1, src2 } => Some(wrap64(regs(src1) * regs(src2))),
        Instruction::DivU64 { dst, src1, src2 } => Some(
            if regs(src2) == 0 { u64::MAX } else { regs(src1) / regs(src2) },
        ),
        Instruction::DivS64 { dst, src1, src2 } => {
            let a = signed64(regs(src1));
            let b = signed64(regs(src2));
            Some(
                if b == 0 {
                    u64::MAX
                } else if a == -0x8000_0000_0000_0000 && b == -1 {
                    regs(src1)
                } else {
                    wrap64(div_trunc(a, b))
                },
            )
        },
        Instruction::RemU64 { dst, src1, src2 } => Some(
            if regs(src2) == 0 { regs(src1) } else { regs(src1) % regs(src2) },
        ),
        Instruction::RemS64 { dst, src1, src2 } => {
            let a = signed64(regs(src1));
            let b = signed64(regs(src2));
            Some(
                if b == 0 {
                    regs(src1)
                } else if a == -0x8000_0000_0000_0000 && b == -1 {
                    0
                } else {
                    wrap64(rem_trunc(a, b))
                },
            )
        },
        Instruction::ShloL64 { dst, src1, src2 } => Some(regs(src1) << (regs(src2) % 64)),
        Instruction::ShloR64 { dst, src1, src2 } => Some(regs(src1) >> (regs(src2) % 64)),
        Instruction::SharR64 { dst, src1, src2 } => Some(
            wrap64(signed64(regs(src1)) / vstd::arithmetic::power2::pow2((regs(src2) % 64) as nat) as int),
        ),
        Instruction::ShloL32 { dst, src1, src2 } => Some(sext32(regs(src1) << (regs(src2) % 32))),
        Instruction::ShloR32 { dst, src1, src2 } => Some(sext32((regs(src1) & 0xFFFF_FFFF) >> (regs(src2) % 32))),
        Instruction::SharR32 { dst, src1, src2 } => Some(
            sext32(wrap64(signed32(regs(src1)) / vstd::arithmetic::power2::pow2((regs(src2) % 32) as nat) as int)),
        ),
        Instruction::AddImm32 { dst, src, value } => Some(sext32(wrap64(regs(src) + value))),
        Instruction::AddImm64 { dst, src, value } => Some(wrap64(regs(src) + value)),
        Instruction::And { dst, src1, src2 } => Some(regs(src1) & regs(src2)),
        Instruction::Or { dst, src1, src2 } => Some(regs(src1) | regs(src2)),
        Instruction::Xor { dst, src1, src2 } => Some(regs(src1) ^ regs(src2)),
        Instruction::SetLtU { dst, src1, src2 } => Some(if regs(src1) < regs(src2) { 1 } else { 0 }),
        Instruction::SetLtS { dst, src1, src2 } => Some(
            if signed64(regs(src1)) < signed64(regs(src2)) { 1 } else { 0 },
        ),
        Instruction::SetLtUImm { dst, src, value } => Some(if regs(src) < wrap64(value as int) { 1 } else { 0 }),
        Instruction::SetLtSImm { dst, src, value } => Some(if signed64(regs(src)) < value { 1 } else { 0 }),
        Instruction::CountSetBits64 { dst, src } => Some(ones(regs(src), 64) as u64),
        Instruction::CountSetBits32 { dst, src } => Some(ones(regs(src), 32) as u64),
        Instruction::LeadingZeroBits64 { dst, src } => Some(leading_zeros(regs(src), 64) as u64),
        Instruction::LeadingZeroBits32 { dst, src } => Some(leading_zeros(regs(src), 32) as u64),
        Instruction::TrailingZeroBits64 { dst, src } => Some(trailing_zeros(regs(src), 64) as u64),
        Instruction::TrailingZeroBits32 { dst, src } => Some(trailing_zeros(regs(src), 32) as u64),
        Instruction::SignExtend8 { dst, src } => Some(sext8(regs(src))),
        Instruction::SignExtend16 { dst, src } => Some(sext16(regs(src))),
        Instruction::ZeroExtend16 { dst, src } => Some(regs(src) & 0xFFFF),
        _ => None,
    }
}

/// Sign-extending twice changes nothing.
pub proof fn lemma_sext32_idempotent(v: u64)
    ensures
        sext32(sext32(v)) == sext32(v),
{
    assert(v & 0x8000_0000 != 0 ==> (v | 0xFFFF_FFFF_0000_0000) & 0x8000_0000 != 0 && (v | 0xFFFF_FFFF_0000_0000)
        | 0xFFFF_FFFF_0000_0000 == v | 0xFFFF_FFFF_0000_0000) by (bit_vector);
    assert(v & 0x8000_0000 == 0 ==> (v & 0xFFFF_FFFF) & 0x8000_0000 == 0 && (v & 0xFFFF_FFFF) & 0xFFFF_FFFF
        == v & 0xFFFF_FFFF) by (bit_vector);
}

/// A value below 2^31 is its own 32-bit sign extension.
pub proof fn lemma_sext32_small(v: u64)
    requires
        v < 0x8000_0000,
    ensures
        sext32(v) == v,
{
    assert(v < 0x8000_0000 ==> v & 0x8000_0000 == 0 && v & 0xFFFF_FFFF == v) by (bit_vector);
}

pub proof fn lemma_ones_bound(v: u64, n: nat)
    ensures
        ones(v, n) <= n,
    decreases n,
{
    if n > 0 {
        assert(v & 1 <= 1) by (bit_vector);
        lemma_ones_bound(v >> 1, (n - 1) as nat);
    }
}

pub proof fn lemma_leading_zeros_bound(v: u64, n: nat)
    ensures
        leading_zeros(v, n) <= n,
    decreases n,
{
    if n > 0 {
        lemma_leading_zeros_bound(v, (n - 1) as nat);
    }
}

pub proof fn lemma_trailing_zeros_bound(v: u64, n: nat)
    ensures
        trailing_zeros(v, n) <= n,
    decreases n,
{
    if n > 0 {
        lemma_trailing_zeros_bound(v >> 1, (n - 1) as nat);
    }
}

} // verus!
