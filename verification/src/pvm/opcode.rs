use vstd::prelude::*;

verus! {

/// PVM opcodes. Each variant stands for one byte value of the instruction set;
/// `Opcode::byte` gives that value.
#[derive(Debug, Clone, Copy, PartialEq, Eq, Structural)]
pub enum Opcode {
    Trap,
    Fallthrough,
    Ecalli,
    LoadImm64,
    // Store immediate to absolute address (TwoImm)
    StoreImmU8,
    StoreImmU16,
    StoreImmU32,
    StoreImmU64,
    Jump,
    JumpInd,
    LoadImm,
    // Load/store absolute address (OneRegOneImm)
    LoadU8,
    LoadI8,
    LoadU16,
    LoadI16,
    LoadU32,
    LoadI32,
    LoadU64,
    StoreU8,
    StoreU16,
    StoreU32,
    StoreU64,
    // Store immediate indirect (OneRegTwoImm)
    StoreImmIndU8,
    StoreImmIndU16,
    StoreImmIndU32,
    StoreImmIndU64,
    // Compound jump (OneRegOneImmOneOff)
    LoadImmJump,
    // Branch with immediate comparison (OneRegOneImmOneOff)
    BranchEqImm,
    BranchNeImm,
    BranchLtUImm,
    BranchLeUImm,
    BranchGeUImm,
    BranchGtUImm,
    BranchLtSImm,
    BranchLeSImm,
    BranchGeSImm,
    BranchGtSImm,
    MoveReg,
    Sbrk,
    CountSetBits64,
    CountSetBits32,
    LeadingZeroBits64,
    LeadingZeroBits32,
    TrailingZeroBits64,
    TrailingZeroBits32,
    SignExtend8,
    SignExtend16,
    ZeroExtend16,
    ReverseBytes,
    StoreIndU8,
    StoreIndU16,
    StoreIndU32,
    StoreIndU64,
    LoadIndU8,
    LoadIndI8,
    LoadIndU16,
    LoadIndI16,
    LoadIndU32,
    LoadIndI32,
    LoadIndU64,
    AddImm32,
    AndImm,
    XorImm,
    OrImm,
    MulImm32,
    // Set if less/greater than immediate (TwoRegOneImm)
    SetLtUImm,
    SetLtSImm,
    // Shift by immediate (TwoRegOneImm)
    ShloLImm32,
    ShloRImm32,
    SharRImm32,
    NegAddImm32,
    SetGtUImm,
    SetGtSImm,
    // Alternate shift immediates: dst = imm OP src (reversed operands, 32-bit)
    ShloLImmAlt32,
    ShloRImmAlt32,
    SharRImmAlt32,
    // Conditional move with immediate (TwoRegOneImm)
    CmovIzImm,
    CmovNzImm,
    AddImm64,
    MulImm64,
    ShloLImm64,
    ShloRImm64,
    SharRImm64,
    NegAddImm64,
    // Alternate shift immediates: dst = imm OP src (reversed operands, 64-bit)
    ShloLImmAlt64,
    ShloRImmAlt64,
    SharRImmAlt64,
    // Rotate right by immediate (TwoRegOneImm)
    RotRImm64,
    RotRImmAlt64,
    RotRImm32,
    RotRImmAlt32,
    // Branch with two registers (TwoRegOneOff)
    BranchEq,
    BranchNe,
    BranchLtU,
    BranchLtS,
    BranchGeU,
    BranchGeS,
    // Compound indirect jump (TwoRegTwoImm)
    LoadImmJumpInd,
    // 32-bit three-register arithmetic
    Add32,
    Sub32,
    Mul32,
    DivU32,
    DivS32,
    RemU32,
    RemS32,
    // 32-bit shift operations (ThreeReg)
    ShloL32,
    ShloR32,
    SharR32,
    // 64-bit three-register arithmetic
    Add64,
    Sub64,
    Mul64,
    DivU64,
    DivS64,
    RemU64,
    RemS64,
    ShloL64,
    ShloR64,
    SharR64,
    // Bitwise operations (ThreeReg)
    And,
    Xor,
    Or,
    // Upper multiply (ThreeReg)
    MulUpperSS,
    MulUpperUU,
    MulUpperSU,
    // Comparison (ThreeReg) - result is 0 or 1
    SetLtU,
    SetLtS,
    // Conditional move (ThreeReg)
    CmovIz,
    CmovNz,
    // Rotate (ThreeReg)
    RotL64,
    RotL32,
    RotR64,
    RotR32,
    // Inverted bitwise (ThreeReg)
    AndInv,
    OrInv,
    Xnor,
    // Min/Max (ThreeReg)
    Max,
    MaxU,
    Min,
    MinU,
}

impl Opcode {
    /// The byte that encodes this opcode in a PVM program.
    pub open spec fn byte(self) -> u8 {
        match self {
            Opcode::Trap => 0u8,
            Opcode::Fallthrough => 1u8,
            Opcode::Ecalli => 10u8,
            Opcode::LoadImm64 => 20u8,
            Opcode::StoreImmU8 => 30u8,
            Opcode::StoreImmU16 => 31u8,
            Opcode::StoreImmU32 => 32u8,
            Opcode::StoreImmU64 => 33u8,
            Opcode::Jump => 40u8,
            Opcode::JumpInd => 50u8,
            Opcode::LoadImm => 51u8,
            Opcode::LoadU8 => 52u8,
            Opcode::LoadI8 => 53u8,
            Opcode::LoadU16 => 54u8,
            Opcode::LoadI16 => 55u8,
            Opcode::LoadU32 => 56u8,
            Opcode::LoadI32 => 57u8,
            Opcode::LoadU64 => 58u8,
            Opcode::StoreU8 => 59u8,
            Opcode::StoreU16 => 60u8,
            Opcode::StoreU32 => 61u8,
            Opcode::StoreU64 => 62u8,
            Opcode::StoreImmIndU8 => 70u8,
            Opcode::StoreImmIndU16 => 71u8,
            Opcode::StoreImmIndU32 => 72u8,
            Opcode::StoreImmIndU64 => 73u8,
            Opcode::LoadImmJump => 80u8,
            Opcode::BranchEqImm => 81u8,
            Opcode::BranchNeImm => 82u8,
            Opcode::BranchLtUImm => 83u8,
            Opcode::BranchLeUImm => 84u8,
            Opcode::BranchGeUImm => 85u8,
            Opcode::BranchGtUImm => 86u8,
            Opcode::BranchLtSImm => 87u8,
            Opcode::BranchLeSImm => 88u8,
            Opcode::BranchGeSImm => 89u8,
            Opcode::BranchGtSImm => 90u8,
            Opcode::MoveReg => 100u8,
            Opcode::Sbrk => 101u8,
            Opcode::CountSetBits64 => 102u8,
            Opcode::CountSetBits32 => 103u8,
            Opcode::LeadingZeroBits64 => 104u8,
            Opcode::LeadingZeroBits32 => 105u8,
            Opcode::TrailingZeroBits64 => 106u8,
            Opcode::TrailingZeroBits32 => 107u8,
            Opcode::SignExtend8 => 108u8,
            Opcode::SignExtend16 => 109u8,
            Opcode::ZeroExtend16 => 110u8,
            Opcode::ReverseBytes => 111u8,
            Opcode::StoreIndU8 => 120u8,
            Opcode::StoreIndU16 => 121u8,
            Opcode::StoreIndU32 => 122u8,
            Opcode::StoreIndU64 => 123u8,
            Opcode::LoadIndU8 => 124u8,
            Opcode::LoadIndI8 => 125u8,
            Opcode::LoadIndU16 => 126u8,
            Opcode::LoadIndI16 => 127u8,
            Opcode::LoadIndU32 => 128u8,
            Opcode::LoadIndI32 => 129u8,
            Opcode::LoadIndU64 => 130u8,
            Opcode::AddImm32 => 131u8,
            Opcode::AndImm => 132u8,
            Opcode::XorImm => 133u8,
            Opcode::OrImm => 134u8,
            Opcode::MulImm32 => 135u8,
            Opcode::SetLtUImm => 136u8,
            Opcode::SetLtSImm => 137u8,
            Opcode::ShloLImm32 => 138u8,
            Opcode::ShloRImm32 => 139u8,
            Opcode::SharRImm32 => 140u8,
            Opcode::NegAddImm32 => 141u8,
            Opcode::SetGtUImm => 142u8,
            Opcode::SetGtSImm => 143u8,
            Opcode::ShloLImmAlt32 => 144u8,
            Opcode::ShloRImmAlt32 => 145u8,
            Opcode::SharRImmAlt32 => 146u8,
            Opcode::CmovIzImm => 147u8,
            Opcode::CmovNzImm => 148u8,
            Opcode::AddImm64 => 149u8,
            Opcode::MulImm64 => 150u8,
            Opcode::ShloLImm64 => 151u8,
            Opcode::ShloRImm64 => 152u8,
            Opcode::SharRImm64 => 153u8,
            Opcode::NegAddImm64 => 154u8,
            Opcode::ShloLImmAlt64 => 155u8,
            Opcode::ShloRImmAlt64 => 156u8,
            Opcode::SharRImmAlt64 => 157u8,
            Opcode::RotRImm64 => 158u8,
            Opcode::RotRImmAlt64 => 159u8,
            Opcode::RotRImm32 => 160u8,
            Opcode::RotRImmAlt32 => 161u8,
            Opcode::BranchEq => 170u8,
            Opcode::BranchNe => 171u8,
            Opcode::BranchLtU => 172u8,
            Opcode::BranchLtS => 173u8,
            Opcode::BranchGeU => 174u8,
            Opcode::BranchGeS => 175u8,
            Opcode::LoadImmJumpInd => 180u8,
            Opcode::Add32 => 190u8,
            Opcode::Sub32 => 191u8,
            Opcode::Mul32 => 192u8,
            Opcode::DivU32 => 193u8,
            Opcode::DivS32 => 194u8,
            Opcode::RemU32 => 195u8,
            Opcode::RemS32 => 196u8,
            Opcode::ShloL32 => 197u8,
            Opcode::ShloR32 => 198u8,
            Opcode::SharR32 => 199u8,
            Opcode::Add64 => 200u8,
            Opcode::Sub64 => 201u8,
            Opcode::Mul64 => 202u8,
            Opcode::DivU64 => 203u8,
            Opcode::DivS64 => 204u8,
            Opcode::RemU64 => 205u8,
            Opcode::RemS64 => 206u8,
            Opcode::ShloL64 => 207u8,
            Opcode::ShloR64 => 208u8,
            Opcode::SharR64 => 209u8,
            Opcode::And => 210u8,
            Opcode::Xor => 211u8,
            Opcode::Or => 212u8,
            Opcode::MulUpperSS => 213u8,
            Opcode::MulUpperUU => 214u8,
            Opcode::MulUpperSU => 215u8,
            Opcode::SetLtU => 216u8,
            Opcode::SetLtS => 217u8,
            Opcode::CmovIz => 218u8,
            Opcode::CmovNz => 219u8,
            Opcode::RotL64 => 220u8,
            Opcode::RotL32 => 221u8,
            Opcode::RotR64 => 222u8,
            Opcode::RotR32 => 223u8,
            Opcode::AndInv => 224u8,
            Opcode::OrInv => 225u8,
            Opcode::Xnor => 226u8,
            Opcode::Max => 227u8,
            Opcode::MaxU => 228u8,
            Opcode::Min => 229u8,
            Opcode::MinU => 230u8,
        }
    }

    /// Whether the opcode ends a basic block (traps, fallthroughs, jumps and branches).
    pub open spec fn terminates(self) -> bool {
        match self {
            Opcode::Trap
            | Opcode::Fallthrough
            | Opcode::Jump
            | Opcode::LoadImmJump
            | Opcode::JumpInd
            | Opcode::BranchEqImm
            | Opcode::BranchNeImm
            | Opcode::BranchLtUImm
            | Opcode::BranchLeUImm
            | Opcode::BranchGeUImm
            | Opcode::BranchGtUImm
            | Opcode::BranchLtSImm
            | Opcode::BranchLeSImm
            | Opcode::BranchGeSImm
            | Opcode::BranchGtSImm
            | Opcode::BranchEq
            | Opcode::BranchNe
            | Opcode::BranchLtU
            | Opcode::BranchLtS
            | Opcode::BranchGeU
            | Opcode::BranchGeS
            | Opcode::LoadImmJumpInd => true,
            _ => false,
        }
    }

    /// Whether some opcode is encoded by `b`.
    pub open spec fn is_opcode_byte(b: u8) -> bool {
        exists|op: Opcode| op.byte() == b
    }

    /// The encoding byte of this opcode.
    pub fn to_u8(self) -> (b: u8)
        ensures
            b == self.byte(),
    {
        match self {
            Opcode::Trap => 0,
            Opcode::Fallthrough => 1,
            Opcode::Ecalli => 10,
            Opcode::LoadImm64 => 20,
            Opcode::StoreImmU8 => 30,
            Opcode::StoreImmU16 => 31,
            Opcode::StoreImmU32 => 32,
            Opcode::StoreImmU64 => 33,
            Opcode::Jump => 40,
            Opcode::JumpInd => 50,
            Opcode::LoadImm => 51,
            Opcode::LoadU8 => 52,
            Opcode::LoadI8 => 53,
            Opcode::LoadU16 => 54,
            Opcode::LoadI16 => 55,
            Opcode::LoadU32 => 56,
            Opcode::LoadI32 => 57,
            Opcode::LoadU64 => 58,
            Opcode::StoreU8 => 59,
            Opcode::StoreU16 => 60,
            Opcode::StoreU32 => 61,
            Opcode::StoreU64 => 62,
            Opcode::StoreImmIndU8 => 70,
            Opcode::StoreImmIndU16 => 71,
            Opcode::StoreImmIndU32 => 72,
            Opcode::StoreImmIndU64 => 73,
            Opcode::LoadImmJump => 80,
            Opcode::BranchEqImm => 81,
            Opcode::BranchNeImm => 82,
            Opcode::BranchLtUImm => 83,
            Opcode::BranchLeUImm => 84,
            Opcode::BranchGeUImm => 85,
            Opcode::BranchGtUImm => 86,
            Opcode::BranchLtSImm => 87,
            Opcode::BranchLeSImm => 88,
            Opcode::BranchGeSImm => 89,
            Opcode::BranchGtSImm => 90,
            Opcode::MoveReg => 100,
            Opcode::Sbrk => 101,
            Opcode::CountSetBits64 => 102,
            Opcode::CountSetBits32 => 103,
            Opcode::LeadingZeroBits64 => 104,
            Opcode::LeadingZeroBits32 => 105,
            Opcode::TrailingZeroBits64 => 106,
            Opcode::TrailingZeroBits32 => 107,
            Opcode::SignExtend8 => 108,
            Opcode::SignExtend16 => 109,
            Opcode::ZeroExtend16 => 110,
            Opcode::ReverseBytes => 111,
            Opcode::StoreIndU8 => 120,
            Opcode::StoreIndU16 => 121,
            Opcode::StoreIndU32 => 122,
            Opcode::StoreIndU64 => 123,
            Opcode::LoadIndU8 => 124,
            Opcode::LoadIndI8 => 125,
            Opcode::LoadIndU16 => 126,
            Opcode::LoadIndI16 => 127,
            Opcode::LoadIndU32 => 128,
            Opcode::LoadIndI32 => 129,
            Opcode::LoadIndU64 => 130,
            Opcode::AddImm32 => 131,
            Opcode::AndImm => 132,
            Opcode::XorImm => 133,
            Opcode::OrImm => 134,
            Opcode::MulImm32 => 135,
            Opcode::SetLtUImm => 136,
            Opcode::SetLtSImm => 137,
            Opcode::ShloLImm32 => 138,
            Opcode::ShloRImm32 => 139,
            Opcode::SharRImm32 => 140,
            Opcode::NegAddImm32 => 141,
            Opcode::SetGtUImm => 142,
            Opcode::SetGtSImm => 143,
            Opcode::ShloLImmAlt32 => 144,
            Opcode::ShloRImmAlt32 => 145,
            Opcode::SharRImmAlt32 => 146,
            Opcode::CmovIzImm => 147,
            Opcode::CmovNzImm => 148,
            Opcode::AddImm64 => 149,
            Opcode::MulImm64 => 150,
            Opcode::ShloLImm64 => 151,
            Opcode::ShloRImm64 => 152,
            Opcode::SharRImm64 => 153,
            Opcode::NegAddImm64 => 154,
            Opcode::ShloLImmAlt64 => 155,
            Opcode::ShloRImmAlt64 => 156,
            Opcode::SharRImmAlt64 => 157,
            Opcode::RotRImm64 => 158,
            Opcode::RotRImmAlt64 => 159,
            Opcode::RotRImm32 => 160,
            Opcode::RotRImmAlt32 => 161,
            Opcode::BranchEq => 170,
            Opcode::BranchNe => 171,
            Opcode::BranchLtU => 172,
            Opcode::BranchLtS => 173,
            Opcode::BranchGeU => 174,
            Opcode::BranchGeS => 175,
            Opcode::LoadImmJumpInd => 180,
            Opcode::Add32 => 190,
            Opcode::Sub32 => 191,
            Opcode::Mul32 => 192,
            Opcode::DivU32 => 193,
            Opcode::DivS32 => 194,
            Opcode::RemU32 => 195,
            Opcode::RemS32 => 196,
            Opcode::ShloL32 => 197,
            Opcode::ShloR32 => 198,
            Opcode::SharR32 => 199,
            Opcode::Add64 => 200,
            Opcode::Sub64 => 201,
            Opcode::Mul64 => 202,
            Opcode::DivU64 => 203,
            Opcode::DivS64 => 204,
            Opcode::RemU64 => 205,
            Opcode::RemS64 => 206,
            Opcode::ShloL64 => 207,
            Opcode::ShloR64 => 208,
            Opcode::SharR64 => 209,
            Opcode::And => 210,
            Opcode::Xor => 211,
            Opcode::Or => 212,
            Opcode::MulUpperSS => 213,
            Opcode::MulUpperUU => 214,
            Opcode::MulUpperSU => 215,
            Opcode::SetLtU => 216,
            Opcode::SetLtS => 217,
            Opcode::CmovIz => 218,
            Opcode::CmovNz => 219,
            Opcode::RotL64 => 220,
            Opcode::RotL32 => 221,
            Opcode::RotR64 => 222,
            Opcode::RotR32 => 223,
            Opcode::AndInv => 224,
            Opcode::OrInv => 225,
            Opcode::Xnor => 226,
            Opcode::Max => 227,
            Opcode::MaxU => 228,
            Opcode::Min => 229,
            Opcode::MinU => 230,
        }
    }

    /// Decodes an opcode byte: `Some(op)` exactly when `op` is encoded by `opcode`.
    pub fn from_u8(opcode: u8) -> (r: Option<Self>)
        ensures
            r matches Some(op) ==> op.byte() == opcode,
            r is None <==> !Self::is_opcode_byte(opcode),
    {
        let r = match opcode {
            0 => Some(Opcode::Trap),
            1 => Some(Opcode::Fallthrough),
            10 => Some(Opcode::Ecalli),
            20 => Some(Opcode::LoadImm64),
            30 => Some(Opcode::StoreImmU8),
            31 => Some(Opcode::StoreImmU16),
            32 => Some(Opcode::StoreImmU32),
            33 => Some(Opcode::StoreImmU64),
            40 => Some(Opcode::Jump),
            50 => Some(Opcode::JumpInd),
            51 => Some(Opcode::LoadImm),
            52 => Some(Opcode::LoadU8),
            53 => Some(Opcode::LoadI8),
            54 => Some(Opcode::LoadU16),
            55 => Some(Opcode::LoadI16),
            56 => Some(Opcode::LoadU32),
            57 => Some(Opcode::LoadI32),
            58 => Some(Opcode::LoadU64),
            59 => Some(Opcode::StoreU8),
            60 => Some(Opcode::StoreU16),
            61 => Some(Opcode::StoreU32),
            62 => Some(Opcode::StoreU64),
            70 => Some(Opcode::StoreImmIndU8),
            71 => Some(Opcode::StoreImmIndU16),
            72 => Some(Opcode::StoreImmIndU32),
            73 => Some(Opcode::StoreImmIndU64),
            80 => Some(Opcode::LoadImmJump),
            81 => Some(Opcode::BranchEqImm),
            82 => Some(Opcode::BranchNeImm),
            83 => Some(Opcode::BranchLtUImm),
            84 => Some(Opcode::BranchLeUImm),
            85 => Some(Opcode::BranchGeUImm),
            86 => Some(Opcode::BranchGtUImm),
            87 => Some(Opcode::BranchLtSImm),
            88 => Some(Opcode::BranchLeSImm),
            89 => Some(Opcode::BranchGeSImm),
            90 => Some(Opcode::BranchGtSImm),
            100 => Some(Opcode::MoveReg),
            101 => Some(Opcode::Sbrk),
            102 => Some(Opcode::CountSetBits64),
            103 => Some(Opcode::CountSetBits32),
            104 => Some(Opcode::LeadingZeroBits64),
            105 => Some(Opcode::LeadingZeroBits32),
            106 => Some(Opcode::TrailingZeroBits64),
            107 => Some(Opcode::TrailingZeroBits32),
            108 => Some(Opcode::SignExtend8),
            109 => Some(Opcode::SignExtend16),
            110 => Some(Opcode::ZeroExtend16),
            111 => Some(Opcode::ReverseBytes),
            120 => Some(Opcode::StoreIndU8),
            121 => Some(Opcode::StoreIndU16),
            122 => Some(Opcode::StoreIndU32),
            123 => Some(Opcode::StoreIndU64),
            124 => Some(Opcode::LoadIndU8),
            125 => Some(Opcode::LoadIndI8),
            126 => Some(Opcode::LoadIndU16),
            127 => Some(Opcode::LoadIndI16),
            128 => Some(Opcode::LoadIndU32),
            129 => Some(Opcode::LoadIndI32),
            130 => Some(Opcode::LoadIndU64),
            131 => Some(Opcode::AddImm32),
            132 => Some(Opcode::AndImm),
            133 => Some(Opcode::XorImm),
            134 => Some(Opcode::OrImm),
            135 => Some(Opcode::MulImm32),
            136 => Some(Opcode::SetLtUImm),
            137 => Some(Opcode::SetLtSImm),
            138 => Some(Opcode::ShloLImm32),
            139 => Some(Opcode::ShloRImm32),
            140 => Some(Opcode::SharRImm32),
            141 => Some(Opcode::NegAddImm32),
            142 => Some(Opcode::SetGtUImm),
            143 => Some(Opcode::SetGtSImm),
            144 => Some(Opcode::ShloLImmAlt32),
            145 => Some(Opcode::ShloRImmAlt32),
            146 => Some(Opcode::SharRImmAlt32),
            147 => Some(Opcode::CmovIzImm),
            148 => Some(Opcode::CmovNzImm),
            149 => Some(Opcode::AddImm64),
            150 => Some(Opcode::MulImm64),
            151 => Some(Opcode::ShloLImm64),
            152 => Some(Opcode::ShloRImm64),
            153 => Some(Opcode::SharRImm64),
            154 => Some(Opcode::NegAddImm64),
            155 => Some(Opcode::ShloLImmAlt64),
            156 => Some(Opcode::ShloRImmAlt64),
            157 => Some(Opcode::SharRImmAlt64),
            158 => Some(Opcode::RotRImm64),
            159 => Some(Opcode::RotRImmAlt64),
            160 => Some(Opcode::RotRImm32),
            161 => Some(Opcode::RotRImmAlt32),
            170 => Some(Opcode::BranchEq),
            171 => Some(Opcode::BranchNe),
            172 => Some(Opcode::BranchLtU),
            173 => Some(Opcode::BranchLtS),
            174 => Some(Opcode::BranchGeU),
            175 => Some(Opcode::BranchGeS),
            180 => Some(Opcode::LoadImmJumpInd),
            190 => Some(Opcode::Add32),
            191 => Some(Opcode::Sub32),
            192 => Some(Opcode::Mul32),
            193 => Some(Opcode::DivU32),
            194 => Some(Opcode::DivS32),
            195 => Some(Opcode::RemU32),
            196 => Some(Opcode::RemS32),
            197 => Some(Opcode::ShloL32),
            198 => Some(Opcode::ShloR32),
            199 => Some(Opcode::SharR32),
            200 => Some(Opcode::Add64),
            201 => Some(Opcode::Sub64),
            202 => Some(Opcode::Mul64),
            203 => Some(Opcode::DivU64),
            204 => Some(Opcode::DivS64),
            205 => Some(Opcode::RemU64),
            206 => Some(Opcode::RemS64),
            207 => Some(Opcode::ShloL64),
            208 => Some(Opcode::ShloR64),
            209 => Some(Opcode::SharR64),
            210 => Some(Opcode::And),
            211 => Some(Opcode::Xor),
            212 => Some(Opcode::Or),
            213 => Some(Opcode::MulUpperSS),
            214 => Some(Opcode::MulUpperUU),
            215 => Some(Opcode::MulUpperSU),
            216 => Some(Opcode::SetLtU),
            217 => Some(Opcode::SetLtS),
            218 => Some(Opcode::CmovIz),
            219 => Some(Opcode::CmovNz),
            220 => Some(Opcode::RotL64),
            221 => Some(Opcode::RotL32),
            222 => Some(Opcode::RotR64),
            223 => Some(Opcode::RotR32),
            224 => Some(Opcode::AndInv),
            225 => Some(Opcode::OrInv),
            226 => Some(Opcode::Xnor),
            227 => Some(Opcode::Max),
            228 => Some(Opcode::MaxU),
            229 => Some(Opcode::Min),
            230 => Some(Opcode::MinU),
            _ => None,
        };
        proof {
            if let Some(op) = r {
                assert(op.byte() == opcode);
            }
            if r is None {
                assert forall|op: Opcode| op.byte() != opcode by {
                    match op {
                        Opcode::Trap => {},
                        Opcode::Fallthrough => {},
                        Opcode::Ecalli => {},
                        Opcode::LoadImm64 => {},
                        Opcode::StoreImmU8 => {},
                        Opcode::StoreImmU16 => {},
                        Opcode::StoreImmU32 => {},
                        Opcode::StoreImmU64 => {},
                        Opcode::Jump => {},
                        Opcode::JumpInd => {},
                        Opcode::LoadImm => {},
                        Opcode::LoadU8 => {},
                        Opcode::LoadI8 => {},
                        Opcode::LoadU16 => {},
                        Opcode::LoadI16 => {},
                        Opcode::LoadU32 => {},
                        Opcode::LoadI32 => {},
                        Opcode::LoadU64 => {},
                        Opcode::StoreU8 => {},
                        Opcode::StoreU16 => {},
                        Opcode::StoreU32 => {},
                        Opcode::StoreU64 => {},
                        Opcode::StoreImmIndU8 => {},
                        Opcode::StoreImmIndU16 => {},
                        Opcode::StoreImmIndU32 => {},
                        Opcode::StoreImmIndU64 => {},
                        Opcode::LoadImmJump => {},
                        Opcode::BranchEqImm => {},
                        Opcode::BranchNeImm => {},
                        Opcode::BranchLtUImm => {},
                        Opcode::BranchLeUImm => {},
                        Opcode::BranchGeUImm => {},
                        Opcode::BranchGtUImm => {},
                        Opcode::BranchLtSImm => {},
                        Opcode::BranchLeSImm => {},
                        Opcode::BranchGeSImm => {},
                        Opcode::BranchGtSImm => {},
                        Opcode::MoveReg => {},
                        Opcode::Sbrk => {},
                        Opcode::CountSetBits64 => {},
                        Opcode::CountSetBits32 => {},
                        Opcode::LeadingZeroBits64 => {},
                        Opcode::LeadingZeroBits32 => {},
                        Opcode::TrailingZeroBits64 => {},
                        Opcode::TrailingZeroBits32 => {},
                        Opcode::SignExtend8 => {},
                        Opcode::SignExtend16 => {},
                        Opcode::ZeroExtend16 => {},
                        Opcode::ReverseBytes => {},
                        Opcode::StoreIndU8 => {},
                        Opcode::StoreIndU16 => {},
                        Opcode::StoreIndU32 => {},
                        Opcode::StoreIndU64 => {},
                        Opcode::LoadIndU8 => {},
                        Opcode::LoadIndI8 => {},
                        Opcode::LoadIndU16 => {},
                        Opcode::LoadIndI16 => {},
                        Opcode::LoadIndU32 => {},
                        Opcode::LoadIndI32 => {},
                        Opcode::LoadIndU64 => {},
                        Opcode::AddImm32 => {},
                        Opcode::AndImm => {},
                        Opcode::XorImm => {},
                        Opcode::OrImm => {},
                        Opcode::MulImm32 => {},
                        Opcode::SetLtUImm => {},
                        Opcode::SetLtSImm => {},
                        Opcode::ShloLImm32 => {},
                        Opcode::ShloRImm32 => {},
                        Opcode::SharRImm32 => {},
                        Opcode::NegAddImm32 => {},
                        Opcode::SetGtUImm => {},
                        Opcode::SetGtSImm => {},
                        Opcode::ShloLImmAlt32 => {},
                        Opcode::ShloRImmAlt32 => {},
                        Opcode::SharRImmAlt32 => {},
                        Opcode::CmovIzImm => {},
                        Opcode::CmovNzImm => {},
                        Opcode::AddImm64 => {},
                        Opcode::MulImm64 => {},
                        Opcode::ShloLImm64 => {},
                        Opcode::ShloRImm64 => {},
                        Opcode::SharRImm64 => {},
                        Opcode::NegAddImm64 => {},
                        Opcode::ShloLImmAlt64 => {},
                        Opcode::ShloRImmAlt64 => {},
                        Opcode::SharRImmAlt64 => {},
                        Opcode::RotRImm64 => {},
                        Opcode::RotRImmAlt64 => {},
                        Opcode::RotRImm32 => {},
                        Opcode::RotRImmAlt32 => {},
                        Opcode::BranchEq => {},
                        Opcode::BranchNe => {},
                        Opcode::BranchLtU => {},
                        Opcode::BranchLtS => {},
                        Opcode::BranchGeU => {},
                        Opcode::BranchGeS => {},
                        Opcode::LoadImmJumpInd => {},
                        Opcode::Add32 => {},
                        Opcode::Sub32 => {},
                        Opcode::Mul32 => {},
                        Opcode::DivU32 => {},
                        Opcode::DivS32 => {},
                        Opcode::RemU32 => {},
                        Opcode::RemS32 => {},
                        Opcode::ShloL32 => {},
                        Opcode::ShloR32 => {},
                        Opcode::SharR32 => {},
                        Opcode::Add64 => {},
                        Opcode::Sub64 => {},
                        Opcode::Mul64 => {},
                        Opcode::DivU64 => {},
                        Opcode::DivS64 => {},
                        Opcode::RemU64 => {},
                        Opcode::RemS64 => {},
                        Opcode::ShloL64 => {},
                        Opcode::ShloR64 => {},
                        Opcode::SharR64 => {},
                        Opcode::And => {},
                        Opcode::Xor => {},
                        Opcode::Or => {},
                        Opcode::MulUpperSS => {},
                        Opcode::MulUpperUU => {},
                        Opcode::MulUpperSU => {},
                        Opcode::SetLtU => {},
                        Opcode::SetLtS => {},
                        Opcode::CmovIz => {},
                        Opcode::CmovNz => {},
                        Opcode::RotL64 => {},
                        Opcode::RotL32 => {},
                        Opcode::RotR64 => {},
                        Opcode::RotR32 => {},
                        Opcode::AndInv => {},
                        Opcode::OrInv => {},
                        Opcode::Xnor => {},
                        Opcode::Max => {},
                        Opcode::MaxU => {},
                        Opcode::Min => {},
                        Opcode::MinU => {},
                    }
                }
            }
        }
        r
    }

    /// Whether this opcode ends a basic block.
    pub fn is_terminating(self) -> (r: bool)
        ensures
            r == self.terminates(),
    {
        matches!(
            self,
            Opcode::Trap
                | Opcode::Fallthrough
                | Opcode::Jump
                | Opcode::LoadImmJump
                | Opcode::JumpInd
                | Opcode::BranchEqImm
                | Opcode::BranchNeImm
                | Opcode::BranchLtUImm
                | Opcode::BranchLeUImm
                | Opcode::BranchGeUImm
                | Opcode::BranchGtUImm
                | Opcode::BranchLtSImm
                | Opcode::BranchLeSImm
                | Opcode::BranchGeSImm
                | Opcode::BranchGtSImm
                | Opcode::BranchEq
                | Opcode::BranchNe
                | Opcode::BranchLtU
                | Opcode::BranchLtS
                | Opcode::BranchGeU
                | Opcode::BranchGeS
                | Opcode::LoadImmJumpInd
        )
    }
}

/// Distinct opcodes have distinct bytes, so a byte names at most one opcode.
pub proof fn lemma_opcode_byte_injective(a: Opcode, b: Opcode)
    requires
        a.byte() == b.byte(),
    ensures
        a == b,
{
    match a {
        Opcode::Trap => { assert(b.byte() == 0u8); match b { Opcode::Trap => {}, _ => {} } },
        Opcode::Fallthrough => { assert(b.byte() == 1u8); match b { Opcode::Fallthrough => {}, _ => {} } },
        Opcode::Ecalli => { assert(b.byte() == 10u8); match b { Opcode::Ecalli => {}, _ => {} } },
        Opcode::LoadImm64 => { assert(b.byte() == 20u8); match b { Opcode::LoadImm64 => {}, _ => {} } },
        Opcode::StoreImmU8 => { assert(b.byte() == 30u8); match b { Opcode::StoreImmU8 => {}, _ => {} } },
        Opcode::StoreImmU16 => { assert(b.byte() == 31u8); match b { Opcode::StoreImmU16 => {}, _ => {} } },
        Opcode::StoreImmU32 => { assert(b.byte() == 32u8); match b { Opcode::StoreImmU32 => {}, _ => {} } },
        Opcode::StoreImmU64 => { assert(b.byte() == 33u8); match b { Opcode::StoreImmU64 => {}, _ => {} } },
        Opcode::Jump => { assert(b.byte() == 40u8); match b { Opcode::Jump => {}, _ => {} } },
        Opcode::JumpInd => { assert(b.byte() == 50u8); match b { Opcode::JumpInd => {}, _ => {} } },
        Opcode::LoadImm => { assert(b.byte() == 51u8); match b { Opcode::LoadImm => {}, _ => {} } },
        Opcode::LoadU8 => { assert(b.byte() == 52u8); match b { Opcode::LoadU8 => {}, _ => {} } },
        Opcode::LoadI8 => { assert(b.byte() == 53u8); match b { Opcode::LoadI8 => {}, _ => {} } },
        Opcode::LoadU16 => { assert(b.byte() == 54u8); match b { Opcode::LoadU16 => {}, _ => {} } },
        Opcode::LoadI16 => { assert(b.byte() == 55u8); match b { Opcode::LoadI16 => {}, _ => {} } },
        Opcode::LoadU32 => { assert(b.byte() == 56u8); match b { Opcode::LoadU32 => {}, _ => {} } },
        Opcode::LoadI32 => { assert(b.byte() == 57u8); match b { Opcode::LoadI32 => {}, _ => {} } },
        Opcode::LoadU64 => { assert(b.byte() == 58u8); match b { Opcode::LoadU64 => {}, _ => {} } },
        Opcode::StoreU8 => { assert(b.byte() == 59u8); match b { Opcode::StoreU8 => {}, _ => {} } },
        Opcode::StoreU16 => { assert(b.byte() == 60u8); match b { Opcode::StoreU16 => {}, _ => {} } },
        Opcode::StoreU32 => { assert(b.byte() == 61u8); match b { Opcode::StoreU32 => {}, _ => {} } },
        Opcode::StoreU64 => { assert(b.byte() == 62u8); match b { Opcode::StoreU64 => {}, _ => {} } },
        Opcode::StoreImmIndU8 => { assert(b.byte() == 70u8); match b { Opcode::StoreImmIndU8 => {}, _ => {} } },
        Opcode::StoreImmIndU16 => { assert(b.byte() == 71u8); match b { Opcode::StoreImmIndU16 => {}, _ => {} } },
        Opcode::StoreImmIndU32 => { assert(b.byte() == 72u8); match b { Opcode::StoreImmIndU32 => {}, _ => {} } },
        Opcode::StoreImmIndU64 => { assert(b.byte() == 73u8); match b { Opcode::StoreImmIndU64 => {}, _ => {} } },
        Opcode::LoadImmJump => { assert(b.byte() == 80u8); match b { Opcode::LoadImmJump => {}, _ => {} } },
        Opcode::BranchEqImm => { assert(b.byte() == 81u8); match b { Opcode::BranchEqImm => {}, _ => {} } },
        Opcode::BranchNeImm => { assert(b.byte() == 82u8); match b { Opcode::BranchNeImm => {}, _ => {} } },
        Opcode::BranchLtUImm => { assert(b.byte() == 83u8); match b { Opcode::BranchLtUImm => {}, _ => {} } },
        Opcode::BranchLeUImm => { assert(b.byte() == 84u8); match b { Opcode::BranchLeUImm => {}, _ => {} } },
        Opcode::BranchGeUImm => { assert(b.byte() == 85u8); match b { Opcode::BranchGeUImm => {}, _ => {} } },
        Opcode::BranchGtUImm => { assert(b.byte() == 86u8); match b { Opcode::BranchGtUImm => {}, _ => {} } },
        Opcode::BranchLtSImm => { assert(b.byte() == 87u8); match b { Opcode::BranchLtSImm => {}, _ => {} } },
        Opcode::BranchLeSImm => { assert(b.byte() == 88u8); match b { Opcode::BranchLeSImm => {}, _ => {} } },
        Opcode::BranchGeSImm => { assert(b.byte() == 89u8); match b { Opcode::BranchGeSImm => {}, _ => {} } },
        Opcode::BranchGtSImm => { assert(b.byte() == 90u8); match b { Opcode::BranchGtSImm => {}, _ => {} } },
        Opcode::MoveReg => { assert(b.byte() == 100u8); match b { Opcode::MoveReg => {}, _ => {} } },
        Opcode::Sbrk => { assert(b.byte() == 101u8); match b { Opcode::Sbrk => {}, _ => {} } },
        Opcode::CountSetBits64 => { assert(b.byte() == 102u8); match b { Opcode::CountSetBits64 => {}, _ => {} } },
        Opcode::CountSetBits32 => { assert(b.byte() == 103u8); match b { Opcode::CountSetBits32 => {}, _ => {} } },
        Opcode::LeadingZeroBits64 => { assert(b.byte() == 104u8); match b { Opcode::LeadingZeroBits64 => {}, _ => {} } },
        Opcode::LeadingZeroBits32 => { assert(b.byte() == 105u8); match b { Opcode::LeadingZeroBits32 => {}, _ => {} } },
        Opcode::TrailingZeroBits64 => { assert(b.byte() == 106u8); match b { Opcode::TrailingZeroBits64 => {}, _ => {} } },
        Opcode::TrailingZeroBits32 => { assert(b.byte() == 107u8); match b { Opcode::TrailingZeroBits32 => {}, _ => {} } },
        Opcode::SignExtend8 => { assert(b.byte() == 108u8); match b { Opcode::SignExtend8 => {}, _ => {} } },
        Opcode::SignExtend16 => { assert(b.byte() == 109u8); match b { Opcode::SignExtend16 => {}, _ => {} } },
        Opcode::ZeroExtend16 => { assert(b.byte() == 110u8); match b { Opcode::ZeroExtend16 => {}, _ => {} } },
        Opcode::ReverseBytes => { assert(b.byte() == 111u8); match b { Opcode::ReverseBytes => {}, _ => {} } },
        Opcode::StoreIndU8 => { assert(b.byte() == 120u8); match b { Opcode::StoreIndU8 => {}, _ => {} } },
        Opcode::StoreIndU16 => { assert(b.byte() == 121u8); match b { Opcode::StoreIndU16 => {}, _ => {} } },
        Opcode::StoreIndU32 => { assert(b.byte() == 122u8); match b { Opcode::StoreIndU32 => {}, _ => {} } },
        Opcode::StoreIndU64 => { assert(b.byte() == 123u8); match b { Opcode::StoreIndU64 => {}, _ => {} } },
        Opcode::LoadIndU8 => { assert(b.byte() == 124u8); match b { Opcode::LoadIndU8 => {}, _ => {} } },
        Opcode::LoadIndI8 => { assert(b.byte() == 125u8); match b { Opcode::LoadIndI8 => {}, _ => {} } },
        Opcode::LoadIndU16 => { assert(b.byte() == 126u8); match b { Opcode::LoadIndU16 => {}, _ => {} } },
        Opcode::LoadIndI16 => { assert(b.byte() == 127u8); match b { Opcode::LoadIndI16 => {}, _ => {} } },
        Opcode::LoadIndU32 => { assert(b.byte() == 128u8); match b { Opcode::LoadIndU32 => {}, _ => {} } },
        Opcode::LoadIndI32 => { assert(b.byte() == 129u8); match b { Opcode::LoadIndI32 => {}, _ => {} } },
        Opcode::LoadIndU64 => { assert(b.byte() == 130u8); match b { Opcode::LoadIndU64 => {}, _ => {} } },
        Opcode::AddImm32 => { assert(b.byte() == 131u8); match b { Opcode::AddImm32 => {}, _ => {} } },
        Opcode::AndImm => { assert(b.byte() == 132u8); match b { Opcode::AndImm => {}, _ => {} } },
        Opcode::XorImm => { assert(b.byte() == 133u8); match b { Opcode::XorImm => {}, _ => {} } },
        Opcode::OrImm => { assert(b.byte() == 134u8); match b { Opcode::OrImm => {}, _ => {} } },
        Opcode::MulImm32 => { assert(b.byte() == 135u8); match b { Opcode::MulImm32 => {}, _ => {} } },
        Opcode::SetLtUImm => { assert(b.byte() == 136u8); match b { Opcode::SetLtUImm => {}, _ => {} } },
        Opcode::SetLtSImm => { assert(b.byte() == 137u8); match b { Opcode::SetLtSImm => {}, _ => {} } },
        Opcode::ShloLImm32 => { assert(b.byte() == 138u8); match b { Opcode::ShloLImm32 => {}, _ => {} } },
        Opcode::ShloRImm32 => { assert(b.byte() == 139u8); match b { Opcode::ShloRImm32 => {}, _ => {} } },
        Opcode::SharRImm32 => { assert(b.byte() == 140u8); match b { Opcode::SharRImm32 => {}, _ => {} } },
        Opcode::NegAddImm32 => { assert(b.byte() == 141u8); match b { Opcode::NegAddImm32 => {}, _ => {} } },
        Opcode::SetGtUImm => { assert(b.byte() == 142u8); match b { Opcode::SetGtUImm => {}, _ => {} } },
        Opcode::SetGtSImm => { assert(b.byte() == 143u8); match b { Opcode::SetGtSImm => {}, _ => {} } },
        Opcode::ShloLImmAlt32 => { assert(b.byte() == 144u8); match b { Opcode::ShloLImmAlt32 => {}, _ => {} } },
        Opcode::ShloRImmAlt32 => { assert(b.byte() == 145u8); match b { Opcode::ShloRImmAlt32 => {}, _ => {} } },
        Opcode::SharRImmAlt32 => { assert(b.byte() == 146u8); match b { Opcode::SharRImmAlt32 => {}, _ => {} } },
        Opcode::CmovIzImm => { assert(b.byte() == 147u8); match b { Opcode::CmovIzImm => {}, _ => {} } },
        Opcode::CmovNzImm => { assert(b.byte() == 148u8); match b { Opcode::CmovNzImm => {}, _ => {} } },
        Opcode::AddImm64 => { assert(b.byte() == 149u8); match b { Opcode::AddImm64 => {}, _ => {} } },
        Opcode::MulImm64 => { assert(b.byte() == 150u8); match b { Opcode::MulImm64 => {}, _ => {} } },
        Opcode::ShloLImm64 => { assert(b.byte() == 151u8); match b { Opcode::ShloLImm64 => {}, _ => {} } },
        Opcode::ShloRImm64 => { assert(b.byte() == 152u8); match b { Opcode::ShloRImm64 => {}, _ => {} } },
        Opcode::SharRImm64 => { assert(b.byte() == 153u8); match b { Opcode::SharRImm64 => {}, _ => {} } },
        Opcode::NegAddImm64 => { assert(b.byte() == 154u8); match b { Opcode::NegAddImm64 => {}, _ => {} } },
        Opcode::ShloLImmAlt64 => { assert(b.byte() == 155u8); match b { Opcode::ShloLImmAlt64 => {}, _ => {} } },
        Opcode::ShloRImmAlt64 => { assert(b.byte() == 156u8); match b { Opcode::ShloRImmAlt64 => {}, _ => {} } },
        Opcode::SharRImmAlt64 => { assert(b.byte() == 157u8); match b { Opcode::SharRImmAlt64 => {}, _ => {} } },
        Opcode::RotRImm64 => { assert(b.byte() == 158u8); match b { Opcode::RotRImm64 => {}, _ => {} } },
        Opcode::RotRImmAlt64 => { assert(b.byte() == 159u8); match b { Opcode::RotRImmAlt64 => {}, _ => {} } },
        Opcode::RotRImm32 => { assert(b.byte() == 160u8); match b { Opcode::RotRImm32 => {}, _ => {} } },
        Opcode::RotRImmAlt32 => { assert(b.byte() == 161u8); match b { Opcode::RotRImmAlt32 => {}, _ => {} } },
        Opcode::BranchEq => { assert(b.byte() == 170u8); match b { Opcode::BranchEq => {}, _ => {} } },
        Opcode::BranchNe => { assert(b.byte() == 171u8); match b { Opcode::BranchNe => {}, _ => {} } },
        Opcode::BranchLtU => { assert(b.byte() == 172u8); match b { Opcode::BranchLtU => {}, _ => {} } },
        Opcode::BranchLtS => { assert(b.byte() == 173u8); match b { Opcode::BranchLtS => {}, _ => {} } },
        Opcode::BranchGeU => { assert(b.byte() == 174u8); match b { Opcode::BranchGeU => {}, _ => {} } },
        Opcode::BranchGeS => { assert(b.byte() == 175u8); match b { Opcode::BranchGeS => {}, _ => {} } },
        Opcode::LoadImmJumpInd => { assert(b.byte() == 180u8); match b { Opcode::LoadImmJumpInd => {}, _ => {} } },
        Opcode::Add32 => { assert(b.byte() == 190u8); match b { Opcode::Add32 => {}, _ => {} } },
        Opcode::Sub32 => { assert(b.byte() == 191u8); match b { Opcode::Sub32 => {}, _ => {} } },
        Opcode::Mul32 => { assert(b.byte() == 192u8); match b { Opcode::Mul32 => {}, _ => {} } },
        Opcode::DivU32 => { assert(b.byte() == 193u8); match b { Opcode::DivU32 => {}, _ => {} } },
        Opcode::DivS32 => { assert(b.byte() == 194u8); match b { Opcode::DivS32 => {}, _ => {} } },
        Opcode::RemU32 => { assert(b.byte() == 195u8); match b { Opcode::RemU32 => {}, _ => {} } },
        Opcode::RemS32 => { assert(b.byte() == 196u8); match b { Opcode::RemS32 => {}, _ => {} } },
        Opcode::ShloL32 => { assert(b.byte() == 197u8); match b { Opcode::ShloL32 => {}, _ => {} } },
        Opcode::ShloR32 => { assert(b.byte() == 198u8); match b { Opcode::ShloR32 => {}, _ => {} } },
        Opcode::SharR32 => { assert(b.byte() == 199u8); match b { Opcode::SharR32 => {}, _ => {} } },
        Opcode::Add64 => { assert(b.byte() == 200u8); match b { Opcode::Add64 => {}, _ => {} } },
        Opcode::Sub64 => { assert(b.byte() == 201u8); match b { Opcode::Sub64 => {}, _ => {} } },
        Opcode::Mul64 => { assert(b.byte() == 202u8); match b { Opcode::Mul64 => {}, _ => {} } },
        Opcode::DivU64 => { assert(b.byte() == 203u8); match b { Opcode::DivU64 => {}, _ => {} } },
        Opcode::DivS64 => { assert(b.byte() == 204u8); match b { Opcode::DivS64 => {}, _ => {} } },
        Opcode::RemU64 => { assert(b.byte() == 205u8); match b { Opcode::RemU64 => {}, _ => {} } },
        Opcode::RemS64 => { assert(b.byte() == 206u8); match b { Opcode::RemS64 => {}, _ => {} } },
        Opcode::ShloL64 => { assert(b.byte() == 207u8); match b { Opcode::ShloL64 => {}, _ => {} } },
        Opcode::ShloR64 => { assert(b.byte() == 208u8); match b { Opcode::ShloR64 => {}, _ => {} } },
        Opcode::SharR64 => { assert(b.byte() == 209u8); match b { Opcode::SharR64 => {}, _ => {} } },
        Opcode::And => { assert(b.byte() == 210u8); match b { Opcode::And => {}, _ => {} } },
        Opcode::Xor => { assert(b.byte() == 211u8); match b { Opcode::Xor => {}, _ => {} } },
        Opcode::Or => { assert(b.byte() == 212u8); match b { Opcode::Or => {}, _ => {} } },
        Opcode::MulUpperSS => { assert(b.byte() == 213u8); match b { Opcode::MulUpperSS => {}, _ => {} } },
        Opcode::MulUpperUU => { assert(b.byte() == 214u8); match b { Opcode::MulUpperUU => {}, _ => {} } },
        Opcode::MulUpperSU => { assert(b.byte() == 215u8); match b { Opcode::MulUpperSU => {}, _ => {} } },
        Opcode::SetLtU => { assert(b.byte() == 216u8); match b { Opcode::SetLtU => {}, _ => {} } },
        Opcode::SetLtS => { assert(b.byte() == 217u8); match b { Opcode::SetLtS => {}, _ => {} } },
        Opcode::CmovIz => { assert(b.byte() == 218u8); match b { Opcode::CmovIz => {}, _ => {} } },
        Opcode::CmovNz => { assert(b.byte() == 219u8); match b { Opcode::CmovNz => {}, _ => {} } },
        Opcode::RotL64 => { assert(b.byte() == 220u8); match b { Opcode::RotL64 => {}, _ => {} } },
        Opcode::RotL32 => { assert(b.byte() == 221u8); match b { Opcode::RotL32 => {}, _ => {} } },
        Opcode::RotR64 => { assert(b.byte() == 222u8); match b { Opcode::RotR64 => {}, _ => {} } },
        Opcode::RotR32 => { assert(b.byte() == 223u8); match b { Opcode::RotR32 => {}, _ => {} } },
        Opcode::AndInv => { assert(b.byte() == 224u8); match b { Opcode::AndInv => {}, _ => {} } },
        Opcode::OrInv => { assert(b.byte() == 225u8); match b { Opcode::OrInv => {}, _ => {} } },
        Opcode::Xnor => { assert(b.byte() == 226u8); match b { Opcode::Xnor => {}, _ => {} } },
        Opcode::Max => { assert(b.byte() == 227u8); match b { Opcode::Max => {}, _ => {} } },
        Opcode::MaxU => { assert(b.byte() == 228u8); match b { Opcode::MaxU => {}, _ => {} } },
        Opcode::Min => { assert(b.byte() == 229u8); match b { Opcode::Min => {}, _ => {} } },
        Opcode::MinU => { assert(b.byte() == 230u8); match b { Opcode::MinU => {}, _ => {} } },
    }
}

} // verus!
