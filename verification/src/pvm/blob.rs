use super::instruction::{byte_range, le_u32_bytes, le_value, Instruction};
use super::peephole::{lemma_offset_mono, lemma_offset_step, offset_of};
use vstd::prelude::*;

verus! {

/// Number of continuation bytes in the variable-length encoding of `v`.
pub open spec fn var_u32_len(v: u32) -> nat {
    if v < 0x80 {
        0
    } else if v < 0x4000 {
        1
    } else if v < 0x20_0000 {
        2
    } else if v < 0x1000_0000 {
        3
    } else {
        4
    }
}

/// The value of the leading one bits that announce `l` continuation bytes:
/// `256 - 2^(8 - l)`, i.e. `l` one bits at the top of the first byte.
pub open spec fn length_marker(l: nat) -> nat {
    if l == 0 {
        0
    } else if l == 1 {
        0x80
    } else if l == 2 {
        0xC0
    } else if l == 3 {
        0xE0
    } else {
        0xF0
    }
}

/// Variable-length (JAM natural number) encoding of `v`: a first byte holding
/// `l` leading one bits and the high part `v / 256^l`, then the low `l` bytes
/// of `v` in little-endian order.
pub open spec fn var_u32_bytes(v: u32) -> Seq<u8> {
    let l = var_u32_len(v);
    seq![(length_marker(l) + (v as nat) / byte_range(l)) as u8] + le_u32_bytes(v).take(l as int)
}

/// Number of continuation bytes announced by a first byte `fb`: its leading one bits.
pub open spec fn leading_ones(fb: u8) -> nat {
    if fb < 0x80 {
        0
    } else if fb < 0xC0 {
        1
    } else if fb < 0xE0 {
        2
    } else if fb < 0xF0 {
        3
    } else if fb < 0xF8 {
        4
    } else if fb < 0xFC {
        5
    } else if fb < 0xFE {
        6
    } else if fb < 0xFF {
        7
    } else {
        8
    }
}

/// Decodes a variable-length number at the start of `b`: `(value, bytes used)`.
pub open spec fn decode_var(b: Seq<u8>) -> (int, nat) {
    let fb = b[0];
    let l = leading_ones(fb);
    if l == 8 {
        (le_value(b.subrange(1, 9)) as int, 9)
    } else {
        (
            (fb - length_marker(l)) * byte_range(l) + le_value(b.subrange(1, l + 1 as int)),
            l + 1,
        )
    }
}

/// Byte `c` of a packed bit mask, built from its first `n` bits: bit `j` is
/// set when flag `8c + j` is set.
pub open spec fn chunk_byte(bits: Seq<bool>, c: int, n: nat) -> u8
    decreases n,
{
    if n == 0 {
        0
    } else {
        let i = 8 * c + n - 1;
        chunk_byte(bits, c, (n - 1) as nat) | (if i < bits.len() && bits[i] {
            1u8 << ((n - 1) as u8)
        } else {
            0u8
        })
    }
}

/// Flags packed eight to a byte, least significant bit first.
pub open spec fn packed_mask(bits: Seq<bool>) -> Seq<u8> {
    Seq::new(((bits.len() + 7) / 8) as nat, |c: int| chunk_byte(bits, c, 8))
}

/// Bit `i` of a packed bit mask: bit `i % 8` (least significant first) of byte `i / 8`.
pub open spec fn mask_bit(mask: Seq<u8>, i: int) -> bool {
    (mask[i / 8] >> ((i % 8) as u8)) & 1 == 1
}

/// `mask` packs `bits` eight to a byte, least significant bit first, with the
/// unused bits of the last byte clear.
pub open spec fn packs(mask: Seq<u8>, bits: Seq<bool>) -> bool {
    &&& mask.len() == (bits.len() + 7) / 8
    &&& forall|i: int| 0 <= i < bits.len() ==> mask_bit(mask, i) == bits[i]
    &&& forall|i: int| bits.len() <= i < 8 * mask.len() ==> !mask_bit(mask, i)
}

/// The code bytes of an instruction sequence: the encodings one after another.
pub open spec fn code_bytes(instrs: Seq<Instruction>) -> Seq<u8>
    decreases instrs.len(),
{
    if instrs.len() == 0 {
        Seq::empty()
    } else {
        code_bytes(instrs.drop_last()) + instrs.last().encoding()
    }
}

/// One flag per code byte: set on the first byte of each instruction.
pub open spec fn start_bits(instrs: Seq<Instruction>) -> Seq<bool>
    decreases instrs.len(),
{
    if instrs.len() == 0 {
        Seq::empty()
    } else {
        start_bits(instrs.drop_last()) + Seq::new(
            instrs.last().encoding().len(),
            |k: int| k == 0,
        )
    }
}

/// The jump table entries as consecutive 4-byte little-endian addresses.
pub open spec fn jump_table_bytes(table: Seq<u32>) -> Seq<u8>
    decreases table.len(),
{
    if table.len() == 0 {
        Seq::empty()
    } else {
        jump_table_bytes(table.drop_last()) + le_u32_bytes(table.last())
    }
}

/// A PVM program blob: the instruction stream and its jump table.
pub struct ProgramBlob {
    instructions: Vec<Instruction>,
    jump_table: Vec<u32>,
}

impl ProgramBlob {
    /// The instructions of the program.
    pub closed spec fn instrs(&self) -> Seq<Instruction> {
        self.instructions@
    }

    /// The jump table of the program.
    pub closed spec fn jumps(&self) -> Seq<u32> {
        self.jump_table@
    }

    /// The bytes `encode` produces: jump table length, entry size (4, or 0 for
    /// an empty table), code length, jump table entries, code, instruction-start mask.
    pub open spec fn encoding(&self) -> Seq<u8> {
        let code = code_bytes(self.instrs());
        let table = self.jumps();
        var_u32_bytes(table.len() as u32) + seq![if table.len() == 0 { 0u8 } else { 4u8 }]
            + var_u32_bytes(code.len() as u32) + jump_table_bytes(table) + code + packed_mask(
            start_bits(self.instrs()),
        )
    }

    #[must_use]
    pub fn new(instructions: Vec<Instruction>) -> (r: Self)
        ensures
            r.instrs() == instructions@,
            r.jumps() == Seq::<u32>::empty(),
    {
        Self { instructions, jump_table: Vec::new() }
    }

    #[must_use]
    pub fn with_jump_table(self, jump_table: Vec<u32>) -> (r: Self)
        ensures
            r.instrs() == self.instrs(),
            r.jumps() == jump_table@,
    {
        let mut s = self;
        s.jump_table = jump_table;
        s
    }

    #[must_use]
    pub fn instructions(&self) -> (r: &[Instruction])
        ensures
            r@ == self.instrs(),
    {
        self.instructions.as_slice()
    }

    /// Encodes the program blob.
    #[must_use]
    pub fn encode(&self) -> (r: Vec<u8>)
        ensures
            r@ == self.encoding(),
    {
        let (mut code, mut mask) = self.encode_code_and_mask();
        let code_len = code.len();

        let mut blob = encode_var_u32(self.jump_table.len() as u32);

        let item_len: u8 = if self.jump_table.len() == 0 {
            0
        } else {
            4
        };
        blob.push(item_len);

        let mut code_len_enc = encode_var_u32(code_len as u32);
        blob.append(&mut code_len_enc);

        let mut i: usize = 0;
        while i < self.jump_table.len()
            invariant
                i <= self.jump_table.len(),
                blob@ == var_u32_bytes(self.jump_table@.len() as u32) + seq![item_len]
                    + var_u32_bytes(code_len as u32) + jump_table_bytes(
                    self.jump_table@.take(i as int),
                ),
            decreases self.jump_table.len() - i,
        {
            let addr = self.jump_table[i];
            let ghost before = blob@;
            blob.push(addr as u8);
            blob.push((addr >> 8) as u8);
            blob.push((addr >> 16) as u8);
            blob.push((addr >> 24) as u8);
            proof {
                let t = self.jump_table@.take(i + 1);
                assert(t.drop_last() =~= self.jump_table@.take(i as int));
                assert(blob@ =~= before + le_u32_bytes(addr));
            }
            i += 1;
        }
        assert(self.jump_table@.take(self.jump_table.len() as int) =~= self.jump_table@);

        blob.append(&mut code);
        blob.append(&mut mask);
        blob
    }

    /// Encodes the instruction stream and the mask of instruction start positions.
    pub fn encode_code_and_mask(&self) -> (r: (Vec<u8>, Vec<u8>))
        ensures
            r.0@ == code_bytes(self.instrs()),
            r.1@ == packed_mask(start_bits(self.instrs())),
    {
        let mut code: Vec<u8> = Vec::new();
        let mut mask_bits: Vec<bool> = Vec::new();

        let mut k: usize = 0;
        while k < self.instructions.len()
            invariant
                k <= self.instructions.len(),
                code@ == code_bytes(self.instructions@.take(k as int)),
                mask_bits@ == start_bits(self.instructions@.take(k as int)),
            decreases self.instructions.len() - k,
        {
            let mut encoded = self.instructions[k].encode();
            let n = encoded.len();
            let ghost enc = encoded@;
            let mut i: usize = 0;
            let ghost bits_before = mask_bits@;
            while i < n
                invariant
                    i <= n,
                    mask_bits@ == bits_before + Seq::new(i as nat, |j: int| j == 0),
                decreases n - i,
            {
                mask_bits.push(i == 0);
                i += 1;
                assert(mask_bits@ =~= bits_before + Seq::new(i as nat, |j: int| j == 0));
            }
            code.append(&mut encoded);
            proof {
                let t = self.instructions@.take(k + 1);
                assert(t.drop_last() =~= self.instructions@.take(k as int));
                assert(t.last() == self.instructions@[k as int]);
            }
            k += 1;
        }
        assert(self.instructions@.take(self.instructions.len() as int) =~= self.instructions@);
        let mask = pack_mask(&mask_bits);
        (code, mask)
    }
}

/// Packs flags eight to a byte, least significant bit first.
pub fn pack_mask(bits: &[bool]) -> (r: Vec<u8>)
    ensures
        r@ == packed_mask(bits@),
{
    let n = bits.len();
    let nchunks: usize = n / 8 + if n % 8 != 0 {
        1
    } else {
        0
    };
    assert(nchunks == (n + 7) / 8);
    let mut packed: Vec<u8> = Vec::new();
    let mut c: usize = 0;
    while c < nchunks
        invariant
            n == bits@.len(),
            nchunks == (n + 7) / 8,
            c <= nchunks,
            packed@ =~= Seq::new(c as nat, |k: int| chunk_byte(bits@, k, 8)),
        decreases nchunks - c,
    {
        let start = c * 8;
        let mut byte: u8 = 0;
        let mut i: u8 = 0;
        while i < 8
            invariant
                n == bits@.len(),
                c < nchunks,
                nchunks == (n + 7) / 8,
                start == 8 * c,
                i <= 8,
                byte == chunk_byte(bits@, c as int, i as nat),
            decreases 8 - i,
        {
            let in_range = (i as usize) < n - start;
            if in_range && bits[start + i as usize] {
                byte = byte | (1u8 << i);
            } else {
                assert(byte | 0u8 == byte) by (bit_vector);
            }
            i += 1;
        }
        packed.push(byte);
        c += 1;
    }
    packed
}

/// Variable-length encoding of a 32-bit number (JAM natural number format).
pub fn encode_var_u32(value: u32) -> (r: Vec<u8>)
    ensures
        r@ == var_u32_bytes(value),
{
    reveal_with_fuel(byte_range, 5);
    let mut dest = Vec::new();
    if value < 0x80 {
        dest.push(value as u8);
        assert(byte_range(0) == 1);
        assert((value as nat) / 1 == value);
        assert(dest@ =~= var_u32_bytes(value));
    } else if value < 0x4000 {
        assert(value >> 8 == value / 256) by (bit_vector);
        dest.push((0x80 + (value >> 8)) as u8);
        dest.push(value as u8);
        assert(var_u32_len(value) == 1);
        assert(var_u32_bytes(value)[0] == (0x80 + (value >> 8)) as u8);
        assert(dest@ =~= var_u32_bytes(value));
    } else if value < 0x20_0000 {
        assert(value >> 16 == value / 65536) by (bit_vector);
        dest.push((0xC0 + (value >> 16)) as u8);
        dest.push(value as u8);
        dest.push((value >> 8) as u8);
        assert(dest@ =~= var_u32_bytes(value));
    } else if value < 0x1000_0000 {
        assert(value >> 24 == value / 16777216) by (bit_vector);
        dest.push((0xE0 + (value >> 24)) as u8);
        dest.push(value as u8);
        dest.push((value >> 8) as u8);
        dest.push((value >> 16) as u8);
        assert(dest@ =~= var_u32_bytes(value));
    } else {
        assert(byte_range(4) == 4294967296);
        assert((value as nat) / 4294967296 == 0);
        dest.push(0xF0);
        dest.push(value as u8);
        dest.push((value >> 8) as u8);
        dest.push((value >> 16) as u8);
        dest.push((value >> 24) as u8);
        assert(dest@ =~= var_u32_bytes(value));
    }
    dest
}

proof fn lemma_or_bit(x: u8, k: u8, j: u8, b: bool)
    by (bit_vector)
    requires
        k < 8,
        j < 8,
    ensures
        (((x | (if b {
            1u8 << k
        } else {
            0u8
        })) >> j) & 1 == 1) == (((x >> j) & 1 == 1) || (b && j == k)),
{
}

proof fn lemma_chunk_bit(bits: Seq<bool>, c: int, n: nat, j: u8)
    requires
        n <= 8,
        j < 8,
        c >= 0,
    ensures
        ((chunk_byte(bits, c, n) >> j) & 1 == 1) == ((j as nat) < n && 8 * c + j < bits.len()
            && bits[8 * c + j]),
    decreases n,
{
    if n == 0 {
        assert((0u8 >> j) & 1 == 0) by (bit_vector);
    } else {
        lemma_chunk_bit(bits, c, (n - 1) as nat, j);
        let i = 8 * c + n - 1;
        lemma_or_bit(
            chunk_byte(bits, c, (n - 1) as nat),
            (n - 1) as u8,
            j,
            i < bits.len() && bits[i],
        );
    }
}

/// A packed mask holds every flag at its position and nothing in the padding.
pub proof fn packed_mask_holds_bits(bits: Seq<bool>)
    ensures
        packs(packed_mask(bits), bits),
{
    let m = packed_mask(bits);
    assert forall|i: int| 0 <= i < bits.len() implies mask_bit(m, i) == bits[i] by {
        lemma_chunk_bit(bits, i / 8, 8, (i % 8) as u8);
    }
    assert forall|i: int| bits.len() <= i < 8 * m.len() implies !mask_bit(m, i) by {
        lemma_chunk_bit(bits, i / 8, 8, (i % 8) as u8);
    }
}

/// Decoding the variable-length encoding of `v` gives back `v` and consumes
/// exactly the encoded bytes.
pub proof fn var_u32_roundtrip(v: u32)
    ensures
        decode_var(var_u32_bytes(v)) == (v as int, var_u32_bytes(v).len()),
{
    reveal_with_fuel(byte_range, 5);
    let b = var_u32_bytes(v);
    let l = var_u32_len(v);
    let rest = b.subrange(1, l + 1 as int);
    assert(rest =~= le_u32_bytes(v).take(l as int));
    crate::pvm::instruction::lemma_le_value_4(rest);
    assert(byte_range(1) == 256 && byte_range(2) == 65536 && byte_range(3) == 16777216);
    assert(b.len() == l + 1);
    let b0 = v as u8;
    let b1 = (v >> 8) as u8;
    let b2 = (v >> 16) as u8;
    let b3 = (v >> 24) as u8;
    if v < 0x80 {
        assert(v < 0x80 ==> (v as u8) == v) by (bit_vector);
        assert((v as nat) / 1 == v);
        assert(b[0] == v);
    } else if v < 0x4000 {
        assert(0x80 <= v < 0x4000 ==> (v >> 8) < 64 && (v >> 8) == v / 256 && (v >> 8) * 256 + (
        v as u8) == v) by (bit_vector);
        assert(b[0] == 0x80 + (v >> 8));
        assert(leading_ones(b[0]) == 1);
        assert(rest[0] == b0);
        assert(le_value(rest) == b0);
        assert(decode_var(b).0 == (b[0] - 0x80) * 256 + le_value(rest));
    } else if v < 0x20_0000 {
        assert(0x4000 <= v < 0x20_0000 ==> (v >> 16) < 32 && (v >> 16) == v / 65536 && (v >> 16)
            * 65536 + (v as u8) + 256 * ((v >> 8) as u8) == v) by (bit_vector);
        assert(b[0] == 0xC0 + (v >> 16));
        assert(leading_ones(b[0]) == 2);
        assert(rest[0] == b0 && rest[1] == b1);
    } else if v < 0x1000_0000 {
        assert(0x20_0000 <= v < 0x1000_0000 ==> (v >> 24) < 16 && (v >> 24) == v / 16777216 && (v
            >> 24) * 16777216 + (v as u8) + 256 * ((v >> 8) as u8) + 65536 * ((v >> 16) as u8)
            == v) by (bit_vector);
        assert(b[0] == 0xE0 + (v >> 24));
        assert(leading_ones(b[0]) == 3);
        assert(rest[0] == b0 && rest[1] == b1 && rest[2] == b2);
    } else {
        assert((v as u8) + 256 * ((v >> 8) as u8) + 65536 * ((v >> 16) as u8) + 16777216 * ((v
            >> 24) as u8) == v) by (bit_vector);
        assert((v as nat) / 4294967296 == 0);
        assert(b[0] == 0xF0);
        assert(leading_ones(b[0]) == 4);
        assert(rest[0] == b0 && rest[1] == b1 && rest[2] == b2 && rest[3] == b3);
    }
}

/// The instruction-start mask marks exactly the first byte of each
/// instruction: it has one flag per code byte, and the flag of byte `pc` is
/// set exactly when some instruction with a non-empty encoding starts at `pc`.
pub proof fn start_bits_mark_instruction_starts(instrs: Seq<Instruction>, pc: int)
    ensures
        start_bits(instrs).len() == code_bytes(instrs).len(),
        0 <= pc < code_bytes(instrs).len() ==> (start_bits(instrs)[pc] <==> exists|i: int|
            0 <= i < instrs.len() && offset_of(instrs, i) == pc && #[trigger] instrs[i].encoding().len() > 0),
    decreases instrs.len(),
{
    if instrs.len() > 0 {
        let n = instrs.len() as int;
        let p = instrs.drop_last();
        let l = code_bytes(p).len() as int;
        start_bits_mark_instruction_starts(p, pc);
        assert(instrs.take(n - 1) =~= p);
        assert(p.take(p.len() as int) =~= p);
        if 0 <= pc < code_bytes(instrs).len() {
            if pc < l {
                if start_bits(instrs)[pc] {
                    let i = choose|i: int| 0 <= i < p.len() && offset_of(p, i) == pc && #[trigger] p[i].encoding().len() > 0;
                    assert(instrs.take(i) =~= p.take(i));
                    assert(instrs[i] == p[i]);
                }
                if exists|i: int| 0 <= i < instrs.len() && offset_of(instrs, i) == pc && #[trigger] instrs[i].encoding().len() > 0 {
                    let i = choose|i: int| 0 <= i < instrs.len() && offset_of(instrs, i) == pc && #[trigger] instrs[i].encoding().len() > 0;
                    if i == n - 1 {
                        assert(offset_of(instrs, n - 1) == l);
                    }
                    assert(instrs.take(i) =~= p.take(i));
                    assert(instrs[i] == p[i]);
                }
            } else {
                assert(offset_of(instrs, n - 1) == l);
                if pc == l {
                    assert(instrs[n - 1].encoding().len() > 0);
                }
                if exists|i: int| 0 <= i < instrs.len() && offset_of(instrs, i) == pc && #[trigger] instrs[i].encoding().len() > 0 {
                    let i = choose|i: int| 0 <= i < instrs.len() && offset_of(instrs, i) == pc && #[trigger] instrs[i].encoding().len() > 0;
                    if i < n - 1 {
                        lemma_offset_step(instrs, i);
                        lemma_offset_mono(instrs, i + 1, n - 1);
                    }
                }
            }
        }
    }
}

} // verus!
