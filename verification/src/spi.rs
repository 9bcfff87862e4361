use crate::pvm::blob::{var_u32_bytes, encode_var_u32, ProgramBlob};
use crate::pvm::instruction::{le_u32_bytes, le_value, lemma_le_u32_value, lemma_le_value_4};
use vstd::prelude::*;

verus! {

/// The three low little-endian bytes of `v`.
pub open spec fn u24_bytes(v: u32) -> Seq<u8> {
    le_u32_bytes(v).take(3)
}

/// Little-endian bytes of a 16-bit value.
pub open spec fn le_u16_bytes(v: u16) -> Seq<u8> {
    seq![v as u8, (v >> 8) as u8]
}

/// Two little-endian bytes of `v` spell `v`.
proof fn lemma_le_u16_value(v: u16)
    ensures
        le_value(le_u16_bytes(v)) == v,
{
    lemma_le_value_4(le_u16_bytes(v));
    assert(v as u8 == v & 0xff) by (bit_vector);
    assert((v >> 8) as u8 == (v >> 8) & 0xff) by (bit_vector);
    assert((v & 0xff) + 256 * ((v >> 8) & 0xff) == v) by (bit_vector);
}

/// A PVM program in the SPI container format: code blob, read-only and
/// read-write data, heap and stack sizes, and a metadata prefix.
pub struct SpiProgram {
    metadata: Vec<u8>,
    ro_data: Vec<u8>,
    rw_data: Vec<u8>,
    heap_pages: u16,
    stack_size: u32,
    code: ProgramBlob,
}

impl SpiProgram {
    pub closed spec fn spec_metadata(&self) -> Seq<u8> {
        self.metadata@
    }

    pub closed spec fn spec_ro_data(&self) -> Seq<u8> {
        self.ro_data@
    }

    pub closed spec fn spec_rw_data(&self) -> Seq<u8> {
        self.rw_data@
    }

    pub closed spec fn spec_heap_pages(&self) -> u16 {
        self.heap_pages
    }

    pub closed spec fn spec_stack_size(&self) -> u32 {
        self.stack_size
    }

    pub closed spec fn spec_code(&self) -> ProgramBlob {
        self.code
    }

    /// The raw SPI bytes: read-only and read-write data lengths (3 bytes each),
    /// heap pages (2 bytes), stack size (3 bytes), the two data sections, the
    /// code blob length (4 bytes) and the code blob.
    pub open spec fn spi_encoding(&self) -> Seq<u8> {
        let blob = self.spec_code().encoding();
        u24_bytes(self.spec_ro_data().len() as u32) + u24_bytes(self.spec_rw_data().len() as u32)
            + le_u16_bytes(self.spec_heap_pages()) + u24_bytes(self.spec_stack_size())
            + self.spec_ro_data() + self.spec_rw_data() + le_u32_bytes(blob.len() as u32) + blob
    }

    /// The SPI layout, as a reader sees it: the read-only and read-write data
    /// lengths (3 little-endian bytes each, so modulo 2^24), the heap pages
    /// (2 bytes) and the stack size (3 bytes) make an 11-byte header; the two
    /// data sections follow; then exactly four little-endian bytes spell the
    /// code blob's length, and the blob ends the output.
    pub proof fn spi_layout(&self)
        requires
            self.spec_ro_data().len() <= u32::MAX,
            self.spec_rw_data().len() <= u32::MAX,
            self.spec_code().encoding().len() <= u32::MAX,
        ensures
            ({
                let out = self.spi_encoding();
                let ro = self.spec_ro_data();
                let rw = self.spec_rw_data();
                let blob = self.spec_code().encoding();
                let k: int = 11 + ro.len() as int + rw.len() as int;
                &&& out.len() == k + 4 + blob.len()
                &&& le_value(out.subrange(0, 3)) == ro.len() % 0x100_0000
                &&& le_value(out.subrange(3, 6)) == rw.len() % 0x100_0000
                &&& le_value(out.subrange(6, 8)) == self.spec_heap_pages()
                &&& le_value(out.subrange(8, 11)) == self.spec_stack_size() % 0x100_0000
                &&& out.subrange(11, 11 + ro.len() as int) == ro
                &&& out.subrange(11 + ro.len() as int, k) == rw
                &&& le_value(out.subrange(k, k + 4)) == blob.len() % 0x1_0000_0000
                &&& out.subrange(k + 4, out.len() as int) == blob
            }),
    {
        let out = self.spi_encoding();
        let ro = self.spec_ro_data();
        let rw = self.spec_rw_data();
        let blob = self.spec_code().encoding();
        let k: int = 11 + ro.len() as int + rw.len() as int;
        let a = u24_bytes(ro.len() as u32);
        let b = u24_bytes(rw.len() as u32);
        let c = le_u16_bytes(self.spec_heap_pages());
        let d = u24_bytes(self.spec_stack_size());
        let l = le_u32_bytes(blob.len() as u32);
        assert(out =~= a + b + c + d + ro + rw + l + blob);
        assert(out.subrange(0, 3) =~= a);
        assert(out.subrange(3, 6) =~= b);
        assert(out.subrange(6, 8) =~= c);
        assert(out.subrange(8, 11) =~= d);
        assert(out.subrange(11, 11 + ro.len() as int) =~= ro);
        assert(out.subrange(11 + ro.len() as int, k) =~= rw);
        assert(out.subrange(k, k + 4) =~= l);
        assert(out.subrange(k + 4, out.len() as int) =~= blob);
        lemma_le_u32_value(ro.len() as u32);
        lemma_le_u32_value(rw.len() as u32);
        lemma_le_u32_value(self.spec_stack_size());
        lemma_le_u32_value(blob.len() as u32);
        lemma_le_u16_value(self.spec_heap_pages());
        assert(blob.len() % 0x1_0000_0000 == blob.len());
    }

    /// The full program: metadata length (variable-length), metadata, then the SPI bytes.
    pub open spec fn full_encoding(&self) -> Seq<u8> {
        var_u32_bytes(self.spec_metadata().len() as u32) + self.spec_metadata()
            + self.spi_encoding()
    }

    /// A program with empty metadata and data, 16 heap pages and a 64 KiB stack.
    #[must_use]
    pub fn new(code: ProgramBlob) -> (r: Self)
        ensures
            r.spec_metadata() == Seq::<u8>::empty(),
            r.spec_ro_data() == Seq::<u8>::empty(),
            r.spec_rw_data() == Seq::<u8>::empty(),
            r.spec_heap_pages() == 16,
            r.spec_stack_size() == 64 * 1024,
            r.spec_code() == code,
    {
        Self {
            metadata: Vec::new(),
            ro_data: Vec::new(),
            rw_data: Vec::new(),
            heap_pages: 16,
            stack_size: 64 * 1024,
            code,
        }
    }

    #[must_use]
    pub fn with_stack_size(self, size: u32) -> (r: Self)
        ensures
            r.spec_metadata() == self.spec_metadata(),
            r.spec_ro_data() == self.spec_ro_data(),
            r.spec_rw_data() == self.spec_rw_data(),
            r.spec_heap_pages() == self.spec_heap_pages(),
            r.spec_stack_size() == size,
            r.spec_code() == self.spec_code(),
    {
        let mut s = self;
        s.stack_size = size;
        s
    }

    #[must_use]
    pub fn with_heap_pages(self, pages: u16) -> (r: Self)
        ensures
            r.spec_metadata() == self.spec_metadata(),
            r.spec_ro_data() == self.spec_ro_data(),
            r.spec_rw_data() == self.spec_rw_data(),
            r.spec_heap_pages() == pages,
            r.spec_stack_size() == self.spec_stack_size(),
            r.spec_code() == self.spec_code(),
    {
        let mut s = self;
        s.heap_pages = pages;
        s
    }

    #[must_use]
    pub fn with_ro_data(self, data: Vec<u8>) -> (r: Self)
        ensures
            r.spec_metadata() == self.spec_metadata(),
            r.spec_ro_data() == data@,
            r.spec_rw_data() == self.spec_rw_data(),
            r.spec_heap_pages() == self.spec_heap_pages(),
            r.spec_stack_size() == self.spec_stack_size(),
            r.spec_code() == self.spec_code(),
    {
        let mut s = self;
        s.ro_data = data;
        s
    }

    #[must_use]
    pub fn with_rw_data(self, data: Vec<u8>) -> (r: Self)
        ensures
            r.spec_metadata() == self.spec_metadata(),
            r.spec_ro_data() == self.spec_ro_data(),
            r.spec_rw_data() == data@,
            r.spec_heap_pages() == self.spec_heap_pages(),
            r.spec_stack_size() == self.spec_stack_size(),
            r.spec_code() == self.spec_code(),
    {
        let mut s = self;
        s.rw_data = data;
        s
    }

    #[must_use]
    pub fn with_metadata(self, data: Vec<u8>) -> (r: Self)
        ensures
            r.spec_metadata() == data@,
            r.spec_ro_data() == self.spec_ro_data(),
            r.spec_rw_data() == self.spec_rw_data(),
            r.spec_heap_pages() == self.spec_heap_pages(),
            r.spec_stack_size() == self.spec_stack_size(),
            r.spec_code() == self.spec_code(),
    {
        let mut s = self;
        s.metadata = data;
        s
    }

    #[must_use]
    pub fn code(&self) -> (r: &ProgramBlob)
        ensures
            *r == self.spec_code(),
    {
        &self.code
    }

    #[must_use]
    pub fn ro_data(&self) -> (r: &[u8])
        ensures
            r@ == self.spec_ro_data(),
    {
        self.ro_data.as_slice()
    }

    #[must_use]
    pub fn rw_data(&self) -> (r: &[u8])
        ensures
            r@ == self.spec_rw_data(),
    {
        self.rw_data.as_slice()
    }

    #[must_use]
    pub fn heap_pages(&self) -> (r: u16)
        ensures
            r == self.spec_heap_pages(),
    {
        self.heap_pages
    }

    #[must_use]
    pub fn metadata(&self) -> (r: &[u8])
        ensures
            r@ == self.spec_metadata(),
    {
        self.metadata.as_slice()
    }

    /// Encode the full SPI program with metadata prefix.
    ///
    /// Format: `[varint: metadata_len][metadata_bytes][SPI header + data + code]`
    #[must_use]
    pub fn encode(&self) -> (r: Vec<u8>)
        ensures
            r@ == self.full_encoding(),
    {
        let mut spi = self.encode_spi();
        let mut output = encode_var_u32(self.metadata.len() as u32);
        append_slice(&mut output, self.metadata.as_slice());
        output.append(&mut spi);
        output
    }

    /// Encode just the raw SPI program without the metadata prefix.
    #[must_use]
    pub fn encode_spi(&self) -> (r: Vec<u8>)
        ensures
            r@ == self.spi_encoding(),
    {
        let mut code_blob = self.code.encode();
        let mut spi = Vec::new();
        append_slice(&mut spi, &encode_u24(self.ro_data.len() as u32));
        append_slice(&mut spi, &encode_u24(self.rw_data.len() as u32));
        spi.push(self.heap_pages as u8);
        spi.push((self.heap_pages >> 8) as u8);
        append_slice(&mut spi, &encode_u24(self.stack_size));
        append_slice(&mut spi, self.ro_data.as_slice());
        append_slice(&mut spi, self.rw_data.as_slice());
        let n = code_blob.len() as u32;
        spi.push(n as u8);
        spi.push((n >> 8) as u8);
        spi.push((n >> 16) as u8);
        spi.push((n >> 24) as u8);
        spi.append(&mut code_blob);
        proof {
            let blob = self.code.encoding();
            assert(spi@ =~= u24_bytes(self.ro_data@.len() as u32) + u24_bytes(
                self.rw_data@.len() as u32,
            ) + le_u16_bytes(self.heap_pages) + u24_bytes(self.stack_size) + self.ro_data@
                + self.rw_data@ + le_u32_bytes(blob.len() as u32) + blob);
        }
        spi
    }
}

/// Appends every byte of `src` to `dst`.
fn append_slice(dst: &mut Vec<u8>, src: &[u8])
    ensures
        final(dst)@ == old(dst)@ + src@,
{
    let mut i: usize = 0;
    while i < src.len()
        invariant
            i <= src.len(),
            dst@ == old(dst)@ + src@.take(i as int),
        decreases src.len() - i,
    {
        dst.push(src[i]);
        i += 1;
        assert(dst@ =~= old(dst)@ + src@.take(i as int));
    }
    assert(src@.take(src.len() as int) =~= src@);
}

/// The three low little-endian bytes of `value`.
pub fn encode_u24(value: u32) -> (r: [u8; 3])
    ensures
        r@ == u24_bytes(value),
{
    let r = [value as u8, (value >> 8) as u8, (value >> 16) as u8];
    assert(r@ =~= u24_bytes(value));
    r
}

} // verus!
