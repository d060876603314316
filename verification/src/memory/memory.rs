use vstd::prelude::*;
use crate::cfg::memory_cfg::MEMORY_SIZE;
use crate::cfg::memory_cfg::TOHOST_PADDR;
use crate::interface::CtrlSignals;

verus! {

/// The byte index that an address names: addresses wrap around the memory size.
pub open spec fn mem_index(address: u64) -> int {
    (address % (MEMORY_SIZE as u64)) as int
}

/// The little-endian value of the `n` bytes of `m` that start at `a`.
pub open spec fn le_val(m: Seq<u8>, a: int, n: nat) -> nat
    decreases n,
{
    if n == 0 {
        0
    } else {
        m[a] as nat + 256 * le_val(m, a + 1, (n - 1) as nat)
    }
}

/// Byte `k` (counting from the least significant) of `v`.
pub open spec fn byte_of(v: u64, k: int) -> u8 {
    ((v >> (8 * k) as u64) & 0xff) as u8
}

/// `m` with the low `n` bytes of `v` written little-endian from `a` on.
pub open spec fn store_bytes(m: Seq<u8>, a: int, n: int, v: u64) -> Seq<u8> {
    Seq::new(m.len(), |j: int| if a <= j < a + n { byte_of(v, j - a) } else { m[j] })
}

/// The two's-complement sign extension of an `n`-byte value `v` to 64 bits.
pub open spec fn sign_extend(v: nat, n: nat) -> u64 {
    if n == 1 {
        if v >= 0x80 { (v + 0xffff_ffff_ffff_ff00) as u64 } else { v as u64 }
    } else if n == 2 {
        if v >= 0x8000 { (v + 0xffff_ffff_ffff_0000) as u64 } else { v as u64 }
    } else if n == 4 {
        if v >= 0x8000_0000 { (v + 0xffff_ffff_0000_0000) as u64 } else { v as u64 }
    } else {
        v as u64
    }
}

/// A load of the width just stored, at the address just stored to, gives back the
/// stored value cut to that width.
pub proof fn lemma_load_after_store(m: Seq<u8>, a: int, v: u64)
    requires
        0 <= a,
    ensures
        a + 1 <= m.len() ==> le_val(store_bytes(m, a, 1, v), a, 1) == v % 0x100,
        a + 2 <= m.len() ==> le_val(store_bytes(m, a, 2, v), a, 2) == v % 0x1_0000,
        a + 4 <= m.len() ==> le_val(store_bytes(m, a, 4, v), a, 4) == v % 0x1_0000_0000,
        a + 8 <= m.len() ==> le_val(store_bytes(m, a, 8, v), a, 8) == v,
{
    lemma_le_bytes(store_bytes(m, a, 1, v), a);
    lemma_le_bytes(store_bytes(m, a, 2, v), a);
    lemma_le_bytes(store_bytes(m, a, 4, v), a);
    lemma_le_bytes(store_bytes(m, a, 8, v), a);
    let b0 = byte_of(v, 0);
    let b1 = byte_of(v, 1);
    let b2 = byte_of(v, 2);
    let b3 = byte_of(v, 3);
    let b4 = byte_of(v, 4);
    let b5 = byte_of(v, 5);
    let b6 = byte_of(v, 6);
    let b7 = byte_of(v, 7);
    assert(b0 == v % 0x100) by (bit_vector)
        requires b0 == ((v >> 0u64) & 0xff) as u8;
    assert(b0 + 0x100 * b1 == v % 0x1_0000) by (bit_vector)
        requires b0 == ((v >> 0u64) & 0xff) as u8, b1 == ((v >> 8u64) & 0xff) as u8;
    assert(b0 + 0x100 * b1 + 0x1_0000 * b2 + 0x100_0000 * b3 == v % 0x1_0000_0000) by (bit_vector)
        requires
            b0 == ((v >> 0u64) & 0xff) as u8,
            b1 == ((v >> 8u64) & 0xff) as u8,
            b2 == ((v >> 16u64) & 0xff) as u8,
            b3 == ((v >> 24u64) & 0xff) as u8,
    ;
    assert(b0 + 0x100 * b1 + 0x1_0000 * b2 + 0x100_0000 * b3 + 0x1_0000_0000 * b4 + 0x100_0000_0000
        * b5 + 0x1_0000_0000_0000 * b6 + 0x100_0000_0000_0000 * b7 == v) by (bit_vector)
        requires
            b0 == ((v >> 0u64) & 0xff) as u8,
            b1 == ((v >> 8u64) & 0xff) as u8,
            b2 == ((v >> 16u64) & 0xff) as u8,
            b3 == ((v >> 24u64) & 0xff) as u8,
            b4 == ((v >> 32u64) & 0xff) as u8,
            b5 == ((v >> 40u64) & 0xff) as u8,
            b6 == ((v >> 48u64) & 0xff) as u8,
            b7 == ((v >> 56u64) & 0xff) as u8,
    ;
}

/// Storing back the doubleword just loaded leaves the memory unchanged.
pub proof fn lemma_store_loaded_doubleword(m: Seq<u8>, a: int)
    requires
        0 <= a,
        a + 8 <= m.len(),
    ensures
        store_bytes(m, a, 8, le_val(m, a, 8) as u64) == m,
{
    reveal_with_fuel(le_val, 9);
    let b0 = m[a] as u64;
    let b1 = m[a + 1] as u64;
    let b2 = m[a + 2] as u64;
    let b3 = m[a + 3] as u64;
    let b4 = m[a + 4] as u64;
    let b5 = m[a + 5] as u64;
    let b6 = m[a + 6] as u64;
    let b7 = m[a + 7] as u64;
    let v = le_val(m, a, 8) as u64;
    assert(v == b0 + 0x100 * b1 + 0x1_0000 * b2 + 0x100_0000 * b3 + 0x1_0000_0000 * b4
        + 0x100_0000_0000 * b5 + 0x1_0000_0000_0000 * b6 + 0x100_0000_0000_0000 * b7);
    assert({
        &&& (v >> 0u64) & 0xff == b0
        &&& (v >> 8u64) & 0xff == b1
        &&& (v >> 16u64) & 0xff == b2
        &&& (v >> 24u64) & 0xff == b3
        &&& (v >> 32u64) & 0xff == b4
        &&& (v >> 40u64) & 0xff == b5
        &&& (v >> 48u64) & 0xff == b6
        &&& (v >> 56u64) & 0xff == b7
    }) by (bit_vector)
        requires
            b0 < 0x100 && b1 < 0x100 && b2 < 0x100 && b3 < 0x100,
            b4 < 0x100 && b5 < 0x100 && b6 < 0x100 && b7 < 0x100,
            v == b0 + 0x100 * b1 + 0x1_0000 * b2 + 0x100_0000 * b3 + 0x1_0000_0000 * b4
                + 0x100_0000_0000 * b5 + 0x1_0000_0000_0000 * b6 + 0x100_0000_0000_0000 * b7,
    ;
    let w = store_bytes(m, a, 8, v);
    assert forall|j: int| 0 <= j < m.len() implies #[trigger] w[j] == m[j] by {
        if a <= j < a + 8 {
            assert(byte_of(v, j - a) == m[j]);
        }
    }
    assert(w =~= m);
}

/// A sign-extended word load cut back to 32 bits gives the word's four bytes.
pub proof fn lemma_word_truncates(m: Seq<u8>, a: int)
    requires
        0 <= a,
        a + 4 <= m.len(),
    ensures
        le_val(m, a, 4) < 0x1_0000_0000,
        sign_extend(le_val(m, a, 4), 4) as u32 == le_val(m, a, 4) as u32,
{
    reveal_with_fuel(le_val, 5);
    let v = le_val(m, a, 4);
    let v64 = v as u64;
    let w = sign_extend(v, 4);
    if v >= 0x8000_0000 {
        assert(w == v64 + 0xffff_ffff_0000_0000);
        assert(w as u32 == v64 as u32) by (bit_vector)
            requires
                w == v64 + 0xffff_ffff_0000_0000,
                v64 < 0x1_0000_0000,
        ;
    }
}

/// A store leaves every load of bytes it does not touch unchanged.
pub proof fn lemma_store_keeps_other_loads(m: Seq<u8>, a: int, n: int, v: u64, b: int, k: nat)
    requires
        0 <= b,
        b + k <= m.len(),
        b + k <= a || a + n <= b,
    ensures
        le_val(store_bytes(m, a, n, v), b, k) == le_val(m, b, k),
    decreases k,
{
    if k > 0 {
        lemma_store_keeps_other_loads(m, a, n, v, b + 1, (k - 1) as nat);
    }
}

/// Whether `c` is a hexadecimal digit in either case.
pub open spec fn is_hex_digit(c: char) -> bool {
    ('0' <= c <= '9') || ('a' <= c <= 'f') || ('A' <= c <= 'F')
}

/// The value of a hexadecimal digit.
pub open spec fn hex_digit_val(c: char) -> nat {
    if '0' <= c <= '9' {
        (c as nat - '0' as nat) as nat
    } else if 'a' <= c <= 'f' {
        (c as nat - 'a' as nat + 10) as nat
    } else {
        (c as nat - 'A' as nat + 10) as nat
    }
}

/// Whether a line is 32 hexadecimal digits, the text of 16 bytes.
pub open spec fn is_hex_line(s: Seq<char>) -> bool {
    s.len() == 32 && forall|i: int| 0 <= i < 32 ==> is_hex_digit(#[trigger] s[i])
}

/// The 16 bytes that a line of 32 hexadecimal digits spells, two digits per byte,
/// high digit first.
pub open spec fn hex_line_bytes(s: Seq<char>) -> Seq<u8> {
    Seq::new(16, |i: int| (hex_digit_val(s[2 * i]) * 16 + hex_digit_val(s[2 * i + 1])) as u8)
}

#[verifier::external_type_specification]
#[verifier::external_body]
pub struct ExFromHexError(hex::FromHexError);

/// Calls `hex::decode_to_slice` on one line with a 16-byte output buffer and hands
/// the buffer back. The crate's source accepts exactly the strings of 32 digits
/// `0-9`, `a-f`, `A-F` and gives byte `i` as the value of digits `2i` (high) and
/// `2i + 1` (low). Which `FromHexError` variant an invalid line gives is not stated.
#[verifier::external_body]
fn decode_hex_line(line: &str) -> (r: Result<Vec<u8>, hex::FromHexError>)
    ensures
        r.is_ok() <==> is_hex_line(line@),
        r.is_ok() ==> r->Ok_0@ == hex_line_bytes(line@),
{
    let mut buf = [0u8; 16];
    match hex::decode_to_slice(line, &mut buf) {
        Ok(()) => Ok(buf.to_vec()),
        Err(e) => Err(e),
    }
}

/// Why a hex image could not be loaded.
#[derive(Clone, Copy, Debug, PartialEq, Eq, Structural)]
pub enum LoadError {
    /// The line with this index is not 32 hexadecimal digits.
    InvalidHexLine(usize),
    /// The line with this index would be written past the end of the memory.
    OutOfMemory(usize),
}

/// `m` with the 16 bytes of one image line written from `w` on, the last byte of
/// the line at the lowest address.
pub open spec fn write_line(m: Seq<u8>, w: int, bytes: Seq<u8>) -> Seq<u8> {
    Seq::new(m.len(), |j: int| if w <= j < w + 16 { bytes[15 - (j - w)] } else { m[j] })
}

/// The memory after loading `lines` (the first of which has index `first`) from byte
/// `w` on, or the error of the first line that cannot be loaded.
pub open spec fn load_image(m: Seq<u8>, lines: Seq<Seq<char>>, w: int, first: int) -> Result<
    Seq<u8>,
    LoadError,
>
    decreases lines.len(),
{
    if lines.len() == 0 {
        Ok(m)
    } else if !is_hex_line(lines[0]) {
        Err(LoadError::InvalidHexLine(first as usize))
    } else if w + 16 > m.len() {
        Err(LoadError::OutOfMemory(first as usize))
    } else {
        load_image(write_line(m, w, hex_line_bytes(lines[0])), lines.drop_first(), w + 16, first + 1)
    }
}

/// The memory after writing the lines of an image from byte `w` on, up to the
/// first line that cannot be loaded.
pub open spec fn image_written(m: Seq<u8>, lines: Seq<Seq<char>>, w: int) -> Seq<u8>
    decreases lines.len(),
{
    if lines.len() == 0 || !is_hex_line(lines[0]) || w + 16 > m.len() {
        m
    } else {
        image_written(write_line(m, w, hex_line_bytes(lines[0])), lines.drop_first(), w + 16)
    }
}

proof fn lemma_loaded_is_written(m: Seq<u8>, lines: Seq<Seq<char>>, w: int, first: int)
    requires
        load_image(m, lines, w, first) is Ok,
    ensures
        load_image(m, lines, w, first)->Ok_0 == image_written(m, lines, w),
    decreases lines.len(),
{
    if lines.len() > 0 {
        lemma_loaded_is_written(write_line(m, w, hex_line_bytes(lines[0])), lines.drop_first(), w + 16, first + 1);
    }
}

proof fn lemma_load_image_keeps(m: Seq<u8>, lines: Seq<Seq<char>>, w: int, first: int, a: int)
    requires
        load_image(m, lines, w, first) is Ok,
        0 <= a < w,
        a < m.len(),
    ensures
        load_image(m, lines, w, first)->Ok_0.len() == m.len(),
        load_image(m, lines, w, first)->Ok_0[a] == m[a],
    decreases lines.len(),
{
    if lines.len() > 0 {
        let m1 = write_line(m, w, hex_line_bytes(lines[0]));
        lemma_load_image_keeps(m1, lines.drop_first(), w + 16, first + 1, a);
    }
}

/// A loaded image reads back: after a successful load, the byte at offset `j` of
/// the 16-byte block of line `k` is the line's byte `15 - j`.
pub proof fn lemma_load_image_reads_back(m: Seq<u8>, lines: Seq<Seq<char>>, w: int, first: int, k: int, j: int)
    requires
        load_image(m, lines, w, first) is Ok,
        0 <= w,
        0 <= k < lines.len(),
        0 <= j < 16,
    ensures
        load_image(m, lines, w, first)->Ok_0[w + 16 * k + j] == hex_line_bytes(lines[k])[15 - j],
    decreases lines.len(),
{
    let m1 = write_line(m, w, hex_line_bytes(lines[0]));
    if k == 0 {
        lemma_load_image_keeps(m1, lines.drop_first(), w + 16, first + 1, w + j);
    } else {
        lemma_load_image_reads_back(m1, lines.drop_first(), w + 16, first + 1, k - 1, j);
        assert(lines.drop_first()[k - 1] == lines[k]);
    }
}

/// The text of each line.
pub open spec fn line_texts(lines: Seq<String>) -> Seq<Seq<char>> {
    lines.map_values(|l: String| l@)
}

/// Byte-addressed physical memory of `MEMORY_SIZE` bytes.
pub struct Memory {
    data: Vec<u8>,
    test_done: bool,
}

proof fn lemma_le_bytes(m: Seq<u8>, a: int)
    ensures
        le_val(m, a, 1) == m[a] as nat,
        le_val(m, a, 2) == m[a] as nat + 0x100 * m[a + 1] as nat,
        le_val(m, a, 4) == m[a] as nat + 0x100 * m[a + 1] as nat + 0x1_0000 * m[a + 2] as nat
            + 0x100_0000 * m[a + 3] as nat,
        le_val(m, a, 8) == m[a] as nat + 0x100 * m[a + 1] as nat + 0x1_0000 * m[a + 2] as nat
            + 0x100_0000 * m[a + 3] as nat + 0x1_0000_0000 * m[a + 4] as nat + 0x100_0000_0000
            * m[a + 5] as nat + 0x1_0000_0000_0000 * m[a + 6] as nat + 0x100_0000_0000_0000
            * m[a + 7] as nat,
{
    reveal_with_fuel(le_val, 9);
}

impl Memory {
    /// The bytes of the memory.
    pub closed spec fn bytes(&self) -> Seq<u8> {
        self.data@
    }

    /// Whether the test-done flag is set.
    pub closed spec fn done_flag(&self) -> bool {
        self.test_done
    }

    /// The internal invariant: the memory holds exactly `MEMORY_SIZE` bytes.
    pub open spec fn wf(&self) -> bool {
        self.bytes().len() == MEMORY_SIZE
    }

    /// Whether an access of `n` bytes at `address` stays inside the memory.
    pub open spec fn in_range(address: u64, n: int) -> bool {
        mem_index(address) + n <= MEMORY_SIZE
    }

    /// A zeroed memory with the test-done flag clear.
    pub fn new() -> (r: Self)
        ensures
            r.wf(),
            forall|i: int| 0 <= i < MEMORY_SIZE ==> #[trigger] r.bytes()[i] == 0,
            !r.done_flag(),
    {
        let mem = Memory { data: vec![0u8; MEMORY_SIZE as usize], test_done: false };
        mem
    }

    /// The unsigned byte at `address`.
    pub fn lbu(&self, address: u64) -> (r: u64)
        requires
            self.wf(),
        ensures
            r == self.bytes()[mem_index(address)],
    {
        let addr = (address % MEMORY_SIZE as u64) as usize;
        self.data[addr] as u64
    }

    /// The byte at `address`, sign-extended.
    pub fn lb(&self, address: u64) -> (r: u64)
        requires
            self.wf(),
        ensures
            r == sign_extend(self.bytes()[mem_index(address)] as nat, 1),
    {
        let addr = (address % MEMORY_SIZE as u64) as usize;
        let mut data: u64 = self.data[addr] as u64;
        if data & 0x80 == 0x80 {
            proof {
                assert(data >= 0x80 && data | 0xffff_ffff_ffff_ff00 == data + 0xffff_ffff_ffff_ff00)
                    by (bit_vector)
                    requires data < 256, data & 0x80 == 0x80;
            }
            data = data | 0xffff_ffff_ffff_ff00;
        } else {
            proof {
                assert(data < 0x80) by (bit_vector)
                    requires data < 256, data & 0x80 != 0x80;
            }
        }
        data
    }

    fn byte_at(&self, addr: usize) -> (r: u64)
        requires
            addr < self.data@.len(),
        ensures
            r == self.data@[addr as int],
            r < 256,
    {
        self.data[addr] as u64
    }

    /// The unsigned little-endian half-word at `address`.
    pub fn lhu(&self, address: u64) -> (r: u64)
        requires
            self.wf(),
            Self::in_range(address, 2),
        ensures
            r == le_val(self.bytes(), mem_index(address), 2),
    {
        let addr = (address % MEMORY_SIZE as u64) as usize;
        let b0 = self.byte_at(addr);
        let b1 = self.byte_at(addr + 1);
        proof {
            reveal_with_fuel(le_val, 3);
            assert(b0 | (b1 << 8u64) == b0 + 0x100 * b1) by (bit_vector)
                requires b0 < 256, b1 < 256;
        }
        b0 | (b1 << 8u64)
    }

    /// The little-endian half-word at `address`, sign-extended.
    pub fn lh(&self, address: u64) -> (r: u64)
        requires
            self.wf(),
            Self::in_range(address, 2),
        ensures
            r == sign_extend(le_val(self.bytes(), mem_index(address), 2), 2),
    {
        let mut data = self.lhu(address);
        proof {
            reveal_with_fuel(le_val, 3);
        }
        if data & 0x8000 == 0x8000 {
            proof {
                assert(data >= 0x8000 && data | 0xffff_ffff_ffff_0000 == data + 0xffff_ffff_ffff_0000)
                    by (bit_vector)
                    requires data < 0x1_0000, data & 0x8000 == 0x8000;
            }
            data = data | 0xffff_ffff_ffff_0000;
        } else {
            proof {
                assert(data < 0x8000) by (bit_vector)
                    requires data < 0x1_0000, data & 0x8000 != 0x8000;
            }
        }
        data
    }

    /// The unsigned little-endian word at `address`.
    pub fn lwu(&self, address: u64) -> (r: u64)
        requires
            self.wf(),
            Self::in_range(address, 4),
        ensures
            r == le_val(self.bytes(), mem_index(address), 4),
    {
        let addr = (address % MEMORY_SIZE as u64) as usize;
        let b0 = self.byte_at(addr);
        let b1 = self.byte_at(addr + 1);
        let b2 = self.byte_at(addr + 2);
        let b3 = self.byte_at(addr + 3);
        proof {
            reveal_with_fuel(le_val, 5);
            assert(b0 | (b1 << 8u64) | (b2 << 16u64) | (b3 << 24u64) == b0 + 0x100 * b1 + 0x1_0000
                * b2 + 0x100_0000 * b3) by (bit_vector)
                requires b0 < 256, b1 < 256, b2 < 256, b3 < 256;
        }
        b0 | (b1 << 8u64) | (b2 << 16u64) | (b3 << 24u64)
    }

    /// The little-endian word at `address`, sign-extended.
    pub fn lw(&self, address: u64) -> (r: u64)
        requires
            self.wf(),
            Self::in_range(address, 4),
        ensures
            r == sign_extend(le_val(self.bytes(), mem_index(address), 4), 4),
    {
        let mut data = self.lwu(address);
        proof {
            reveal_with_fuel(le_val, 5);
        }
        if data & 0x8000_0000 == 0x8000_0000 {
            proof {
                assert(data >= 0x8000_0000 && data | 0xffff_ffff_0000_0000 == data
                    + 0xffff_ffff_0000_0000) by (bit_vector)
                    requires data < 0x1_0000_0000, data & 0x8000_0000 == 0x8000_0000;
            }
            data = data | 0xffff_ffff_0000_0000;
        } else {
            proof {
                assert(data < 0x8000_0000) by (bit_vector)
                    requires data < 0x1_0000_0000, data & 0x8000_0000 != 0x8000_0000;
            }
        }
        data
    }

    /// The little-endian double-word at `address`.
    pub fn ld(&self, address: u64) -> (r: u64)
        requires
            self.wf(),
            Self::in_range(address, 8),
        ensures
            r == le_val(self.bytes(), mem_index(address), 8),
    {
        let addr = (address % MEMORY_SIZE as u64) as usize;
        let b0 = self.byte_at(addr);
        let b1 = self.byte_at(addr + 1);
        let b2 = self.byte_at(addr + 2);
        let b3 = self.byte_at(addr + 3);
        let b4 = self.byte_at(addr + 4);
        let b5 = self.byte_at(addr + 5);
        let b6 = self.byte_at(addr + 6);
        let b7 = self.byte_at(addr + 7);
        proof {
            reveal_with_fuel(le_val, 9);
            assert(b0 | (b1 << 8u64) | (b2 << 16u64) | (b3 << 24u64) | (b4 << 32u64) | (b5 << 40u64)
                | (b6 << 48u64) | (b7 << 56u64) == b0 + 0x100 * b1 + 0x1_0000 * b2 + 0x100_0000
                * b3 + 0x1_0000_0000 * b4 + 0x100_0000_0000 * b5 + 0x1_0000_0000_0000 * b6
                + 0x100_0000_0000_0000 * b7) by (bit_vector)
                requires
                    b0 < 256, b1 < 256, b2 < 256, b3 < 256, b4 < 256, b5 < 256, b6 < 256, b7 < 256,
            ;
        }
        b0 | (b1 << 8u64) | (b2 << 16u64) | (b3 << 24u64) | (b4 << 32u64) | (b5 << 40u64) | (b6
            << 48u64) | (b7 << 56u64)
    }

    fn store(&mut self, addr: usize, n: usize, data: u64)
        requires
            old(self).wf(),
            addr + n <= MEMORY_SIZE,
            n <= 8,
        ensures
            final(self).wf(),
            final(self).bytes() == store_bytes(old(self).bytes(), addr as int, n as int, data),
            final(self).done_flag() == old(self).done_flag(),
    {
        let mut i: usize = 0;
        while i < n
            invariant
                0 <= i <= n <= 8,
                addr + n <= MEMORY_SIZE,
                self.data@.len() == MEMORY_SIZE,
                self.test_done == old(self).test_done,
                forall|j: int|
                    0 <= j < MEMORY_SIZE ==> #[trigger] self.data@[j] == (if addr <= j < addr + i {
                        byte_of(data, j - addr)
                    } else {
                        old(self).data@[j]
                    }),
            decreases n - i,
        {
            let b = ((data >> (8 * i) as u64) & 0xff) as u8;
            self.data.set(addr + i, b);
            i = i + 1;
        }
        proof {
            assert(self.bytes() =~= store_bytes(old(self).bytes(), addr as int, n as int, data));
        }
    }

    /// Writes the low byte of `data` at `address`.
    pub fn sb(&mut self, address: u64, data: u64)
        requires
            old(self).wf(),
        ensures
            final(self).wf(),
            final(self).bytes() == store_bytes(old(self).bytes(), mem_index(address), 1, data),
            final(self).done_flag() == old(self).done_flag(),
    {
        let addr = (address % MEMORY_SIZE as u64) as usize;
        self.store(addr, 1, data);
    }

    /// Writes the low two bytes of `data`, little-endian, at `address`.
    pub fn sh(&mut self, address: u64, data: u64)
        requires
            old(self).wf(),
            Self::in_range(address, 2),
        ensures
            final(self).wf(),
            final(self).bytes() == store_bytes(old(self).bytes(), mem_index(address), 2, data),
            final(self).done_flag() == old(self).done_flag(),
    {
        let addr = (address % MEMORY_SIZE as u64) as usize;
        self.store(addr, 2, data);
    }

    /// Writes the low four bytes of `data`, little-endian, at `address`.
    pub fn sw(&mut self, address: u64, data: u64)
        requires
            old(self).wf(),
            Self::in_range(address, 4),
        ensures
            final(self).wf(),
            final(self).bytes() == store_bytes(old(self).bytes(), mem_index(address), 4, data),
            final(self).done_flag() == old(self).done_flag(),
    {
        let addr = (address % MEMORY_SIZE as u64) as usize;
        self.store(addr, 4, data);
    }

    /// Writes the eight bytes of `data`, little-endian, at `address`.
    pub fn sd(&mut self, address: u64, data: u64)
        requires
            old(self).wf(),
            Self::in_range(address, 8),
        ensures
            final(self).wf(),
            final(self).bytes() == store_bytes(old(self).bytes(), mem_index(address), 8, data),
            final(self).done_flag() == old(self).done_flag(),
    {
        let addr = (address % MEMORY_SIZE as u64) as usize;
        self.store(addr, 8, data);
    }

    /// Loads a hex image, one line of 32 hexadecimal digits per 16 bytes, from
    /// `base_addr` (taken modulo the memory size) on; within a line the last byte
    /// goes to the lowest address. Fails on the first line that is not 32
    /// hexadecimal digits or does not fit.
    pub fn load_hex_lines(&mut self, lines: &Vec<String>, base_addr: u64) -> (r: Result<
        (),
        LoadError,
    >)
        requires
            old(self).wf(),
        ensures
            final(self).wf(),
            final(self).done_flag() == old(self).done_flag(),
            match load_image(old(self).bytes(), line_texts(lines@), mem_index(base_addr), 0) {
                Ok(m) => r is Ok && final(self).bytes() == m,
                Err(e) => r == Err::<(), LoadError>(e),
            },
            final(self).bytes() == image_written(old(self).bytes(), line_texts(lines@), mem_index(base_addr)),
    {
        let mut wpt: usize = (base_addr % MEMORY_SIZE as u64) as usize;
        let mut k: usize = 0;
        proof {
            assert(line_texts(lines@).skip(0) =~= line_texts(lines@));
        }
        while k < lines.len()
            invariant
                self.wf(),
                self.test_done == old(self).test_done,
                0 <= k <= lines@.len(),
                wpt <= MEMORY_SIZE,
                load_image(old(self).bytes(), line_texts(lines@), mem_index(base_addr), 0)
                    == load_image(self.bytes(), line_texts(lines@).skip(k as int), wpt as int, k as int),
                image_written(old(self).bytes(), line_texts(lines@), mem_index(base_addr))
                    == image_written(self.bytes(), line_texts(lines@).skip(k as int), wpt as int),
            decreases lines@.len() - k,
        {
            let ghost texts = line_texts(lines@).skip(k as int);
            proof {
                assert(texts[0] == lines@[k as int]@);
                assert(texts.drop_first() =~= line_texts(lines@).skip(k + 1));
            }
            let decoded = decode_hex_line(lines[k].as_str());
            let buf = match decoded {
                Ok(b) => b,
                Err(_) => {
                    return Err(LoadError::InvalidHexLine(k));
                },
            };
            if wpt + 16 > MEMORY_SIZE as usize {
                return Err(LoadError::OutOfMemory(k));
            }
            let ghost before = self.bytes();
            let mut i: usize = 16;
            while i > 0
                invariant
                    0 <= i <= 16,
                    buf@.len() == 16,
                    wpt + 16 <= MEMORY_SIZE,
                    self.data@.len() == MEMORY_SIZE,
                    self.test_done == old(self).test_done,
                    forall|j: int|
                        0 <= j < MEMORY_SIZE ==> #[trigger] self.data@[j] == (if wpt <= j < wpt
                            + (16 - i) {
                            buf@[15 - (j - wpt)]
                        } else {
                            before[j]
                        }),
                decreases i,
            {
                i = i - 1;
                self.data.set(wpt + (15 - i), buf[i]);
            }
            proof {
                assert(self.bytes() =~= write_line(before, wpt as int, buf@));
            }
            wpt = wpt + 16;
            k = k + 1;
        }
        proof {
            assert(line_texts(lines@).skip(k as int).len() == 0);
            lemma_loaded_is_written(old(self).bytes(), line_texts(lines@), mem_index(base_addr), 0);
        }
        Ok(())
    }

    /// Whether the test-done flag is set.
    pub fn test_done(&self) -> (r: bool)
        ensures
            r == self.done_flag(),
    {
        self.test_done
    }
}

impl CtrlSignals for Memory {
    open spec fn ctrl_inv(&self) -> bool {
        self.wf()
    }

    /// The to-host byte must hold 0 or 1.
    open spec fn tik_ok(&self) -> bool {
        let b = self.bytes()[mem_index(TOHOST_PADDR)];
        b == 0 || b == 1
    }

    /// Sets the test-done flag; the to-host byte holds 0 or 1.
    fn tik(&mut self)
        ensures
            final(self).bytes() == old(self).bytes(),
            final(self).done_flag(),
    {
        self.test_done = true;
    }

    /// Does nothing.
    fn rst(&mut self, _rst: bool)
        ensures
            final(self).bytes() == old(self).bytes(),
            final(self).done_flag() == old(self).done_flag(),
    {
    }

    /// Does nothing.
    fn flush(&mut self, _rst: bool)
        ensures
            final(self).bytes() == old(self).bytes(),
            final(self).done_flag() == old(self).done_flag(),
    {
    }
}

} // verus!
