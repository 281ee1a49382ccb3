use vstd::prelude::*;
use vstd::slice::slice_subrange;
use vstd::utf8::{decode_utf8, encode_utf8, encode_utf8_decode_utf8, encode_utf8_valid_utf8, valid_utf8};

use crate::models::error::{EmpError, EmpResult, ErrorKind};

verus! {

#[verifier::external_type_specification]
#[verifier::external_body]
pub struct ExIoError(std::io::Error);

/// Capacity of a freshly created buffer, in bytes.
pub const BUFFER_CAPACITY: usize = 2048;

/// Little-endian bytes of a 16-bit value.
pub open spec fn u16_le(v: u16) -> Seq<u8> {
    seq![(v % 256) as u8, (v / 256) as u8]
}

/// Little-endian bytes of a 32-bit value.
pub open spec fn u32_le(v: u32) -> Seq<u8> {
    u16_le((v % 65536) as u16) + u16_le((v / 65536) as u16)
}

/// Little-endian bytes of a 64-bit value.
pub open spec fn u64_le(v: u64) -> Seq<u8> {
    u32_le((v % 4294967296) as u32) + u32_le((v / 4294967296) as u32)
}

/// The 16-bit value stored little-endian at `i`.
pub open spec fn le_u16_at(s: Seq<u8>, i: int) -> u16 {
    (s[i] + 256 * s[i + 1]) as u16
}

/// The 32-bit value stored little-endian at `i`.
pub open spec fn le_u32_at(s: Seq<u8>, i: int) -> u32 {
    (le_u16_at(s, i) + 65536 * le_u16_at(s, i + 2)) as u32
}

/// The 64-bit value stored little-endian at `i`.
pub open spec fn le_u64_at(s: Seq<u8>, i: int) -> u64 {
    (le_u32_at(s, i) + 4294967296 * le_u32_at(s, i + 4)) as u64
}

/// `s` with the bytes of `b` written over it from position `at` on.
pub open spec fn splice(s: Seq<u8>, at: int, b: Seq<u8>) -> Seq<u8> {
    s.subrange(0, at) + b + s.subrange(at + b.len(), s.len() as int)
}

/// The text that `String::from_utf8_lossy` makes of a byte sequence.
pub uninterp spec fn utf8_lossy(bytes: Seq<u8>) -> Seq<char>;

/// The text a reader makes of stored bytes: their UTF-8 decoding when they
/// are valid UTF-8, else what `String::from_utf8_lossy` makes of them.
pub open spec fn lossy_text(bytes: Seq<u8>) -> Seq<char> {
    if valid_utf8(bytes) {
        decode_utf8(bytes)
    } else {
        utf8_lossy(bytes)
    }
}

/// Calls `String::from_utf8_lossy` and takes ownership of its result.
/// Claimed: on valid UTF-8 input the result is exactly the decoded text;
/// on other input it is the named lossy decoding (how invalid sequences are
/// replaced is left unsaid).
#[verifier::external_body]
fn string_from_utf8_lossy(bytes: &[u8]) -> (s: String)
    ensures
        valid_utf8(bytes@) ==> s@ == decode_utf8(bytes@),
        !valid_utf8(bytes@) ==> s@ == utf8_lossy(bytes@),
{
    String::from_utf8_lossy(bytes).into_owned()
}

/// A byte buffer with a write head (`size`, the number of bytes written)
/// and a read head (`index`, the next byte to be read).
pub struct Buffer {
    data: Vec<u8>,
    size: usize,
    index: usize,
}

impl Buffer {
    /// The whole backing storage.
    pub closed spec fn bytes(&self) -> Seq<u8> {
        self.data@
    }

    /// Number of bytes written so far.
    pub closed spec fn size(&self) -> nat {
        self.size as nat
    }

    /// Position of the next byte to be read.
    pub closed spec fn index(&self) -> nat {
        self.index as nat
    }

    /// Both heads lie inside the backing storage.
    pub open spec fn wf(&self) -> bool {
        &&& self.size() <= self.bytes().len()
        &&& self.index() <= self.bytes().len()
    }

    /// A fresh buffer of `BUFFER_CAPACITY` zero bytes with both heads at 0.
    pub fn new() -> (b: Buffer)
        ensures
            b.wf(),
            b.bytes() == Seq::new(BUFFER_CAPACITY as nat, |i: int| 0u8),
            b.size() == 0,
            b.index() == 0,
    {
        let mut vec: Vec<u8> = Vec::with_capacity(BUFFER_CAPACITY);
        let mut i: usize = 0;
        while i < BUFFER_CAPACITY
            invariant
                i <= BUFFER_CAPACITY,
                vec@.len() == i,
                forall|j: int| 0 <= j < i ==> vec@[j] == 0u8,
            decreases BUFFER_CAPACITY - i,
        {
            vec.push(0u8);
            i = i + 1;
        }
        assert(vec@ =~= Seq::new(BUFFER_CAPACITY as nat, |i: int| 0u8));
        Buffer { data: vec, size: 0, index: 0 }
    }

    /// A buffer holding `data` as already written bytes, read head at 0.
    pub fn from(data: Vec<u8>) -> (b: Buffer)
        ensures
            b.wf(),
            b.bytes() == data@,
            b.size() == data@.len(),
            b.index() == 0,
    {
        let size = data.len();
        Buffer { data, size, index: 0 }
    }

    /// Number of bytes written so far.
    pub fn get_size(&self) -> (n: usize)
        ensures
            n == self.size(),
    {
        self.size
    }

    /// The size of the whole backing storage.
    pub fn storage_len(&self) -> (n: usize)
        requires
            self.wf(),
        ensures
            n == self.bytes().len(),
    {
        self.data.len()
    }

    /// The stored byte at position `i`, if there is one.
    pub fn byte_at(&self, i: usize) -> (r: Option<u8>)
        requires
            self.wf(),
        ensures
            i < self.bytes().len() ==> r == Some(self.bytes()[i as int]),
            i >= self.bytes().len() ==> r is None,
    {
        if i < self.data.len() {
            Some(self.data[i])
        } else {
            None
        }
    }

    /// Position of the next byte to be read.
    pub fn get_index(&self) -> (n: usize)
        ensures
            n == self.index(),
    {
        self.index
    }

    /// The bytes written so far.
    pub fn get_write_data(&self) -> (d: &[u8])
        requires
            self.wf(),
        ensures
            d@ == self.bytes().subrange(0, self.size() as int),
    {
        slice_subrange(self.data.as_slice(), 0, self.size)
    }

    /// Moves the read head back to the start.
    pub fn reset_read(&mut self)
        requires
            old(self).wf(),
        ensures
            final(self).wf(),
            final(self).bytes() == old(self).bytes(),
            final(self).size() == old(self).size(),
            final(self).index() == 0,
    {
        self.index = 0;
    }

    /// Copies `buf` into the storage at the write head and advances it.
    pub fn write(&mut self, buf: &[u8]) -> (n: usize)
        requires
            old(self).wf(),
            old(self).size() + buf@.len() <= old(self).bytes().len(),
        ensures
            final(self).wf(),
            final(self).bytes() == splice(old(self).bytes(), old(self).size() as int, buf@),
            final(self).size() == old(self).size() + buf@.len(),
            final(self).index() == old(self).index(),
            n == buf@.len(),
    {
        let len = buf.len();
        let start = self.size;
        let ghost before = self.data@;
        let mut i: usize = 0;
        while i < len
            invariant
                len == buf@.len(),
                start == old(self).size(),
                start + len <= before.len(),
                before == old(self).bytes(),
                self.size == start,
                self.index == old(self).index(),
                i <= len,
                self.data@.len() == before.len(),
                self.data.len() == before.len(),
                forall|j: int| 0 <= j < start ==> self.data@[j] == before[j],
                forall|j: int| start <= j < start + i ==> self.data@[j] == buf@[j - start],
                forall|j: int| start + i <= j < before.len() ==> self.data@[j] == before[j],
            decreases len - i,
        {
            self.data[start + i] = buf[i];
            i = i + 1;
        }
        self.size = start + len;
        assert(self.data@ =~= splice(before, start as int, buf@));
        len
    }

    /// Copies the next `n` bytes at the read head out and advances it, or
    /// fails, changing nothing, when fewer than `n` bytes remain.
    pub fn read(&mut self, n: usize) -> (r: Option<Vec<u8>>)
        requires
            old(self).wf(),
        ensures
            final(self).wf(),
            final(self).bytes() == old(self).bytes(),
            final(self).size() == old(self).size(),
            r is Some <==> old(self).index() + n <= old(self).bytes().len(),
            r matches Some(v) ==> {
                &&& v@ == old(self).bytes().subrange(
                    old(self).index() as int,
                    old(self).index() + n,
                )
                &&& final(self).index() == old(self).index() + n
            },
            r is None ==> final(self).index() == old(self).index(),
    {
        if n > self.data.len() - self.index {
            return None;
        }
        let start = self.index;
        let mut out: Vec<u8> = Vec::new();
        let mut i: usize = 0;
        while i < n
            invariant
                start == self.index,
                start + n <= self.data.len(),
                i <= n,
                out@ == self.data@.subrange(start as int, start + i),
            decreases n - i,
        {
            out.push(self.data[start + i]);
            i = i + 1;
            assert(out@ =~= self.data@.subrange(start as int, start + i));
        }
        self.index = start + n;
        Some(out)
    }
}

/// Writes `value` as a little-endian 16-bit length followed by its UTF-8
/// bytes; the length is that of the bytes modulo 2^16.
pub fn write_string(buffer: &mut Buffer, value: &str) -> (r: std::io::Result<usize>)
    requires
        old(buffer).wf(),
        old(buffer).index() + 2 <= old(buffer).bytes().len(),
        old(buffer).size() + 2 + encode_utf8(value@).len() <= old(buffer).bytes().len(),
    ensures
        final(buffer).wf(),
        final(buffer).bytes() == splice(
            old(buffer).bytes(),
            old(buffer).size() as int,
            u16_le((encode_utf8(value@).len() % 65536) as u16) + encode_utf8(value@),
        ),
        final(buffer).size() == old(buffer).size() + 2 + encode_utf8(value@).len(),
        final(buffer).index() == old(buffer).index(),
        r matches Ok(n) && n == encode_utf8(value@).len(),
{
    let bytes = value.as_bytes();
    let len = bytes.len();
    let short = (len % 65536) as u16;
    let ghost b0 = buffer.bytes();
    let _ = write_short(buffer, &short);
    let ghost b1 = buffer.bytes();
    let n = buffer.write(bytes);
    proof {
        let at = old(buffer).size() as int;
        let h = u16_le(short);
        assert(b1 == splice(b0, at, h));
        assert(buffer.bytes() =~= splice(b0, at, h + bytes@));
    }
    Ok(n)
}

/// Writes a 64-bit value little-endian.
pub fn write_long(buffer: &mut Buffer, value: &u64) -> (r: std::io::Result<usize>)
    requires
        old(buffer).wf(),
        old(buffer).index() + 8 <= old(buffer).bytes().len(),
        old(buffer).size() + 8 <= old(buffer).bytes().len(),
    ensures
        final(buffer).wf(),
        final(buffer).bytes() == splice(old(buffer).bytes(), old(buffer).size() as int, u64_le(*value)),
        final(buffer).size() == old(buffer).size() + 8,
        final(buffer).index() == old(buffer).index(),
        r matches Ok(n) && n == 8,
{
    let lo = (*value % 4294967296) as u32;
    let hi = (*value / 4294967296) as u32;
    let l0 = (lo % 65536) as u16;
    let l1 = (lo / 65536) as u16;
    let h0 = (hi % 65536) as u16;
    let h1 = (hi / 65536) as u16;
    let arr: [u8; 8] = [
        (l0 % 256) as u8,
        (l0 / 256) as u8,
        (l1 % 256) as u8,
        (l1 / 256) as u8,
        (h0 % 256) as u8,
        (h0 / 256) as u8,
        (h1 % 256) as u8,
        (h1 / 256) as u8,
    ];
    assert(arr@ =~= u64_le(*value));
    let n = buffer.write(&arr);
    Ok(n)
}

/// Writes a 32-bit value little-endian.
pub fn write_integer(buffer: &mut Buffer, value: &u32) -> (r: std::io::Result<usize>)
    requires
        old(buffer).wf(),
        old(buffer).index() + 4 <= old(buffer).bytes().len(),
        old(buffer).size() + 4 <= old(buffer).bytes().len(),
    ensures
        final(buffer).wf(),
        final(buffer).bytes() == splice(old(buffer).bytes(), old(buffer).size() as int, u32_le(*value)),
        final(buffer).size() == old(buffer).size() + 4,
        final(buffer).index() == old(buffer).index(),
        r matches Ok(n) && n == 4,
{
    let l0 = (*value % 65536) as u16;
    let l1 = (*value / 65536) as u16;
    let arr: [u8; 4] = [(l0 % 256) as u8, (l0 / 256) as u8, (l1 % 256) as u8, (l1 / 256) as u8];
    assert(arr@ =~= u32_le(*value));
    let n = buffer.write(&arr);
    Ok(n)
}

/// Writes a 16-bit value little-endian.
pub fn write_short(buffer: &mut Buffer, value: &u16) -> (r: std::io::Result<usize>)
    requires
        old(buffer).wf(),
        old(buffer).index() + 2 <= old(buffer).bytes().len(),
        old(buffer).size() + 2 <= old(buffer).bytes().len(),
    ensures
        final(buffer).wf(),
        final(buffer).bytes() == splice(old(buffer).bytes(), old(buffer).size() as int, u16_le(*value)),
        final(buffer).size() == old(buffer).size() + 2,
        final(buffer).index() == old(buffer).index(),
        r matches Ok(n) && n == 2,
{
    let arr: [u8; 2] = [(*value % 256) as u8, (*value / 256) as u8];
    assert(arr@ =~= u16_le(*value));
    let n = buffer.write(&arr);
    Ok(n)
}

/// Writes one byte.
pub fn write_byte(buffer: &mut Buffer, value: &u8) -> (r: std::io::Result<usize>)
    requires
        old(buffer).wf(),
        old(buffer).index() + 1 <= old(buffer).bytes().len(),
        old(buffer).size() + 1 <= old(buffer).bytes().len(),
    ensures
        final(buffer).wf(),
        final(buffer).bytes() == splice(old(buffer).bytes(), old(buffer).size() as int, seq![*value]),
        final(buffer).size() == old(buffer).size() + 1,
        final(buffer).index() == old(buffer).index(),
        r matches Ok(n) && n == 1,
{
    let arr: [u8; 1] = [*value];
    assert(arr@ =~= seq![*value]);
    let n = buffer.write(&arr);
    Ok(n)
}

/// The storage and the write head are what they were, and the buffer is well formed.
pub open spec fn read_keeps(before: Buffer, after: Buffer) -> bool {
    &&& after.wf()
    &&& after.bytes() == before.bytes()
    &&& after.size() == before.size()
}

/// The outcome of reading `n` bytes at the read head: success exactly when
/// `n` bytes remain, the head moved past them, or else an `UnreadBytesError`
/// and an unmoved head.
pub open spec fn read_outcome<T>(before: Buffer, after: Buffer, n: nat, r: EmpResult<T>) -> bool {
    &&& read_keeps(before, after)
    &&& (r is Ok <==> before.index() + n <= before.bytes().len())
    &&& r is Ok ==> after.index() == before.index() + n
    &&& r matches Err(e) ==> e.kind == ErrorKind::UnreadBytesError && after.index() == before.index()
}

fn take(buffer: &mut Buffer, n: usize) -> (r: EmpResult<Vec<u8>>)
    requires
        old(buffer).wf(),
    ensures
        read_outcome(*old(buffer), *final(buffer), n as nat, r),
        r matches Ok(v) ==> v@ == old(buffer).bytes().subrange(
            old(buffer).index() as int,
            old(buffer).index() + n,
        ),
{
    match buffer.read(n) {
        Some(v) => Ok(v),
        None => Err(EmpError::new(ErrorKind::UnreadBytesError, "Not enough bytes left to read")),
    }
}

/// Reads a length-prefixed string: a little-endian 16-bit byte count, then
/// that many bytes decoded as by `String::from_utf8_lossy`.
pub fn read_string(buffer: &mut Buffer) -> (r: EmpResult<String>)
    requires
        old(buffer).wf(),
        string_fits(old(buffer).bytes(), old(buffer).index() as int),
    ensures
        read_keeps(*old(buffer), *final(buffer)),
        r is Ok <==> old(buffer).index() + 2 <= old(buffer).bytes().len(),
        r matches Ok(v) ==> {
            let i = old(buffer).index() as int;
            let n = le_u16_at(old(buffer).bytes(), i);
            &&& v@ == lossy_text(old(buffer).bytes().subrange(i + 2, i + 2 + n))
            &&& final(buffer).index() == i + 2 + n
        },
        r matches Err(e) ==> e.kind == ErrorKind::UnreadBytesError && final(buffer).index() == old(
            buffer,
        ).index(),
{
    let len = read_short(buffer)?;
    let start = buffer.index;
    assert(start + len <= buffer.data@.len());
    assert(buffer.data@.len() == buffer.data.len());
    let end = start + len as usize;
    let value = string_from_utf8_lossy(slice_subrange(buffer.data.as_slice(), start, end));
    buffer.index = end;
    Ok(value)
}

/// A string stored at `i` lies wholly inside `s` whenever its length prefix does.
pub open spec fn string_fits(s: Seq<u8>, i: int) -> bool {
    i + 2 <= s.len() ==> i + 2 + le_u16_at(s, i) <= s.len()
}

/// Reads a little-endian 64-bit value.
pub fn read_long(buffer: &mut Buffer) -> (r: EmpResult<u64>)
    requires
        old(buffer).wf(),
    ensures
        read_outcome(*old(buffer), *final(buffer), 8, r),
        r matches Ok(v) ==> v == le_u64_at(old(buffer).bytes(), old(buffer).index() as int),
{
    let b = take(buffer, 8)?;
    let lo: u32 = (b[0] as u16 + 256 * b[1] as u16) as u32 + 65536 * (b[2] as u16 + 256 * b[3] as u16) as u32;
    let hi: u32 = (b[4] as u16 + 256 * b[5] as u16) as u32 + 65536 * (b[6] as u16 + 256 * b[7] as u16) as u32;
    Ok(lo as u64 + 4294967296 * hi as u64)
}

/// Reads a little-endian 32-bit value.
pub fn read_integer(buffer: &mut Buffer) -> (r: EmpResult<u32>)
    requires
        old(buffer).wf(),
    ensures
        read_outcome(*old(buffer), *final(buffer), 4, r),
        r matches Ok(v) ==> v == le_u32_at(old(buffer).bytes(), old(buffer).index() as int),
{
    let b = take(buffer, 4)?;
    let lo: u16 = b[0] as u16 + 256 * b[1] as u16;
    let hi: u16 = b[2] as u16 + 256 * b[3] as u16;
    Ok(lo as u32 + 65536 * hi as u32)
}

/// Reads a little-endian 16-bit value.
pub fn read_short(buffer: &mut Buffer) -> (r: EmpResult<u16>)
    requires
        old(buffer).wf(),
    ensures
        read_outcome(*old(buffer), *final(buffer), 2, r),
        r matches Ok(v) ==> v == le_u16_at(old(buffer).bytes(), old(buffer).index() as int),
{
    let b = take(buffer, 2)?;
    Ok(b[0] as u16 + 256 * b[1] as u16)
}

/// Reads one byte.
pub fn read_byte(buffer: &mut Buffer) -> (r: EmpResult<u8>)
    requires
        old(buffer).wf(),
    ensures
        read_outcome(*old(buffer), *final(buffer), 1, r),
        r matches Ok(v) ==> v == old(buffer).bytes()[old(buffer).index() as int],
{
    let b = take(buffer, 1)?;
    Ok(b[0])
}

proof fn lemma_splice_at(s: Seq<u8>, at: int, b: Seq<u8>, k: int)
    requires
        0 <= at,
        at + b.len() <= s.len(),
        0 <= k < b.len(),
    ensures
        splice(s, at, b)[at + k] == b[k],
        splice(s, at, b).len() == s.len(),
{
}

/// A byte written at `at` is read back there.
pub proof fn lemma_written_byte_reads_back(s: Seq<u8>, at: int, v: u8)
    requires
        0 <= at,
        at + 1 <= s.len(),
    ensures
        splice(s, at, seq![v])[at] == v,
{
    lemma_splice_at(s, at, seq![v], 0);
}

/// A 16-bit value written little-endian at `at` is read back there.
pub proof fn lemma_written_short_reads_back(s: Seq<u8>, at: int, v: u16)
    requires
        0 <= at,
        at + 2 <= s.len(),
    ensures
        le_u16_at(splice(s, at, u16_le(v)), at) == v,
{
    lemma_splice_at(s, at, u16_le(v), 0);
    lemma_splice_at(s, at, u16_le(v), 1);
    assert((v % 256) + 256 * (v / 256) == v);
}

/// A 32-bit value written little-endian at `at` is read back there.
pub proof fn lemma_written_integer_reads_back(s: Seq<u8>, at: int, v: u32)
    requires
        0 <= at,
        at + 4 <= s.len(),
    ensures
        le_u32_at(splice(s, at, u32_le(v)), at) == v,
{
    let lo = (v % 65536) as u16;
    let hi = (v / 65536) as u16;
    let t = splice(s, at, u32_le(v));
    assert(t =~= splice(splice(s, at, u16_le(lo)), at + 2, u16_le(hi)));
    lemma_written_short_reads_back(splice(s, at, u16_le(lo)), at + 2, hi);
    assert(t.subrange(at, at + 2) =~= splice(s, at, u16_le(lo)).subrange(at, at + 2));
    lemma_written_short_reads_back(s, at, lo);
    assert(t[at] == splice(s, at, u16_le(lo))[at]);
    assert(t[at + 1] == splice(s, at, u16_le(lo))[at + 1]);
    assert(lo + 65536 * hi == v);
}

/// A 64-bit value written little-endian at `at` is read back there.
pub proof fn lemma_written_long_reads_back(s: Seq<u8>, at: int, v: u64)
    requires
        0 <= at,
        at + 8 <= s.len(),
    ensures
        le_u64_at(splice(s, at, u64_le(v)), at) == v,
{
    let lo = (v % 4294967296) as u32;
    let hi = (v / 4294967296) as u32;
    let first = splice(s, at, u32_le(lo));
    let t = splice(s, at, u64_le(v));
    assert(t =~= splice(first, at + 4, u32_le(hi)));
    lemma_written_integer_reads_back(first, at + 4, hi);
    lemma_written_integer_reads_back(s, at, lo);
    assert(t[at] == first[at]);
    assert(t[at + 1] == first[at + 1]);
    assert(t[at + 2] == first[at + 2]);
    assert(t[at + 3] == first[at + 3]);
    assert(lo + 4294967296 * hi == v);
}

/// A string written with its length prefix at `at` is read back there: the
/// prefix gives its encoded length and the bytes after it decode to the same
/// text, for a text that encodes to fewer than 2^16 bytes.
pub proof fn lemma_written_string_reads_back(s: Seq<u8>, at: int, x: Seq<char>)
    requires
        0 <= at,
        encode_utf8(x).len() < 65536,
        at + 2 + encode_utf8(x).len() <= s.len(),
    ensures
        ({
            let n = encode_utf8(x).len();
            let t = splice(s, at, u16_le(n as u16) + encode_utf8(x));
            &&& le_u16_at(t, at) == n
            &&& lossy_text(t.subrange(at + 2, at + 2 + n)) == x
        }),
{
    let b = encode_utf8(x);
    let n = b.len();
    let t = splice(s, at, u16_le(n as u16) + b);
    assert(t =~= splice(splice(s, at, u16_le(n as u16)), at + 2, b));
    lemma_written_short_reads_back(s, at, n as u16);
    assert(t[at] == splice(s, at, u16_le(n as u16))[at]);
    assert(t[at + 1] == splice(s, at, u16_le(n as u16))[at + 1]);
    assert(t.subrange(at + 2, at + 2 + n) =~= b);
    encode_utf8_valid_utf8(x);
    encode_utf8_decode_utf8(x);
}

} // verus!
