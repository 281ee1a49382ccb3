use vstd::prelude::*;
use vstd::utf8::{encode_utf8, encode_utf8_decode_utf8, encode_utf8_valid_utf8};

use crate::models::error::{EmpError, EmpResult, ErrorKind};
use crate::net::buffer::{
    self, Buffer, le_u16_at, le_u32_at, lossy_text, read_keeps, splice, string_fits, u16_le, u32_le,
};

verus! {

/// A message of the game's binary protocol.
#[derive(Debug, PartialEq)]
pub enum Packet {
    Login { username: String, password: String },
    Logout(String),
    Chat(String),
    Build(i32),
    Upgrade(i32),
    Destroy(i32),
    Cancel(i32),
    Error { message: String },
}

/// The type byte that opens the encoding of a packet.
pub open spec fn packet_tag(p: Packet) -> u8 {
    match p {
        Packet::Login { .. } => 0,
        Packet::Logout(..) => 1,
        Packet::Chat(..) => 2,
        Packet::Build(..) => 3,
        Packet::Upgrade(..) => 4,
        Packet::Destroy(..) => 5,
        Packet::Cancel(..) => 6,
        Packet::Error { .. } => 7,
    }
}

/// The two's complement bit pattern of a signed 32-bit value.
pub open spec fn i32_bits(v: i32) -> u32 {
    if v >= 0 {
        v as u32
    } else {
        (v + 4294967296) as u32
    }
}

/// The signed 32-bit value of a two's complement bit pattern.
pub open spec fn bits_i32(v: u32) -> i32 {
    if v <= 2147483647 {
        v as i32
    } else {
        (v - 4294967296) as i32
    }
}

/// The wire form of a text field: its UTF-8 byte count modulo 2^16,
/// little-endian, then the bytes.
pub open spec fn text_field(s: Seq<char>) -> Seq<u8> {
    u16_le((encode_utf8(s).len() % 65536) as u16) + encode_utf8(s)
}

/// The bytes of a packet's fields, after its type byte.
pub open spec fn payload_bytes(p: Packet) -> Seq<u8> {
    match p {
        Packet::Login { username, password } => text_field(username@) + text_field(password@),
        Packet::Logout(t) => text_field(t@),
        Packet::Chat(m) => text_field(m@),
        Packet::Build(id) => u32_le(i32_bits(id)),
        Packet::Upgrade(id) => u32_le(i32_bits(id)),
        Packet::Destroy(id) => u32_le(i32_bits(id)),
        Packet::Cancel(id) => u32_le(i32_bits(id)),
        Packet::Error { message } => text_field(message@),
    }
}

/// The complete wire form of a packet.
pub open spec fn packet_bytes(p: Packet) -> Seq<u8> {
    seq![packet_tag(p)] + payload_bytes(p)
}

/// Every text of the packet encodes to fewer than 2^16 bytes, so that its
/// length prefix is exact.
pub open spec fn texts_fit(p: Packet) -> bool {
    match p {
        Packet::Login { username, password } => encode_utf8(username@).len() < 65536
            && encode_utf8(password@).len() < 65536,
        Packet::Logout(t) => encode_utf8(t@).len() < 65536,
        Packet::Chat(m) => encode_utf8(m@).len() < 65536,
        Packet::Error { message } => encode_utf8(message@).len() < 65536,
        _ => true,
    }
}

/// How far past the read head the largest single write of the packet
/// reaches; writing checks the read head against the storage for it.
pub open spec fn widest_write(p: Packet) -> nat {
    match p {
        Packet::Build(..) | Packet::Upgrade(..) | Packet::Destroy(..) | Packet::Cancel(..) => 4,
        _ => 2,
    }
}

/// Position just past a text field stored at `i`.
pub open spec fn text_end(s: Seq<u8>, i: int) -> int {
    i + 2 + le_u16_at(s, i)
}

/// The text of a field stored at `i`, decoded as the reader decodes it.
pub open spec fn text_at(s: Seq<u8>, i: int) -> Seq<char> {
    lossy_text(s.subrange(i + 2, text_end(s, i)))
}

/// A text field stored at `i` can be read completely.
pub open spec fn text_readable(s: Seq<u8>, i: int) -> bool {
    i + 2 <= s.len() && text_end(s, i) <= s.len()
}

/// The fields of a packet of type `tag` lie completely in `s` from `i` on.
pub open spec fn payload_readable(tag: u8, s: Seq<u8>, i: int) -> bool {
    if tag == 0 {
        text_readable(s, i) && text_readable(s, text_end(s, i))
    } else if tag == 1 || tag == 2 || tag == 7 {
        text_readable(s, i)
    } else {
        i + 4 <= s.len()
    }
}

/// Position just past the fields of a packet of type `tag` stored from `i` on.
pub open spec fn payload_end(tag: u8, s: Seq<u8>, i: int) -> int {
    if tag == 0 {
        text_end(s, text_end(s, i))
    } else if tag == 1 || tag == 2 || tag == 7 {
        text_end(s, i)
    } else {
        i + 4
    }
}

/// A packet whose type byte is valid lies completely in `s` from `i` on
/// (reading a truncated packet is a fault of the caller).
pub open spec fn packet_complete(s: Seq<u8>, i: int) -> bool {
    (0 <= i < s.len() && s[i] <= 7) ==> payload_readable(s[i], s, i + 1)
}

/// `p` is what the bytes from `i` on decode to.
pub open spec fn decodes_as(p: Packet, s: Seq<u8>, i: int) -> bool {
    let j = i + 1;
    &&& packet_tag(p) == s[i]
    &&& match p {
        Packet::Login { username, password } => username@ == text_at(s, j) && password@ == text_at(
            s,
            text_end(s, j),
        ),
        Packet::Logout(t) => t@ == text_at(s, j),
        Packet::Chat(m) => m@ == text_at(s, j),
        Packet::Build(id) => id == bits_i32(le_u32_at(s, j)),
        Packet::Upgrade(id) => id == bits_i32(le_u32_at(s, j)),
        Packet::Destroy(id) => id == bits_i32(le_u32_at(s, j)),
        Packet::Cancel(id) => id == bits_i32(le_u32_at(s, j)),
        Packet::Error { message } => message@ == text_at(s, j),
    }
}

/// The type byte of a packet.
fn get_packet_type(packet: &Packet) -> (t: u8)
    ensures
        t == packet_tag(*packet),
{
    match packet {
        Packet::Login { .. } => 0,
        Packet::Logout { .. } => 1,
        Packet::Chat { .. } => 2,
        Packet::Build { .. } => 3,
        Packet::Upgrade { .. } => 4,
        Packet::Destroy { .. } => 5,
        Packet::Cancel { .. } => 6,
        Packet::Error { .. } => 7,
    }
}

/// An empty packet of the type a byte names, or `InvalidPacket`.
fn get_packet_by_bit(bit: u8) -> (r: EmpResult<Packet>)
    ensures
        r is Ok <==> bit <= 7,
        r matches Ok(p) ==> packet_tag(p) == bit,
        r matches Err(e) ==> e.kind == ErrorKind::InvalidPacket,
{
    match bit {
        0 => Ok(Packet::Login { username: String::new(), password: String::new() }),
        1 => Ok(Packet::Logout(String::new())),
        2 => Ok(Packet::Chat(String::new())),
        3 => Ok(Packet::Build(0)),
        4 => Ok(Packet::Upgrade(0)),
        5 => Ok(Packet::Destroy(0)),
        6 => Ok(Packet::Cancel(0)),
        7 => Ok(Packet::Error { message: String::new() }),
        _ => Err(EmpError::new(ErrorKind::InvalidPacket, "Invalid packet type")),
    }
}

fn to_i32(v: u32) -> (r: i32)
    ensures
        r == bits_i32(v),
{
    if v <= 2147483647 {
        v as i32
    } else {
        (v as i64 - 4294967296) as i32
    }
}

fn to_u32(v: i32) -> (r: u32)
    ensures
        r == i32_bits(v),
{
    if v >= 0 {
        v as u32
    } else {
        (v as i64 + 4294967296) as u32
    }
}

fn read_text(buffer: &mut Buffer) -> (s: String)
    requires
        old(buffer).wf(),
        text_readable(old(buffer).bytes(), old(buffer).index() as int),
    ensures
        read_keeps(*old(buffer), *final(buffer)),
        s@ == text_at(old(buffer).bytes(), old(buffer).index() as int),
        final(buffer).index() == text_end(old(buffer).bytes(), old(buffer).index() as int),
{
    buffer::read_string(buffer).unwrap()
}

fn read_id(buffer: &mut Buffer) -> (id: i32)
    requires
        old(buffer).wf(),
        old(buffer).index() + 4 <= old(buffer).bytes().len(),
    ensures
        read_keeps(*old(buffer), *final(buffer)),
        id == bits_i32(le_u32_at(old(buffer).bytes(), old(buffer).index() as int)),
        final(buffer).index() == old(buffer).index() + 4,
{
    to_i32(buffer::read_integer(buffer).unwrap())
}

/// Where a text field stored at `i` ends, when it lies wholly in the storage.
fn text_field_end(buffer: &Buffer, i: usize) -> (r: Option<usize>)
    requires
        buffer.wf(),
    ensures
        r is Some <==> text_readable(buffer.bytes(), i as int),
        r matches Some(e) ==> e == text_end(buffer.bytes(), i as int),
{
    let n = buffer.storage_len();
    if i > n || n - i < 2 {
        return None;
    }
    let lo = buffer.byte_at(i).unwrap();
    let hi = buffer.byte_at(i + 1).unwrap();
    let len: usize = lo as usize + 256 * hi as usize;
    assert(len == le_u16_at(buffer.bytes(), i as int));
    if len <= n - (i + 2) {
        Some(i + 2 + len)
    } else {
        None
    }
}

/// Whether the packet at the read head lies wholly in the storage, as
/// `get_packet` needs (a byte that names no packet counts as complete: it is
/// refused on reading).
pub fn packet_is_complete(buffer: &Buffer) -> (b: bool)
    requires
        buffer.wf(),
    ensures
        b == packet_complete(buffer.bytes(), buffer.index() as int),
{
    let i = buffer.get_index();
    let n = buffer.storage_len();
    if i >= n {
        return true;
    }
    let tag = buffer.byte_at(i).unwrap();
    if tag > 7 {
        return true;
    }
    let j = i + 1;
    if tag == 0 {
        match text_field_end(buffer, j) {
            Some(e) => text_field_end(buffer, e).is_some(),
            None => false,
        }
    } else if tag == 1 || tag == 2 || tag == 7 {
        text_field_end(buffer, j).is_some()
    } else {
        j <= n && n - j >= 4
    }
}

/// Reads the packet at the read head. Fails with `UnreadBytesError` when no
/// byte is left, and with `InvalidPacket` when the type byte names no packet.
pub fn get_packet(buffer: &mut Buffer) -> (r: EmpResult<Packet>)
    requires
        old(buffer).wf(),
        packet_complete(old(buffer).bytes(), old(buffer).index() as int),
    ensures
        read_keeps(*old(buffer), *final(buffer)),
        ({
            let s = old(buffer).bytes();
            let i = old(buffer).index() as int;
            &&& r is Ok <==> (i < s.len() && s[i] <= 7)
            &&& r matches Ok(p) ==> decodes_as(p, s, i) && final(buffer).index()
                == payload_end(s[i], s, i + 1)
            &&& r matches Err(e) ==> {
                let j = final(buffer).index();
                ||| i >= s.len() && e.kind == ErrorKind::UnreadBytesError && j == i
                ||| i < s.len() && s[i] > 7 && e.kind == ErrorKind::InvalidPacket && j == i + 1
            }
        }),
{
    let byte = buffer::read_byte(buffer)?;
    let packet = get_packet_by_bit(byte)?;
    match packet {
        Packet::Login { .. } => {
            let username = read_text(buffer);
            let password = read_text(buffer);
            Ok(Packet::Login { username, password })
        },
        Packet::Logout { .. } => {
            let token = read_text(buffer);
            Ok(Packet::Logout(token))
        },
        Packet::Chat { .. } => {
            let message = read_text(buffer);
            Ok(Packet::Chat(message))
        },
        Packet::Build { .. } => {
            let building = read_id(buffer);
            Ok(Packet::Build(building))
        },
        Packet::Upgrade { .. } => {
            let building = read_id(buffer);
            Ok(Packet::Upgrade(building))
        },
        Packet::Destroy { .. } => {
            let building = read_id(buffer);
            Ok(Packet::Destroy(building))
        },
        Packet::Cancel { .. } => {
            let building = read_id(buffer);
            Ok(Packet::Cancel(building))
        },
        Packet::Error { .. } => {
            let message = read_text(buffer);
            Ok(Packet::Error { message })
        },
    }
}

/// Writing `a` then `b` at `at` is writing `a + b` there.
proof fn lemma_splice_twice(s: Seq<u8>, at: int, a: Seq<u8>, b: Seq<u8>)
    requires
        0 <= at,
        at + a.len() + b.len() <= s.len(),
    ensures
        splice(splice(s, at, a), at + a.len(), b) == splice(s, at, a + b),
{
    assert(splice(splice(s, at, a), at + a.len(), b) =~= splice(s, at, a + b));
}

fn write_text(buffer: &mut Buffer, value: &String)
    requires
        old(buffer).wf(),
        old(buffer).index() + 2 <= old(buffer).bytes().len(),
        old(buffer).size() + text_field(value@).len() <= old(buffer).bytes().len(),
    ensures
        final(buffer).wf(),
        final(buffer).bytes() == splice(
            old(buffer).bytes(),
            old(buffer).size() as int,
            text_field(value@),
        ),
        final(buffer).size() == old(buffer).size() + text_field(value@).len(),
        final(buffer).index() == old(buffer).index(),
{
    buffer::write_string(buffer, value.as_str()).unwrap();
}

fn write_id(buffer: &mut Buffer, id: i32)
    requires
        old(buffer).wf(),
        old(buffer).index() + 4 <= old(buffer).bytes().len(),
        old(buffer).size() + 4 <= old(buffer).bytes().len(),
    ensures
        final(buffer).wf(),
        final(buffer).bytes() == splice(
            old(buffer).bytes(),
            old(buffer).size() as int,
            u32_le(i32_bits(id)),
        ),
        final(buffer).size() == old(buffer).size() + 4,
        final(buffer).index() == old(buffer).index(),
{
    buffer::write_integer(buffer, &to_u32(id)).unwrap();
}

/// Writes the wire form of a packet at the write head.
pub fn set_packet(buffer: &mut Buffer, p: &Packet)
    requires
        old(buffer).wf(),
        old(buffer).index() + widest_write(*p) <= old(buffer).bytes().len(),
        old(buffer).size() + packet_bytes(*p).len() <= old(buffer).bytes().len(),
    ensures
        final(buffer).wf(),
        final(buffer).bytes() == splice(
            old(buffer).bytes(),
            old(buffer).size() as int,
            packet_bytes(*p),
        ),
        final(buffer).size() == old(buffer).size() + packet_bytes(*p).len(),
        final(buffer).index() == old(buffer).index(),
{
    let ghost s0 = buffer.bytes();
    let ghost at = buffer.size() as int;
    let ptype = get_packet_type(p);
    buffer::write_byte(buffer, &ptype).unwrap();
    let ghost s1 = buffer.bytes();
    match p {
        Packet::Login { username, password } => {
            write_text(buffer, username);
            let ghost s2 = buffer.bytes();
            write_text(buffer, password);
            proof {
                let a = seq![ptype];
                let u = text_field(username@);
                let w = text_field(password@);
                lemma_splice_twice(s0, at, a, u);
                lemma_splice_twice(s0, at, a + u, w);
                assert(a + u + w == packet_bytes(*p));
            }
        },
        Packet::Logout(token) => {
            write_text(buffer, token);
            proof {
                lemma_splice_twice(s0, at, seq![ptype], text_field(token@));
            }
        },
        Packet::Chat(msg) => {
            write_text(buffer, msg);
            proof {
                lemma_splice_twice(s0, at, seq![ptype], text_field(msg@));
            }
        },
        Packet::Build(id) => {
            write_id(buffer, *id);
            proof {
                lemma_splice_twice(s0, at, seq![ptype], u32_le(i32_bits(*id)));
            }
        },
        Packet::Upgrade(id) => {
            write_id(buffer, *id);
            proof {
                lemma_splice_twice(s0, at, seq![ptype], u32_le(i32_bits(*id)));
            }
        },
        Packet::Destroy(id) => {
            write_id(buffer, *id);
            proof {
                lemma_splice_twice(s0, at, seq![ptype], u32_le(i32_bits(*id)));
            }
        },
        Packet::Cancel(id) => {
            write_id(buffer, *id);
            proof {
                lemma_splice_twice(s0, at, seq![ptype], u32_le(i32_bits(*id)));
            }
        },
        Packet::Error { message } => {
            write_text(buffer, message);
            proof {
                lemma_splice_twice(s0, at, seq![ptype], text_field(message@));
            }
        },
    }
}

proof fn lemma_u16_roundtrip(v: u16, s: Seq<u8>, j: int)
    requires
        0 <= j,
        j + 2 <= s.len(),
        s.subrange(j, j + 2) == u16_le(v),
    ensures
        le_u16_at(s, j) == v,
{
    assert(s[j] == s.subrange(j, j + 2)[0]);
    assert(s[j + 1] == s.subrange(j, j + 2)[1]);
    assert((v % 256) + 256 * (v / 256) == v);
}

proof fn lemma_u32_roundtrip(v: u32, s: Seq<u8>, j: int)
    requires
        0 <= j,
        j + 4 <= s.len(),
        s.subrange(j, j + 4) == u32_le(v),
    ensures
        le_u32_at(s, j) == v,
{
    let lo = (v % 65536) as u16;
    let hi = (v / 65536) as u16;
    assert(s.subrange(j, j + 2) =~= s.subrange(j, j + 4).subrange(0, 2));
    assert(s.subrange(j + 2, j + 4) =~= s.subrange(j, j + 4).subrange(2, 4));
    assert(u32_le(v).subrange(0, 2) =~= u16_le(lo));
    assert(u32_le(v).subrange(2, 4) =~= u16_le(hi));
    lemma_u16_roundtrip(lo, s, j);
    lemma_u16_roundtrip(hi, s, j + 2);
    assert(lo + 65536 * hi == v);
}

proof fn lemma_text_roundtrip(x: Seq<char>, s: Seq<u8>, j: int)
    requires
        encode_utf8(x).len() < 65536,
        0 <= j,
        j + text_field(x).len() <= s.len(),
        s.subrange(j, j + text_field(x).len()) == text_field(x),
    ensures
        text_readable(s, j),
        text_end(s, j) == j + text_field(x).len(),
        text_at(s, j) == x,
{
    let b = encode_utf8(x);
    let n = b.len();
    let f = text_field(x);
    assert(s.subrange(j, j + 2) =~= f.subrange(0, 2));
    assert(f.subrange(0, 2) =~= u16_le((n % 65536) as u16));
    lemma_u16_roundtrip((n % 65536) as u16, s, j);
    assert(le_u16_at(s, j) == n);
    assert(s.subrange(j + 2, j + 2 + n) =~= f.subrange(2, 2 + n as int));
    assert(f.subrange(2, 2 + n as int) =~= b);
    encode_utf8_valid_utf8(x);
    encode_utf8_decode_utf8(x);
}

proof fn lemma_id_roundtrip(id: i32, s: Seq<u8>, j: int)
    requires
        0 <= j,
        j + 4 <= s.len(),
        s.subrange(j, j + 4) == u32_le(i32_bits(id)),
    ensures
        bits_i32(le_u32_at(s, j)) == id,
{
    lemma_u32_roundtrip(i32_bits(id), s, j);
}

/// Decoding undoes encoding: wherever the wire form of a packet stands in a
/// byte sequence, it is a complete packet with a valid type byte that decodes
/// to the same packet (its texts as the same character sequences) and ends
/// right after that wire form. This holds of every packet whose texts each
/// encode to fewer than 2^16 bytes.
pub proof fn lemma_packet_roundtrip(p: Packet, s: Seq<u8>, i: int)
    requires
        texts_fit(p),
        0 <= i,
        i + packet_bytes(p).len() <= s.len(),
        s.subrange(i, i + packet_bytes(p).len()) == packet_bytes(p),
    ensures
        s[i] <= 7,
        packet_complete(s, i),
        decodes_as(p, s, i),
        payload_end(s[i], s, i + 1) == i + packet_bytes(p).len(),
{
    let w = packet_bytes(p);
    let pl = payload_bytes(p);
    let j = i + 1;
    assert(s[i] == w[0]);
    assert(s.subrange(j, j + pl.len()) =~= w.subrange(1, w.len() as int));
    assert(w.subrange(1, w.len() as int) =~= pl);
    match p {
        Packet::Login { username, password } => {
            let u = text_field(username@);
            let v = text_field(password@);
            assert(s.subrange(j, j + u.len()) =~= pl.subrange(0, u.len() as int));
            assert(pl.subrange(0, u.len() as int) =~= u);
            lemma_text_roundtrip(username@, s, j);
            let k = j + u.len();
            assert(s.subrange(k, k + v.len()) =~= pl.subrange(u.len() as int, pl.len() as int));
            assert(pl.subrange(u.len() as int, pl.len() as int) =~= v);
            lemma_text_roundtrip(password@, s, k);
        },
        Packet::Logout(t) => {
            lemma_text_roundtrip(t@, s, j);
        },
        Packet::Chat(m) => {
            lemma_text_roundtrip(m@, s, j);
        },
        Packet::Build(id) => {
            lemma_id_roundtrip(id, s, j);
        },
        Packet::Upgrade(id) => {
            lemma_id_roundtrip(id, s, j);
        },
        Packet::Destroy(id) => {
            lemma_id_roundtrip(id, s, j);
        },
        Packet::Cancel(id) => {
            lemma_id_roundtrip(id, s, j);
        },
        Packet::Error { message } => {
            lemma_text_roundtrip(message@, s, j);
        },
    }
}

/// What is written is what is read: after `set_packet` has written `p` at
/// the write head of `before`, giving `after`, the packet stored from that
/// position on is complete, has a valid type byte, decodes to `p` and ends
/// where the new write head stands (each text of `p` encoding to fewer than
/// 2^16 bytes).
pub proof fn lemma_written_packet_reads_back(before: Buffer, after: Buffer, p: Packet)
    requires
        before.wf(),
        texts_fit(p),
        before.size() + packet_bytes(p).len() <= before.bytes().len(),
        after.bytes() == splice(before.bytes(), before.size() as int, packet_bytes(p)),
        after.size() == before.size() + packet_bytes(p).len(),
    ensures
        ({
            let s = after.bytes();
            let i = before.size() as int;
            &&& s[i] <= 7
            &&& packet_complete(s, i)
            &&& decodes_as(p, s, i)
            &&& payload_end(s[i], s, i + 1) == after.size()
        }),
{
    let i = before.size() as int;
    let w = packet_bytes(p);
    assert(after.bytes().subrange(i, i + w.len()) =~= w);
    lemma_packet_roundtrip(p, after.bytes(), i);
}

/// The number a building id is sent as: the id itself when it is not
/// negative, else the id plus 2^32 (its two's complement bits).
pub open spec fn id_on_wire(id: i32) -> int {
    if id >= 0 {
        id as int
    } else {
        id + 4294967296
    }
}

/// The number held little-endian by the four bytes of `s` from `j` on.
pub open spec fn four_bytes_at(s: Seq<u8>, j: int) -> int {
    s[j] + 256 * s[j + 1] + 65536 * s[j + 2] + 16777216 * s[j + 3]
}

/// The building id a number received on the wire stands for: the number
/// itself below 2^31, else the number less 2^32.
pub open spec fn id_from_wire(w: int) -> int {
    if w < 2147483648 {
        w
    } else {
        w - 4294967296
    }
}

proof fn lemma_u32_le_value(v: u32)
    ensures
        u32_le(v).len() == 4,
        four_bytes_at(u32_le(v), 0) == v,
{
    let lo = (v % 65536) as u16;
    let hi = (v / 65536) as u16;
    assert(lo % 256 + 256 * (lo / 256) == lo);
    assert(hi % 256 + 256 * (hi / 256) == hi);
    assert(lo + 65536 * hi == v);
    let b = u32_le(v);
    assert(b[0] == (lo % 256) as u8 && b[1] == (lo / 256) as u8);
    assert(b[2] == (hi % 256) as u8 && b[3] == (hi / 256) as u8);
}

/// The type byte of every kind of packet is the one the protocol fixes:
/// 0 login, 1 logout, 2 chat, 3 build, 4 upgrade, 5 destroy, 6 cancel and
/// 7 error; it is the first byte written.
pub proof fn lemma_type_bytes(p: Packet)
    ensures
        p is Login ==> packet_bytes(p)[0] == 0,
        p is Logout ==> packet_bytes(p)[0] == 1,
        p is Chat ==> packet_bytes(p)[0] == 2,
        p is Build ==> packet_bytes(p)[0] == 3,
        p is Upgrade ==> packet_bytes(p)[0] == 4,
        p is Destroy ==> packet_bytes(p)[0] == 5,
        p is Cancel ==> packet_bytes(p)[0] == 6,
        p is Error ==> packet_bytes(p)[0] == 7,
{
}

/// The type byte decides the kind of the packet read: 0 a login, 1 a
/// logout, 2 a chat message, 3 a build, 4 an upgrade, 5 a destroy, 6 a
/// cancel and 7 an error.
pub proof fn lemma_type_byte_names_kind(p: Packet, s: Seq<u8>, i: int)
    requires
        0 <= i < s.len(),
        decodes_as(p, s, i),
    ensures
        s[i] == 0 ==> p is Login,
        s[i] == 1 ==> p is Logout,
        s[i] == 2 ==> p is Chat,
        s[i] == 3 ==> p is Build,
        s[i] == 4 ==> p is Upgrade,
        s[i] == 5 ==> p is Destroy,
        s[i] == 6 ==> p is Cancel,
        s[i] == 7 ==> p is Error,
{
}

/// A build, upgrade, destroy or cancel packet is sent as its type byte and
/// then the id as four little-endian bytes: the id itself when it is not
/// negative, its two's complement (the id plus 2^32) when it is.
pub proof fn lemma_id_packet_bytes(id: i32)
    ensures
        packet_bytes(Packet::Build(id)) == seq![3u8] + packet_bytes(Packet::Build(id)).subrange(1, 5),
        packet_bytes(Packet::Upgrade(id)) == seq![4u8] + packet_bytes(Packet::Upgrade(id)).subrange(1, 5),
        packet_bytes(Packet::Destroy(id)) == seq![5u8] + packet_bytes(Packet::Destroy(id)).subrange(1, 5),
        packet_bytes(Packet::Cancel(id)) == seq![6u8] + packet_bytes(Packet::Cancel(id)).subrange(1, 5),
        four_bytes_at(packet_bytes(Packet::Build(id)), 1) == id_on_wire(id),
        four_bytes_at(packet_bytes(Packet::Upgrade(id)), 1) == id_on_wire(id),
        four_bytes_at(packet_bytes(Packet::Destroy(id)), 1) == id_on_wire(id),
        four_bytes_at(packet_bytes(Packet::Cancel(id)), 1) == id_on_wire(id),
{
    lemma_u32_le_value(i32_bits(id));
    let b = u32_le(i32_bits(id));
    assert(i32_bits(id) == id_on_wire(id));
    assert(packet_bytes(Packet::Build(id)) =~= seq![3u8] + b);
    assert(packet_bytes(Packet::Upgrade(id)) =~= seq![4u8] + b);
    assert(packet_bytes(Packet::Destroy(id)) =~= seq![5u8] + b);
    assert(packet_bytes(Packet::Cancel(id)) =~= seq![6u8] + b);
    assert((seq![3u8] + b).subrange(1, 5) =~= b);
    assert((seq![4u8] + b).subrange(1, 5) =~= b);
    assert((seq![5u8] + b).subrange(1, 5) =~= b);
    assert((seq![6u8] + b).subrange(1, 5) =~= b);
}

/// The id of a build, upgrade, destroy or cancel packet read from `s` at `i`
/// is the number held by the four little-endian bytes after the type byte,
/// taken as two's complement: that number below 2^31, else it less 2^32.
pub proof fn lemma_id_packet_read(p: Packet, s: Seq<u8>, i: int)
    requires
        0 <= i,
        i + 5 <= s.len(),
        decodes_as(p, s, i),
    ensures
        p matches Packet::Build(id) ==> id == id_from_wire(four_bytes_at(s, i + 1)),
        p matches Packet::Upgrade(id) ==> id == id_from_wire(four_bytes_at(s, i + 1)),
        p matches Packet::Destroy(id) ==> id == id_from_wire(four_bytes_at(s, i + 1)),
        p matches Packet::Cancel(id) ==> id == id_from_wire(four_bytes_at(s, i + 1)),
{
    let j = i + 1;
    let lo = s[j] + 256 * s[j + 1];
    let hi = s[j + 2] + 256 * s[j + 3];
    assert(le_u16_at(s, j) == lo);
    assert(le_u16_at(s, j + 2) == hi);
    assert(le_u32_at(s, j) == lo + 65536 * hi);
}

/// A login is sent as type byte 0, then the username as a text field, then
/// the password as a text field.
pub proof fn lemma_login_bytes(username: String, password: String)
    ensures
        packet_bytes(Packet::Login { username, password }) == seq![0u8] + text_field(username@)
            + text_field(password@),
{
    assert(packet_bytes(Packet::Login { username, password }) =~= seq![0u8] + text_field(username@)
        + text_field(password@));
}

/// A login read from `s` at `i` has as its username the text of the first
/// field after the type byte, and as its password the text of the field
/// that follows.
pub proof fn lemma_login_read(p: Packet, s: Seq<u8>, i: int)
    requires
        decodes_as(p, s, i),
        p is Login,
    ensures
        p matches Packet::Login { username, password } && username@ == text_at(s, i + 1)
            && password@ == text_at(s, text_end(s, i + 1)),
{
}

/// A text field is sent as the number of UTF-8 bytes of the text, in two
/// little-endian bytes, then those bytes; it is read back from a field at
/// `i` by taking as many bytes as the two bytes at `i` count.
pub proof fn lemma_text_field_bytes(x: Seq<char>, s: Seq<u8>, i: int)
    requires
        encode_utf8(x).len() < 65536,
    ensures
        text_field(x).len() == 2 + encode_utf8(x).len(),
        text_field(x)[0] + 256 * text_field(x)[1] == encode_utf8(x).len(),
        text_field(x).subrange(2, text_field(x).len() as int) == encode_utf8(x),
        text_end(s, i) == i + 2 + s[i] + 256 * s[i + 1],
        text_at(s, i) == lossy_text(s.subrange(i + 2, i + 2 + s[i] + 256 * s[i + 1])),
{
    let n = (encode_utf8(x).len() % 65536) as u16;
    assert(n == encode_utf8(x).len());
    assert(n % 256 + 256 * (n / 256) == n);
    assert(text_field(x).subrange(2, text_field(x).len() as int) =~= encode_utf8(x));
    assert(le_u16_at(s, i) == s[i] + 256 * s[i + 1]);
}

/// A logout, chat or error packet is sent as its type byte and then its one
/// text as a text field.
pub proof fn lemma_single_text_packet_bytes(t: String)
    ensures
        packet_bytes(Packet::Logout(t)) == seq![1u8] + text_field(t@),
        packet_bytes(Packet::Chat(t)) == seq![2u8] + text_field(t@),
        packet_bytes(Packet::Error { message: t }) == seq![7u8] + text_field(t@),
{
    assert(packet_bytes(Packet::Logout(t)) =~= seq![1u8] + text_field(t@));
    assert(packet_bytes(Packet::Chat(t)) =~= seq![2u8] + text_field(t@));
    assert(packet_bytes(Packet::Error { message: t }) =~= seq![7u8] + text_field(t@));
}

/// The text of a logout, chat or error packet read from `s` at `i` is the
/// text of the field right after the type byte.
pub proof fn lemma_single_text_packet_read(p: Packet, s: Seq<u8>, i: int)
    requires
        decodes_as(p, s, i),
    ensures
        p matches Packet::Logout(t) ==> t@ == text_at(s, i + 1),
        p matches Packet::Chat(t) ==> t@ == text_at(s, i + 1),
        p matches Packet::Error { message } ==> message@ == text_at(s, i + 1),
{
}

} // verus!
