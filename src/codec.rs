use vstd::prelude::*;
use byteorder::{ByteOrder, LittleEndian};
use xz_decom::XZError;

verus! {

/// The unsigned integer stored little-endian in the two bytes at `p`.
pub open spec fn le16(s: Seq<u8>, p: int) -> int {
    s[p] as int + 256 * (s[p + 1] as int)
}

/// The unsigned integer stored little-endian in the four bytes at `p`.
pub open spec fn le32(s: Seq<u8>, p: int) -> int {
    le16(s, p) + 65536 * le16(s, p + 2)
}

/// The unsigned integer stored little-endian in the eight bytes at `p`.
pub open spec fn le64(s: Seq<u8>, p: int) -> int {
    le32(s, p) + 4294967296 * le32(s, p + 4)
}

/// The position of the first zero byte at or after `p`, if there is one.
pub open spec fn find_nul(s: Seq<u8>, p: int) -> Option<int>
    decreases s.len() - p,
{
    if p < 0 || p >= s.len() {
        None
    } else if s[p] == 0 {
        Some(p)
    } else {
        find_nul(s, p + 1)
    }
}

/// A found terminator lies in the data, at or after `p`, and no zero byte precedes it.
pub proof fn lemma_find_nul(s: Seq<u8>, p: int)
    ensures
        find_nul(s, p) matches Some(e) ==> {
            &&& p <= e < s.len()
            &&& s[e] == 0
            &&& forall|k: int| p <= k < e ==> s[k] != 0
        },
        find_nul(s, p) is None && p >= 0 ==> forall|k: int| p <= k < s.len() ==> s[k] != 0,
    decreases s.len() - p,
{
    if p >= 0 && p < s.len() && s[p] != 0 {
        lemma_find_nul(s, p + 1);
    }
}

/// The text that a byte sequence encodes in UTF-8, or `None` where it is not valid UTF-8.
pub uninterp spec fn utf8_text(b: Seq<u8>) -> Option<Seq<char>>;

/// The bytes that an XZ stream decompresses to, or `None` where decompression fails.
pub uninterp spec fn xz_output(b: Seq<u8>) -> Option<Seq<u8>>;

/// Relies on byteorder's `LittleEndian::read_u16`: the two bytes at `pos`, least significant first.
#[verifier::external_body]
pub(crate) fn read_u16_at(buf: &[u8], pos: usize) -> (r: u16)
    requires
        pos + 2 <= buf@.len(),
    ensures
        r as int == le16(buf@, pos as int),
{
    LittleEndian::read_u16(&buf[pos..])
}

/// Relies on byteorder's `LittleEndian::read_u32`: the four bytes at `pos`, least significant first.
#[verifier::external_body]
pub(crate) fn read_u32_at(buf: &[u8], pos: usize) -> (r: u32)
    requires
        pos + 4 <= buf@.len(),
    ensures
        r as int == le32(buf@, pos as int),
{
    LittleEndian::read_u32(&buf[pos..])
}

/// Relies on byteorder's `LittleEndian::read_u64`: the eight bytes at `pos`, least significant first.
#[verifier::external_body]
pub(crate) fn read_u64_at(buf: &[u8], pos: usize) -> (r: u64)
    requires
        pos + 8 <= buf@.len(),
    ensures
        r as int == le64(buf@, pos as int),
{
    LittleEndian::read_u64(&buf[pos..])
}

/// Relies on `String::from_utf8`: it succeeds exactly on valid UTF-8 and then keeps the text.
/// In UTF-8 the byte 0 encodes U+0000 and occurs in no other encoding, so bytes
/// without a zero give text without a NUL character.
#[verifier::external_body]
pub(crate) fn text_from_utf8(b: Vec<u8>) -> (r: Option<String>)
    ensures
        r is Some <==> utf8_text(b@) is Some,
        r matches Some(t) ==> t@ == utf8_text(b@)->0,
        r matches Some(t) ==> ((forall|i: int| 0 <= i < b@.len() ==> b@[i] != 0) ==> (forall|j: int|
            0 <= j < t@.len() ==> t@[j] != '\0')),
{
    String::from_utf8(b).ok()
}

/// Relies on `xz_decom::decompress`: the decompressed bytes of one XZ stream, or its error.
#[verifier::external_body]
pub(crate) fn decompress_xz(b: &[u8]) -> (r: Result<Vec<u8>, XZError>)
    ensures
        r is Ok <==> xz_output(b@) is Some,
        r matches Ok(v) ==> v@ == xz_output(b@)->0,
{
    xz_decom::decompress(b)
}

/// The position of the first zero byte at or after `p` in `s`, if any.
pub fn find_terminator(s: &[u8], p: usize) -> (r: Option<usize>)
    ensures
        r is Some <==> find_nul(s@, p as int) is Some,
        r matches Some(e) ==> e as int == find_nul(s@, p as int)->0,
{
    let mut q: usize = p;
    while q < s.len()
        invariant
            p <= q,
            find_nul(s@, p as int) == find_nul(s@, q as int),
        decreases s@.len() - q,
    {
        if s[q] == 0 {
            return Some(q);
        }
        q = q + 1;
    }
    None
}

} // verus!
