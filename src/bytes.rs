//! Account identities and little-endian field extraction from raw payloads.

use vstd::prelude::*;

verus! {

/// A 32-byte account identity.
pub type Pubkey = [u8; 32];

/// Relies on pinocchio::pubkey::pubkey_eq: true exactly when all 32 bytes agree.
#[verifier::external_body]
pub(crate) fn pubkey_eq(a: &Pubkey, b: &Pubkey) -> (r: bool)
    ensures
        r == (*a == *b),
{
    pinocchio::pubkey::pubkey_eq(a, b)
}

/// Value of two little-endian bytes.
pub open spec fn le_u16(b: Seq<u8>) -> int {
    b[0] + b[1] * 0x100
}

/// Value of eight little-endian bytes.
pub open spec fn le_u64(b: Seq<u8>) -> int {
    b[0] + b[1] * 0x100 + b[2] * 0x1_0000 + b[3] * 0x100_0000 + b[4] * 0x1_0000_0000
        + b[5] * 0x100_0000_0000 + b[6] * 0x1_0000_0000_0000 + b[7] * 0x100_0000_0000_0000
}

/// Reads the little-endian `u16` at `off`, or `None` when the buffer is too short.
pub fn read_u16_le(data: &[u8], off: usize) -> (r: Option<u16>)
    ensures
        r is Some <==> off + 2 <= data@.len(),
        r matches Some(v) ==> v == le_u16(data@.subrange(off as int, off + 2)),
{
    if off > data.len() || data.len() - off < 2 {
        return None;
    }
    let v: u16 = data[off] as u16 + data[off + 1] as u16 * 0x100;
    Some(v)
}

/// Reads the little-endian `u64` at `off`, or `None` when the buffer is too short.
pub fn read_u64_le(data: &[u8], off: usize) -> (r: Option<u64>)
    ensures
        r is Some <==> off + 8 <= data@.len(),
        r matches Some(v) ==> v == le_u64(data@.subrange(off as int, off + 8)),
{
    if off > data.len() || data.len() - off < 8 {
        return None;
    }
    let v: u64 = data[off] as u64 + data[off + 1] as u64 * 0x100 + data[off + 2] as u64 * 0x1_0000
        + data[off + 3] as u64 * 0x100_0000 + data[off + 4] as u64 * 0x1_0000_0000
        + data[off + 5] as u64 * 0x100_0000_0000 + data[off + 6] as u64 * 0x1_0000_0000_0000
        + data[off + 7] as u64 * 0x100_0000_0000_0000;
    Some(v)
}

/// Whether `data` begins with `prefix`.
pub fn has_prefix(data: &[u8], prefix: &[u8]) -> (r: bool)
    ensures
        r == (prefix@.len() <= data@.len() && data@.subrange(0, prefix@.len() as int) == prefix@),
{
    if prefix.len() > data.len() {
        return false;
    }
    let mut i: usize = 0;
    while i < prefix.len()
        invariant
            i <= prefix@.len() <= data@.len(),
            forall|j: int| 0 <= j < i ==> data@[j] == prefix@[j],
        decreases prefix@.len() - i,
    {
        if data[i] != prefix[i] {
            assert(data@.subrange(0, prefix@.len() as int)[i as int] != prefix@[i as int]);
            return false;
        }
        i += 1;
    }
    assert(data@.subrange(0, prefix@.len() as int) =~= prefix@);
    true
}

/// The eight little-endian bytes of `v`.
pub fn u64_to_le(v: u64) -> (r: [u8; 8])
    ensures
        le_u64(r@) == v,
{
    assert((v & 0xff) < 0x100 && ((v >> 8) & 0xff) < 0x100 && ((v >> 16) & 0xff) < 0x100
        && ((v >> 24) & 0xff) < 0x100 && ((v >> 32) & 0xff) < 0x100 && ((v >> 40) & 0xff) < 0x100
        && ((v >> 48) & 0xff) < 0x100 && ((v >> 56) & 0xff) < 0x100) by (bit_vector);
    let b0 = (v & 0xff) as u8;
    let b1 = ((v >> 8) & 0xff) as u8;
    let b2 = ((v >> 16) & 0xff) as u8;
    let b3 = ((v >> 24) & 0xff) as u8;
    let b4 = ((v >> 32) & 0xff) as u8;
    let b5 = ((v >> 40) & 0xff) as u8;
    let b6 = ((v >> 48) & 0xff) as u8;
    let b7 = ((v >> 56) & 0xff) as u8;
    assert(v == (v & 0xff) + ((v >> 8) & 0xff) * 0x100 + ((v >> 16) & 0xff) * 0x1_0000
        + ((v >> 24) & 0xff) * 0x100_0000 + ((v >> 32) & 0xff) * 0x1_0000_0000
        + ((v >> 40) & 0xff) * 0x100_0000_0000 + ((v >> 48) & 0xff) * 0x1_0000_0000_0000
        + ((v >> 56) & 0xff) * 0x100_0000_0000_0000) by (bit_vector);
    let r = [b0, b1, b2, b3, b4, b5, b6, b7];
    assert(r@[0] == b0 && r@[1] == b1 && r@[2] == b2 && r@[3] == b3);
    assert(r@[4] == b4 && r@[5] == b5 && r@[6] == b6 && r@[7] == b7);
    r
}

/// Reads the 32-byte identity at `off`, or `None` when the buffer is too short.
pub fn read_pubkey(data: &[u8], off: usize) -> (r: Option<Pubkey>)
    ensures
        r is Some <==> off + 32 <= data@.len(),
        r matches Some(k) ==> k@ == data@.subrange(off as int, off + 32),
{
    if off > data.len() || data.len() - off < 32 {
        return None;
    }
    let mut k: Pubkey = [0u8; 32];
    let len = data.len();
    let mut i: usize = 0;
    while i < 32
        invariant
            len == data@.len(),
            i <= 32,
            off + 32 <= data@.len(),
            k@.len() == 32,
            forall|j: int| 0 <= j < i ==> k@[j] == data@[off + j],
        decreases 32 - i,
    {
        k.set(i, data[off + i]);
        i += 1;
    }
    assert(k@ =~= data@.subrange(off as int, off + 32));
    Some(k)
}

} // verus!
