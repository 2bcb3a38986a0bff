//! Seed lists of the program-derived authorities. The runtime maps a seed list
//! and a bump to an address; presenting the same list lets the program sign for
//! that address without a private key.

use vstd::prelude::*;
use crate::bytes::{Pubkey, le_u16, le_u64, u64_to_le};

verus! {

/// The bytes of the word "escrow".
pub open spec fn escrow_tag() -> Seq<u8> {
    seq![0x65u8, 0x73, 0x63, 0x72, 0x6f, 0x77]
}

/// The bytes of the word "protocol".
pub open spec fn protocol_tag() -> Seq<u8> {
    seq![0x70u8, 0x72, 0x6f, 0x74, 0x6f, 0x63, 0x6f, 0x6c]
}

/// The escrow record's authority: `"escrow"`, the maker, the seed as eight
/// little-endian bytes, and the bump.
pub fn escrow_seeds(maker: &Pubkey, seed: u64, bump: u8) -> (r: Vec<Vec<u8>>)
    ensures
        r@.len() == 4,
        r@[0]@ == escrow_tag(),
        r@[1]@ == maker@,
        r@[2]@.len() == 8 && le_u64(r@[2]@) == seed,
        r@[3]@ == seq![bump],
{
    let tag: Vec<u8> = vec![0x65, 0x73, 0x63, 0x72, 0x6f, 0x77];
    assert(tag@ =~= escrow_tag());
    let mut m: Vec<u8> = Vec::new();
    let mut i: usize = 0;
    while i < 32
        invariant
            i <= 32,
            m@ == maker@.subrange(0, i as int),
        decreases 32 - i,
    {
        m.push(maker[i]);
        i += 1;
        assert(m@ =~= maker@.subrange(0, i as int));
    }
    assert(m@ =~= maker@);
    let bytes = u64_to_le(seed);
    let s: Vec<u8> = vec![bytes[0], bytes[1], bytes[2], bytes[3], bytes[4], bytes[5], bytes[6], bytes[7]];
    assert(s@ =~= bytes@);
    let b: Vec<u8> = vec![bump];
    assert(b@ =~= seq![bump]);
    vec![tag, m, s, b]
}

/// The single-asset pool's authority: `"protocol"` and the bump.
pub fn protocol_seeds(bump: u8) -> (r: Vec<Vec<u8>>)
    ensures
        r@.len() == 2,
        r@[0]@ == protocol_tag(),
        r@[1]@ == seq![bump],
{
    let tag: Vec<u8> = vec![0x70, 0x72, 0x6f, 0x74, 0x6f, 0x63, 0x6f, 0x6c];
    assert(tag@ =~= protocol_tag());
    let b: Vec<u8> = vec![bump];
    assert(b@ =~= seq![bump]);
    vec![tag, b]
}

/// The batched pools' authority: `"protocol"`, the fee in basis points as two
/// little-endian bytes, and the bump.
pub fn batch_protocol_seeds(fee_bps: u16, bump: u8) -> (r: Vec<Vec<u8>>)
    ensures
        r@.len() == 3,
        r@[0]@ == protocol_tag(),
        r@[1]@.len() == 2 && le_u16(r@[1]@) == fee_bps,
        r@[2]@ == seq![bump],
{
    let tag: Vec<u8> = vec![0x70, 0x72, 0x6f, 0x74, 0x6f, 0x63, 0x6f, 0x6c];
    assert(tag@ =~= protocol_tag());
    let fee: Vec<u8> = vec![(fee_bps % 0x100) as u8, (fee_bps / 0x100) as u8];
    let b: Vec<u8> = vec![bump];
    assert(b@ =~= seq![bump]);
    vec![tag, fee, b]
}

} // verus!
