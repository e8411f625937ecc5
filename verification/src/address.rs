//! 20-byte account and contract addresses.

use vstd::prelude::*;

verus! {

/// A 20-byte address, held as three big-endian words: bytes 0..4 in
/// `high`, bytes 4..12 in `mid` and bytes 12..20 in `low`. Comparing the
/// words in this order compares the addresses byte by byte.
#[derive(Debug, Clone, Copy, PartialEq, Eq, Hash, PartialOrd, Ord, Structural)]
pub struct Address {
    pub high: u32,
    pub mid: u64,
    pub low: u64,
}

/// The text `alloy` shows for an address.
pub uninterp spec fn spec_address_text(a: Address) -> Seq<char>;

/// `alloy`'s `Display` of an address: "0x" and the 40 hex digits in their
/// checksummed case. The text is a function of the address alone.
#[verifier::external_body]
pub(crate) fn address_text(a: Address) -> (r: String)
    ensures
        r@ == spec_address_text(a),
{
    let mut b = [0u8; 20];
    b[0..4].copy_from_slice(&a.high.to_be_bytes());
    b[4..12].copy_from_slice(&a.mid.to_be_bytes());
    b[12..20].copy_from_slice(&a.low.to_be_bytes());
    alloy::primitives::Address::from(b).to_string()
}

/// The 20 bytes of an address, most significant first.
pub open spec fn spec_address_bytes(a: Address) -> Seq<u8> {
    seq![
        (a.high >> 24u32) as u8, (a.high >> 16u32) as u8, (a.high >> 8u32) as u8, a.high as u8,
        (a.mid >> 56u64) as u8, (a.mid >> 48u64) as u8, (a.mid >> 40u64) as u8, (a.mid >> 32u64) as u8,
        (a.mid >> 24u64) as u8, (a.mid >> 16u64) as u8, (a.mid >> 8u64) as u8, a.mid as u8,
        (a.low >> 56u64) as u8, (a.low >> 48u64) as u8, (a.low >> 40u64) as u8, (a.low >> 32u64) as u8,
        (a.low >> 24u64) as u8, (a.low >> 16u64) as u8, (a.low >> 8u64) as u8, a.low as u8,
    ]
}

/// The 20 bytes of an address, most significant first.
pub fn address_bytes(a: Address) -> (r: [u8; 20])
    ensures
        r@ == spec_address_bytes(a),
{
    let r = [
        (a.high >> 24u32) as u8, (a.high >> 16u32) as u8, (a.high >> 8u32) as u8, a.high as u8,
        (a.mid >> 56u64) as u8, (a.mid >> 48u64) as u8, (a.mid >> 40u64) as u8, (a.mid >> 32u64) as u8,
        (a.mid >> 24u64) as u8, (a.mid >> 16u64) as u8, (a.mid >> 8u64) as u8, a.mid as u8,
        (a.low >> 56u64) as u8, (a.low >> 48u64) as u8, (a.low >> 40u64) as u8, (a.low >> 32u64) as u8,
        (a.low >> 24u64) as u8, (a.low >> 16u64) as u8, (a.low >> 8u64) as u8, a.low as u8,
    ];
    assert(r@ =~= spec_address_bytes(a));
    r
}

proof fn lemma_be_u32(b0: u8, b1: u8, b2: u8, b3: u8, x: u32)
    by (bit_vector)
    requires
        x == ((b0 as u32) << 24u32) | ((b1 as u32) << 16u32) | ((b2 as u32) << 8u32) | (b3 as u32),
    ensures
        (x >> 24u32) as u8 == b0,
        (x >> 16u32) as u8 == b1,
        (x >> 8u32) as u8 == b2,
        x as u8 == b3,
{
}

proof fn lemma_be_u64(b0: u8, b1: u8, b2: u8, b3: u8, b4: u8, b5: u8, b6: u8, b7: u8, x: u64)
    by (bit_vector)
    requires
        x == ((b0 as u64) << 56u64) | ((b1 as u64) << 48u64) | ((b2 as u64) << 40u64) | ((b3 as u64) << 32u64)
            | ((b4 as u64) << 24u64) | ((b5 as u64) << 16u64) | ((b6 as u64) << 8u64) | (b7 as u64),
    ensures
        (x >> 56u64) as u8 == b0,
        (x >> 48u64) as u8 == b1,
        (x >> 40u64) as u8 == b2,
        (x >> 32u64) as u8 == b3,
        (x >> 24u64) as u8 == b4,
        (x >> 16u64) as u8 == b5,
        (x >> 8u64) as u8 == b6,
        x as u8 == b7,
{
}

/// The address made of the last 20 of 32 bytes (as a 32-byte hash is
/// turned into an address).
pub fn address_from_word(w: &[u8; 32]) -> (r: Address)
    ensures
        spec_address_bytes(r) == w@.subrange(12, 32),
{
    let high: u32 = ((w[12] as u32) << 24u32) | ((w[13] as u32) << 16u32) | ((w[14] as u32) << 8u32) | (w[15] as u32);
    let mid: u64 = ((w[16] as u64) << 56u64) | ((w[17] as u64) << 48u64) | ((w[18] as u64) << 40u64)
        | ((w[19] as u64) << 32u64) | ((w[20] as u64) << 24u64) | ((w[21] as u64) << 16u64)
        | ((w[22] as u64) << 8u64) | (w[23] as u64);
    let low: u64 = ((w[24] as u64) << 56u64) | ((w[25] as u64) << 48u64) | ((w[26] as u64) << 40u64)
        | ((w[27] as u64) << 32u64) | ((w[28] as u64) << 24u64) | ((w[29] as u64) << 16u64)
        | ((w[30] as u64) << 8u64) | (w[31] as u64);
    proof {
        lemma_be_u32(w@[12], w@[13], w@[14], w@[15], high);
        lemma_be_u64(w@[16], w@[17], w@[18], w@[19], w@[20], w@[21], w@[22], w@[23], mid);
        lemma_be_u64(w@[24], w@[25], w@[26], w@[27], w@[28], w@[29], w@[30], w@[31], low);
    }
    let r = Address { high, mid, low };
    assert(spec_address_bytes(r) =~= w@.subrange(12, 32));
    r
}

} // verus!
