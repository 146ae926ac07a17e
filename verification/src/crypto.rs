//! Key helpers: the derivation path and the compression of an Ed25519
//! public key into the 32 bytes that are handed out.

use vstd::prelude::*;

verus! {

/// The BIP32 path from which the signing key is derived: five hardened
/// indices `44'`.
pub const BIP32_PATH: [u32; 5] = [0x8000002Cu32, 0x8000002Cu32, 0x8000002Cu32, 0x8000002Cu32, 0x8000002Cu32];

/// The 32-byte (compressed) Ed25519 public key.
pub type Ed25519PubKey = [u8; 32];

/// The compressed form of an uncompressed point `w = 04 || x || y`, with
/// `x` and `y` big-endian: `y` little-endian, and the low bit of `x` in
/// the top bit of the last byte.
pub open spec fn compressed_pubkey(w: Seq<u8>) -> Seq<u8> {
    Seq::new(
        32,
        |i: int|
            if i == 31 && w[32] & 1 != 0 {
                w[64 - i] | 0x80
            } else {
                w[64 - i]
            },
    )
}

/// Compresses the raw public key `w` (65 bytes: `04`, then `x` and `y`,
/// both big-endian).
pub fn compress_ed25519_pubkey(w: &[u8; 65]) -> (pk: Ed25519PubKey)
    ensures
        pk@ == compressed_pubkey(w@),
{
    let mut pub_key_res = [0u8; 32];
    for i in 0..32
        invariant
            forall|j: int| 0 <= j < i ==> pub_key_res@[j] == w@[64 - j],
    {
        pub_key_res[i] = w[64 - i];
    }
    if w[32] & 1 != 0 {
        pub_key_res[31] = pub_key_res[31] | 0x80;
    }
    assert(pub_key_res@ =~= compressed_pubkey(w@));
    pub_key_res
}

/// Where `y` is below `2^255`, as a curve point's is, the compressed key
/// keeps `y` whole in its low 255 bits and the parity of `x` in bit 255.
pub proof fn lemma_compressed_parts(w: Seq<u8>)
    requires
        w.len() == 65,
        w[33] < 0x80,
    ensures
        forall|i: int| 0 <= i < 31 ==> #[trigger] compressed_pubkey(w)[i] == w[64 - i],
        compressed_pubkey(w)[31] & 0x7f == w[33],
        compressed_pubkey(w)[31] >> 7 == w[32] & 1,
{
    let last = compressed_pubkey(w)[31];
    let y = w[33];
    let x = w[32];
    if x & 1 != 0 {
        assert(last == y | 0x80);
        assert(y < 0x80 ==> (y | 0x80) & 0x7f == y && (y | 0x80) >> 7 == 1) by (bit_vector);
        assert(x & 1 != 0 ==> x & 1 == 1) by (bit_vector);
    } else {
        assert(last == y);
        assert(y < 0x80 ==> y & 0x7f == y && y >> 7 == 0) by (bit_vector);
    }
}

/// The compressed key byte by byte, for any input: byte `i` is byte
/// `64 - i` of `w` (so `y` reversed), except that the last one also gets
/// the low bit of `x` (byte 32) as its top bit.
pub proof fn lemma_compressed_bytes(w: Seq<u8>)
    requires
        w.len() == 65,
    ensures
        compressed_pubkey(w).len() == 32,
        forall|i: int| 0 <= i < 31 ==> #[trigger] compressed_pubkey(w)[i] == w[64 - i],
        compressed_pubkey(w)[31] == w[33] | ((w[32] & 1) << 7u8),
{
    let x = w[32];
    let y = w[33];
    assert(x & 1 != 0 ==> y | 0x80 == y | ((x & 1) << 7u8)) by (bit_vector);
    assert(x & 1 == 0 ==> y == y | ((x & 1) << 7u8)) by (bit_vector);
}

} // verus!
