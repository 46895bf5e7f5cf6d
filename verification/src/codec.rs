//! The 4-byte big-endian length prefix that frames every transfer.

use vstd::prelude::*;

verus! {

/// The four bytes that encode `n` in network (big-endian) byte order.
pub open spec fn spec_len_to_bytes(n: u32) -> Seq<u8> {
    seq![
        ((n >> 24) & 0xff) as u8,
        ((n >> 16) & 0xff) as u8,
        ((n >> 8) & 0xff) as u8,
        (n & 0xff) as u8,
    ]
}

/// The length value read from four bytes in network (big-endian) byte order.
pub open spec fn spec_len_from_bytes(s: Seq<u8>) -> u32
    recommends
        s.len() == 4,
{
    ((s[0] as u32) << 24) | ((s[1] as u32) << 16) | ((s[2] as u32) << 8) | (s[3] as u32)
}

/// Encodes a payload length as the 4-byte big-endian prefix sent on the wire.
pub fn encode_len(n: u32) -> (bytes: Vec<u8>)
    ensures
        bytes@ == spec_len_to_bytes(n),
        bytes@.len() == 4,
{
    proof {
        assert((n >> 24) & 0xff < 256 && (n >> 16) & 0xff < 256 && (n >> 8) & 0xff < 256 && n
            & 0xff < 256) by (bit_vector);
    }
    let mut bytes: Vec<u8> = Vec::new();
    bytes.push(((n >> 24) & 0xff) as u8);
    bytes.push(((n >> 16) & 0xff) as u8);
    bytes.push(((n >> 8) & 0xff) as u8);
    bytes.push((n & 0xff) as u8);
    proof {
        assert(bytes@ =~= spec_len_to_bytes(n));
    }
    bytes
}

/// Decodes the 4-byte big-endian prefix back into the payload length.
pub fn decode_len(b0: u8, b1: u8, b2: u8, b3: u8) -> (n: u32)
    ensures
        n == spec_len_from_bytes(seq![b0, b1, b2, b3]),
{
    ((b0 as u32) << 24) | ((b1 as u32) << 16) | ((b2 as u32) << 8) | (b3 as u32)
}

/// The length field round-trips exactly: encoding any `n` and decoding the
/// resulting four bytes yields `n` again.
pub proof fn lemma_len_round_trip(n: u32)
    ensures
        spec_len_from_bytes(spec_len_to_bytes(n)) == n,
{
    assert(((((n >> 24) & 0xff) as u8 as u32) << 24) | ((((n >> 16) & 0xff) as u8 as u32) << 16)
        | ((((n >> 8) & 0xff) as u8 as u32) << 8) | ((n & 0xff) as u8 as u32) == n)
        by (bit_vector);
}

} // verus!
