//! The fixed-width, big-endian encoding integer store keys use on the
//! wire: eight bytes whose lexicographic order is the numeric order of the
//! keys, so range scans over encoded keys scan in key order.

use vstd::prelude::*;

verus! {

/// The eight bytes of `k`, most significant first.
pub open spec fn spec_be_bytes(k: u64) -> Seq<u8> {
    seq![
        ((k >> 56u64) & 0xffu64) as u8,
        ((k >> 48u64) & 0xffu64) as u8,
        ((k >> 40u64) & 0xffu64) as u8,
        ((k >> 32u64) & 0xffu64) as u8,
        ((k >> 24u64) & 0xffu64) as u8,
        ((k >> 16u64) & 0xffu64) as u8,
        ((k >> 8u64) & 0xffu64) as u8,
        (k & 0xffu64) as u8,
    ]
}

/// The key eight big-endian bytes decode to.
pub open spec fn spec_from_be_bytes(b: Seq<u8>) -> u64
    recommends
        b.len() == 8,
{
    (((b[0] as u64) << 56u64) | ((b[1] as u64) << 48u64) | ((b[2] as u64) << 40u64) | ((
    b[3] as u64) << 32u64) | ((b[4] as u64) << 24u64) | ((b[5] as u64) << 16u64) | ((
    b[6] as u64) << 8u64) | (b[7] as u64)) as u64
}

/// Encode a key for the store: eight bytes, most significant first.
pub fn be_bytes(k: u64) -> (r: Vec<u8>)
    ensures
        r@ == spec_be_bytes(k),
{
    let mut out: Vec<u8> = Vec::new();
    out.push(((k >> 56u64) & 0xffu64) as u8);
    out.push(((k >> 48u64) & 0xffu64) as u8);
    out.push(((k >> 40u64) & 0xffu64) as u8);
    out.push(((k >> 32u64) & 0xffu64) as u8);
    out.push(((k >> 24u64) & 0xffu64) as u8);
    out.push(((k >> 16u64) & 0xffu64) as u8);
    out.push(((k >> 8u64) & 0xffu64) as u8);
    out.push((k & 0xffu64) as u8);
    proof {
        assert(out@ =~= spec_be_bytes(k));
    }
    out
}

/// Decode a stored key; anything but exactly eight bytes is malformed.
pub fn from_be_bytes(b: &Vec<u8>) -> (r: Option<u64>)
    ensures
        b@.len() == 8 ==> r == Some(spec_from_be_bytes(b@)),
        b@.len() != 8 ==> r is None,
{
    if b.len() != 8 {
        return None;
    }
    Some(
        ((b[0] as u64) << 56u64) | ((b[1] as u64) << 48u64) | ((b[2] as u64) << 40u64) | ((
        b[3] as u64) << 32u64) | ((b[4] as u64) << 24u64) | ((b[5] as u64) << 16u64) | ((
        b[6] as u64) << 8u64) | (b[7] as u64),
    )
}

/// Decoding an encoded key gives the key back.
pub proof fn lemma_be_round_trip(k: u64)
    ensures
        spec_from_be_bytes(spec_be_bytes(k)) == k,
{
    assert((((((k >> 56u64) & 0xffu64) as u8) as u64) << 56u64) | (((((k >> 48u64) & 0xffu64) as u8) as u64)
        << 48u64) | (((((k >> 40u64) & 0xffu64) as u8) as u64) << 40u64) | (((((k >> 32u64) & 0xffu64) as u8) as u64)
        << 32u64) | (((((k >> 24u64) & 0xffu64) as u8) as u64) << 24u64) | (((((k >> 16u64) & 0xffu64) as u8) as u64)
        << 16u64) | (((((k >> 8u64) & 0xffu64) as u8) as u64) << 8u64) | (((k & 0xffu64) as u8) as u64) == k)
        by (bit_vector);
}

/// Whether `a` sorts strictly before `b` byte-wise, for equal-length keys.
pub open spec fn lex_lt(a: Seq<u8>, b: Seq<u8>) -> bool
    decreases a.len(),
{
    if a.len() == 0 || b.len() == 0 {
        false
    } else if a[0] != b[0] {
        a[0] < b[0]
    } else {
        lex_lt(a.drop_first(), b.drop_first())
    }
}

/// The encoding preserves order: encoded keys sort byte-wise exactly as
/// the keys sort numerically, so a range scan over encoded keys is a range
/// scan over keys.
pub proof fn lemma_be_order_preserving(k1: u64, k2: u64)
    ensures
        lex_lt(spec_be_bytes(k1), spec_be_bytes(k2)) <==> k1 < k2,
{
    reveal_with_fuel(lex_lt, 10);
    let a = spec_be_bytes(k1);
    let b = spec_be_bytes(k2);
    let a1 = a.drop_first();
    let b1 = b.drop_first();
    let a2 = a1.drop_first();
    let b2 = b1.drop_first();
    let a3 = a2.drop_first();
    let b3 = b2.drop_first();
    let a4 = a3.drop_first();
    let b4 = b3.drop_first();
    let a5 = a4.drop_first();
    let b5 = b4.drop_first();
    let a6 = a5.drop_first();
    let b6 = b5.drop_first();
    let a7 = a6.drop_first();
    let b7 = b6.drop_first();
    assert(a7.len() == 1 && b7.len() == 1);
    assert(a1[0] == a[1] && a2[0] == a[2] && a3[0] == a[3] && a4[0] == a[4] && a5[0] == a[5]
        && a6[0] == a[6] && a7[0] == a[7]);
    assert(b1[0] == b[1] && b2[0] == b[2] && b3[0] == b[3] && b4[0] == b[4] && b5[0] == b[5]
        && b6[0] == b[6] && b7[0] == b[7]);
    assert(lex_lt(a7, b7) == (a7[0] < b7[0]));
    assert(lex_lt(a6, b6) == (if a6[0] != b6[0] {
        a6[0] < b6[0]
    } else {
        lex_lt(a7, b7)
    }));
    assert(lex_lt(a5, b5) == (if a5[0] != b5[0] {
        a5[0] < b5[0]
    } else {
        lex_lt(a6, b6)
    }));
    assert(lex_lt(a4, b4) == (if a4[0] != b4[0] {
        a4[0] < b4[0]
    } else {
        lex_lt(a5, b5)
    }));
    assert(lex_lt(a3, b3) == (if a3[0] != b3[0] {
        a3[0] < b3[0]
    } else {
        lex_lt(a4, b4)
    }));
    assert(lex_lt(a2, b2) == (if a2[0] != b2[0] {
        a2[0] < b2[0]
    } else {
        lex_lt(a3, b3)
    }));
    assert(lex_lt(a1, b1) == (if a1[0] != b1[0] {
        a1[0] < b1[0]
    } else {
        lex_lt(a2, b2)
    }));
    assert(lex_lt(a, b) == (if a[0] != b[0] {
        a[0] < b[0]
    } else {
        lex_lt(a1, b1)
    }));
    assert((if ((k1 >> 56u64) & 0xffu64) as u8 != ((k2 >> 56u64) & 0xffu64) as u8 {
        (((k1 >> 56u64) & 0xffu64) as u8) < (((k2 >> 56u64) & 0xffu64) as u8)
    } else if ((k1 >> 48u64) & 0xffu64) as u8 != ((k2 >> 48u64) & 0xffu64) as u8 {
        (((k1 >> 48u64) & 0xffu64) as u8) < (((k2 >> 48u64) & 0xffu64) as u8)
    } else if ((k1 >> 40u64) & 0xffu64) as u8 != ((k2 >> 40u64) & 0xffu64) as u8 {
        (((k1 >> 40u64) & 0xffu64) as u8) < (((k2 >> 40u64) & 0xffu64) as u8)
    } else if ((k1 >> 32u64) & 0xffu64) as u8 != ((k2 >> 32u64) & 0xffu64) as u8 {
        (((k1 >> 32u64) & 0xffu64) as u8) < (((k2 >> 32u64) & 0xffu64) as u8)
    } else if ((k1 >> 24u64) & 0xffu64) as u8 != ((k2 >> 24u64) & 0xffu64) as u8 {
        (((k1 >> 24u64) & 0xffu64) as u8) < (((k2 >> 24u64) & 0xffu64) as u8)
    } else if ((k1 >> 16u64) & 0xffu64) as u8 != ((k2 >> 16u64) & 0xffu64) as u8 {
        (((k1 >> 16u64) & 0xffu64) as u8) < (((k2 >> 16u64) & 0xffu64) as u8)
    } else if ((k1 >> 8u64) & 0xffu64) as u8 != ((k2 >> 8u64) & 0xffu64) as u8 {
        (((k1 >> 8u64) & 0xffu64) as u8) < (((k2 >> 8u64) & 0xffu64) as u8)
    } else {
        ((k1 & 0xffu64) as u8) < ((k2 & 0xffu64) as u8)
    }) <==> k1 < k2) by (bit_vector);
}

} // verus!
