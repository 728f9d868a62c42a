//! The encoding operations: text or integer to bytes, text or integer
//! to a hex string.

use vstd::prelude::*;
use vstd::string::StrSliceExecFns;
use vstd::string::StringExecFns;
use vstd::utf8::encode_utf8;
use crate::hex::hex_of_bytes;
use crate::hex::prefixed_hex_view;

verus! {

/// The UTF-8 byte encoding of a text value, in character order.
pub fn get_string_bytes(s: &str) -> (r: Vec<u8>)
    ensures
        r@ == encode_utf8(s@),
        r@.len() == encode_utf8(s@).len(),
{
    s.as_bytes_vec()
}

/// The bare lowercase hex string of the UTF-8 bytes of a text value:
/// two digits per byte, zero-padded, no prefix.
pub fn get_string_hex(s: &str) -> (r: String)
    ensures
        r@ == hex_of_bytes(encode_utf8(s@)),
        r@.len() == 2 * encode_utf8(s@).len(),
{
    let bytes = get_string_bytes(s);
    crate::hex::bytes_to_hex(&bytes)
}

/// The eight big-endian bytes of a 64-bit value, most significant first.
pub open spec fn be_bytes_of(u: u64) -> Seq<u8> {
    seq![
        ((u >> 56) & 0xff) as u8,
        ((u >> 48) & 0xff) as u8,
        ((u >> 40) & 0xff) as u8,
        ((u >> 32) & 0xff) as u8,
        ((u >> 24) & 0xff) as u8,
        ((u >> 16) & 0xff) as u8,
        ((u >> 8) & 0xff) as u8,
        (u & 0xff) as u8,
    ]
}

/// The value that a sequence of eight big-endian bytes denotes.
pub open spec fn be_decode(bs: Seq<u8>) -> int
    recommends
        bs.len() == 8,
{
    ((((((bs[0] * 256 + bs[1]) * 256 + bs[2]) * 256 + bs[3]) * 256 + bs[4]) * 256 + bs[5]) * 256
        + bs[6]) * 256 + bs[7]
}

/// Big-endian encoding is lossless: decoding the eight bytes of a value
/// gives that value back.
proof fn lemma_be_decode_of_be_bytes(u: u64)
    ensures
        be_decode(be_bytes_of(u)) == u as int,
{
    assert(((u >> 56) & 0xff) < 256 && ((u >> 48) & 0xff) < 256 && ((u >> 40) & 0xff) < 256 && ((u
        >> 32) & 0xff) < 256 && ((u >> 24) & 0xff) < 256 && ((u >> 16) & 0xff) < 256 && ((u >> 8)
        & 0xff) < 256 && (u & 0xff) < 256) by (bit_vector);
    assert(u == ((u >> 56) & 0xff) * 0x100000000000000 + ((u >> 48) & 0xff) * 0x1000000000000 + ((u
        >> 40) & 0xff) * 0x10000000000 + ((u >> 32) & 0xff) * 0x100000000 + ((u >> 24) & 0xff)
        * 0x1000000 + ((u >> 16) & 0xff) * 0x10000 + ((u >> 8) & 0xff) * 0x100 + (u & 0xff))
        by (bit_vector);
}

/// The fixed-width byte encoding of a 64-bit value: always exactly eight
/// bytes, most significant byte first. Decoding them as big-endian gives
/// the value back.
pub fn get_uint_bytes(u: u64) -> (r: [u8; 8])
    ensures
        r@ == be_bytes_of(u),
        r@.len() == 8,
        be_decode(r@) == u as int,
{
    proof {
        assert(((u >> 56) & 0xff) < 256 && ((u >> 48) & 0xff) < 256 && ((u >> 40) & 0xff) < 256 && (
        (u >> 32) & 0xff) < 256 && ((u >> 24) & 0xff) < 256 && ((u >> 16) & 0xff) < 256 && ((u >> 8)
            & 0xff) < 256 && (u & 0xff) < 256) by (bit_vector);
    }
    let r: [u8; 8] = [
        ((u >> 56) & 0xff) as u8,
        ((u >> 48) & 0xff) as u8,
        ((u >> 40) & 0xff) as u8,
        ((u >> 32) & 0xff) as u8,
        ((u >> 24) & 0xff) as u8,
        ((u >> 16) & 0xff) as u8,
        ((u >> 8) & 0xff) as u8,
        (u & 0xff) as u8,
    ];
    proof {
        assert(r@ =~= be_bytes_of(u));
        lemma_be_decode_of_be_bytes(u);
    }
    r
}

/// The minimal lowercase hex form of a non-negative value: no leading
/// zeros, a single "0" for zero.
pub open spec fn min_hex_of(u: int) -> Seq<char>
    recommends
        u >= 0,
    decreases u,
{
    if u < 16 {
        seq![crate::hex::hex_digit(u)]
    } else {
        min_hex_of(u / 16).push(crate::hex::hex_digit(u % 16))
    }
}

/// The minimal lowercase hex string of a 64-bit value: the numeric value's
/// natural hex form, with no zero padding and no prefix.
pub fn get_uint_hex(u: u64) -> (r: String)
    ensures
        r@ == min_hex_of(u as int),
    decreases u,
{
    if u < 16 {
        let r = String::from_str(crate::hex::hex_digit_str(u as u8));
        proof {
            assert(r@ =~= min_hex_of(u as int));
        }
        r
    } else {
        let mut r = get_uint_hex(u / 16);
        let lo: u8 = (u % 16) as u8;
        r.append(crate::hex::hex_digit_str(lo));
        proof {
            assert(r@ =~= min_hex_of(u as int));
        }
        r
    }
}

/// Law: the bare hex string of a text value equals the prefixed display of
/// that text's UTF-8 bytes with the leading "0x" stripped.
///
/// `get_string_hex` yields `hex_of_bytes(encode_utf8(s))`, and
/// `format_as_prefixed_hex` on `get_string_bytes(s)` yields
/// `prefixed_hex_view(encode_utf8(s))`; the first is the second without its
/// first two characters.
pub proof fn lemma_string_hex_is_stripped_display(s: Seq<char>)
    ensures
        hex_of_bytes(encode_utf8(s)) == prefixed_hex_view(encode_utf8(s)).skip(2),
{
    assert(hex_of_bytes(encode_utf8(s)) =~= prefixed_hex_view(encode_utf8(s)).skip(2));
}

/// Law: every operation is deterministic. Each contract equates the
/// result's view with a spec function of the input alone, so two results
/// that meet the same contract on the same input are equal: repeated calls
/// with the same input give identical output.
pub proof fn lemma_operations_deterministic(
    s: Seq<char>,
    u: u64,
    b: Seq<u8>,
    sb1: Seq<u8>,
    sb2: Seq<u8>,
    ub1: Seq<u8>,
    ub2: Seq<u8>,
    sh1: Seq<char>,
    sh2: Seq<char>,
    uh1: Seq<char>,
    uh2: Seq<char>,
    d1: Seq<char>,
    d2: Seq<char>,
)
    requires
        sb1 == encode_utf8(s),
        sb2 == encode_utf8(s),
        ub1 == be_bytes_of(u),
        ub2 == be_bytes_of(u),
        sh1 == hex_of_bytes(encode_utf8(s)),
        sh2 == hex_of_bytes(encode_utf8(s)),
        uh1 == min_hex_of(u as int),
        uh2 == min_hex_of(u as int),
        d1 == prefixed_hex_view(b),
        d2 == prefixed_hex_view(b),
    ensures
        sb1 == sb2,
        ub1 == ub2,
        sh1 == sh2,
        uh1 == uh2,
        d1 == d2,
{
}

} // verus!
