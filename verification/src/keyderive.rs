//! Deterministic key derivation: an 8-byte public-key token is turned into a
//! 16-byte cipher key whose bytes are the ASCII codes of uppercase hex digits.
use vstd::prelude::*;

verus! {

/// ASCII code of the uppercase hexadecimal digit for `x`, for `x < 16`.
pub open spec fn hex_digit(x: u8) -> u8 {
    if x < 10 {
        (48 + x) as u8
    } else {
        (55 + x) as u8
    }
}

/// The running counter of the deriver: starts at 66 and grows by 3 per token
/// byte, truncated to its low 8 bits when used as an XOR mask.
pub open spec fn derive_counter(i: int) -> u8 {
    (66 + 3 * i) as u8
}

/// The derived key: token byte `i` XORed with the `i`-th counter value, then
/// spelled as two uppercase hex digits at output indices `2*i` and `2*i + 1`.
pub open spec fn spec_generate_key(token: Seq<u8>) -> Seq<u8> {
    Seq::new(
        16,
        |j: int|
            {
                let x = token[j / 2] ^ derive_counter(j / 2);
                if j % 2 == 0 {
                    hex_digit(x >> 4)
                } else {
                    hex_digit(x & 15)
                }
            },
    )
}

/// ASCII code of the uppercase hex digit for the high nibble of `b`.
fn hex_hi(b: u8) -> (r: u8)
    ensures
        r == hex_digit(b >> 4),
{
    let h = b >> 4;
    assert(b >> 4 < 16) by (bit_vector);
    if h < 10 {
        48 + h
    } else {
        55 + h
    }
}

/// ASCII code of the uppercase hex digit for the low nibble of `b`.
fn hex_lo(b: u8) -> (r: u8)
    ensures
        r == hex_digit(b & 15),
{
    let l = b & 15;
    assert(b & 15 < 16) by (bit_vector);
    if l < 10 {
        48 + l
    } else {
        55 + l
    }
}

/// Derives the 16-byte cipher key from an 8-byte public-key token.
///
/// Every output byte is an ASCII hex-digit code (`'0'`–`'9'`, `'A'`–`'F'`);
/// this hex-as-text quirk is a fixed property of the scheme and is kept for
/// compatibility with artifacts derived under it.
pub fn generate_key(pub_token_key: &[u8; 8]) -> (r: [u8; 16])
    ensures
        r@ == spec_generate_key(pub_token_key@),
{
    let x0 = pub_token_key[0] ^ 66;
    let x1 = pub_token_key[1] ^ 69;
    let x2 = pub_token_key[2] ^ 72;
    let x3 = pub_token_key[3] ^ 75;
    let x4 = pub_token_key[4] ^ 78;
    let x5 = pub_token_key[5] ^ 81;
    let x6 = pub_token_key[6] ^ 84;
    let x7 = pub_token_key[7] ^ 87;
    let r = [
        hex_hi(x0),
        hex_lo(x0),
        hex_hi(x1),
        hex_lo(x1),
        hex_hi(x2),
        hex_lo(x2),
        hex_hi(x3),
        hex_lo(x3),
        hex_hi(x4),
        hex_lo(x4),
        hex_hi(x5),
        hex_lo(x5),
        hex_hi(x6),
        hex_lo(x6),
        hex_hi(x7),
        hex_lo(x7),
    ];
    proof {
        assert(r@ =~= spec_generate_key(pub_token_key@));
    }
    r
}

} // verus!
