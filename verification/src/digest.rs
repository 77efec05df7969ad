//! Content digests through SHA-256, with a verified lower-case hexadecimal
//! rendering of the result.

use sha2::Digest;
use vstd::prelude::*;

use crate::strutil::push_char;

verus! {

/// What SHA-256 returns for a given byte sequence.
pub uninterp spec fn sha256_of(bytes: Seq<u8>) -> Seq<u8>;

/// Relies on sha2::Sha256: the digest is a function of the input bytes
/// alone, and is exactly 32 bytes long.
#[verifier::external_body]
pub(crate) fn sha256(data: &[u8]) -> (r: Vec<u8>)
    ensures
        r@ == sha256_of(data@),
        r@.len() == 32,
{
    sha2::Sha256::digest(data).to_vec()
}

/// The lower-case hexadecimal digit for a value below 16.
pub open spec fn spec_hex_digit(d: int) -> char {
    if d < 10 {
        ((48 + d) as u8) as char
    } else {
        ((87 + d) as u8) as char
    }
}

/// The lower-case hexadecimal rendering of a byte sequence: two digits per
/// byte, high nibble first.
pub open spec fn hex_of(data: Seq<u8>) -> Seq<char> {
    Seq::new(
        2 * data.len(),
        |i: int|
            if i % 2 == 0 {
                spec_hex_digit((data[i / 2] / 16) as int)
            } else {
                spec_hex_digit((data[i / 2] % 16) as int)
            },
    )
}

fn hex_digit(d: u8) -> (c: char)
    requires
        d < 16,
    ensures
        c == spec_hex_digit(d as int),
{
    if d < 10 {
        (48 + d) as char
    } else {
        (87 + d) as char
    }
}

/// Renders bytes as lower-case hexadecimal, exactly as [`hex_of`] says.
pub fn to_hex(data: &[u8]) -> (r: String)
    ensures
        r@ == hex_of(data@),
{
    let n = data.len();
    let mut out = String::new();
    let mut i: usize = 0;
    while i < n
        invariant
            n == data@.len(),
            out@.len() == 2 * i,
            i <= n,
            forall|j: int| 0 <= j < out@.len() ==> out@[j] == hex_of(data@)[j],
        decreases n - i,
    {
        let b = data[i];
        let hi = b >> 4;
        let lo = b & 15;
        proof {
            assert(b >> 4 == b / 16 && b & 15 == b % 16 && b >> 4 < 16 && b & 15 < 16)
                by (bit_vector);
        }
        push_char(&mut out, hex_digit(hi));
        push_char(&mut out, hex_digit(lo));
        i = i + 1;
    }
    proof {
        assert(out@ =~= hex_of(data@));
    }
    out
}

} // verus!
