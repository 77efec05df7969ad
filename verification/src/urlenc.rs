//! Percent-encoding of text for use inside a URL.

use vstd::prelude::*;
use vstd::string::StringSliceAdditionalSpecFns;

verus! {

/// A byte that percent-encoding leaves as it stands: an ASCII letter or
/// digit, or one of `-`, `.`, `_`, `~`.
pub open spec fn url_safe_byte(b: u8) -> bool {
    (48 <= b && b <= 57) || (65 <= b && b <= 90) || (97 <= b && b <= 122) || b == 45 || b == 46
        || b == 95 || b == 126
}

/// The upper-case hexadecimal digit for a value below 16.
pub open spec fn hex_upper_digit(d: int) -> char {
    if d < 10 {
        ((48 + d) as u8) as char
    } else {
        ((55 + d) as u8) as char
    }
}

/// The percent-encoding of a byte sequence: a safe byte stands as its own
/// character, every other byte becomes a percent sign and two upper-case
/// hexadecimal digits.
pub open spec fn url_encode_bytes(data: Seq<u8>) -> Seq<char>
    decreases data.len(),
{
    if data.len() == 0 {
        Seq::empty()
    } else {
        let b = data.first();
        let enc = if url_safe_byte(b) {
            seq![b as char]
        } else {
            seq!['%', hex_upper_digit(b as int / 16), hex_upper_digit(b as int % 16)]
        };
        enc + url_encode_bytes(data.drop_first())
    }
}

/// Relies on urlencoding::encode: percent-encodes every byte of the text
/// except ASCII alphanumerics and `-`, `.`, `_`, `~`, with upper-case
/// hexadecimal digits, exactly as [`url_encode_bytes`] says.
#[verifier::external_body]
pub(crate) fn url_encode(s: &str) -> (r: String)
    ensures
        r@ == url_encode_bytes(s.spec_bytes()),
{
    urlencoding::encode(s).into_owned()
}

} // verus!
