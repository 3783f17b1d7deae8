//! The text encoding of elements: uppercase hexadecimal of their bytes.
use hex::{FromHex, ToHex};
use vstd::prelude::*;

verus! {

/// Declares hex's `FromHexError`, the error of `decode`, which is carried and never read.
#[verifier::external_type_specification]
#[verifier::external_body]
pub struct ExFromHexError(hex::FromHexError);

/// The uppercase hexadecimal digit of `d`, for `d < 16`.
pub open spec fn upper_digit(d: u8) -> char {
    if d < 10 {
        ((48 + d) as u8) as char
    } else {
        ((55 + d) as u8) as char
    }
}

/// Two uppercase hexadecimal digits for each byte, the high one first.
pub open spec fn upper_hex(b: Seq<u8>) -> Seq<char>
    decreases b.len(),
{
    if b.len() == 0 {
        seq![]
    } else {
        seq![upper_digit(b[0] / 16), upper_digit(b[0] % 16)] + upper_hex(b.drop_first())
    }
}

/// The value of a hexadecimal digit of either case.
pub open spec fn digit_value(c: char) -> Option<u8> {
    let n = c as u32;
    if 48 <= n <= 57 {
        Some((n - 48) as u8)
    } else if 65 <= n <= 70 {
        Some((n - 55) as u8)
    } else if 97 <= n <= 102 {
        Some((n - 87) as u8)
    } else {
        None
    }
}

/// Text of an even length that holds hexadecimal digits alone.
pub open spec fn is_hex(s: Seq<char>) -> bool {
    &&& s.len() % 2 == 0
    &&& forall|i: int| 0 <= i < s.len() ==> (#[trigger] digit_value(s[i])) is Some
}

/// The bytes that hexadecimal text stands for, two digits each, the high one first.
pub open spec fn hex_bytes(s: Seq<char>) -> Seq<u8> {
    Seq::new(
        s.len() / 2,
        |i: int| (digit_value(s[2 * i])->0 * 16 + digit_value(s[2 * i + 1])->0) as u8,
    )
}

proof fn lemma_digit_round_trip(d: u8)
    requires
        d < 16,
    ensures
        digit_value(upper_digit(d)) == Some(d),
{
}

/// The text `upper_hex` writes is hexadecimal of twice the length, and it
/// stands for the bytes it was written from.
pub proof fn lemma_hex_round_trip(b: Seq<u8>)
    ensures
        upper_hex(b).len() == 2 * b.len(),
        is_hex(upper_hex(b)),
        hex_bytes(upper_hex(b)) == b,
    decreases b.len(),
{
    if b.len() > 0 {
        let rest = b.drop_first();
        lemma_hex_round_trip(rest);
        lemma_digit_round_trip(b[0] / 16);
        lemma_digit_round_trip(b[0] % 16);
        let s = upper_hex(b);
        let t = upper_hex(rest);
        assert(s =~= seq![upper_digit(b[0] / 16), upper_digit(b[0] % 16)] + t);
        assert forall|i: int| 0 <= i < s.len() implies (#[trigger] digit_value(s[i])) is Some by {
            if i >= 2 {
                assert(s[i] == t[i - 2]);
                assert(digit_value(t[i - 2]) is Some);
            }
        }
        assert forall|i: int| 0 <= i < b.len() implies #[trigger] hex_bytes(s)[i] == b[i] by {
            if i == 0 {
                assert((b[0] / 16) * 16 + b[0] % 16 == b[0]);
            } else {
                assert(s[2 * i] == t[2 * (i - 1)]);
                assert(s[2 * i + 1] == t[2 * (i - 1) + 1]);
                assert(hex_bytes(t)[i - 1] == rest[i - 1]);
            }
        }
        assert(hex_bytes(s) =~= b);
    } else {
        assert(hex_bytes(upper_hex(b)) =~= b);
    }
}

/// Relies on hex's `ToHex::encode_hex_upper`: two digits of `0123456789ABCDEF`
/// for each byte, the high nibble first.
#[verifier::external_body]
pub(crate) fn encode_upper(b: &[u8; 32]) -> (r: String)
    ensures
        r@ == upper_hex(b@),
{
    b.encode_hex_upper::<String>()
}

/// Relies on hex's `Vec::<u8>::from_hex`: an error for text of odd length or
/// with a character that is no hexadecimal digit, else the bytes it stands for.
#[verifier::external_body]
pub(crate) fn decode(s: &str) -> (r: Result<Vec<u8>, hex::FromHexError>)
    ensures
        match r {
            Ok(v) => is_hex(s@) && v@ == hex_bytes(s@),
            Err(_) => !is_hex(s@),
        },
{
    Vec::<u8>::from_hex(s)
}

} // verus!
