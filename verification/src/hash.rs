//! Digests of text, written in hexadecimal.

use sha2::Digest;
use vstd::prelude::*;
use vstd::utf8::encode_utf8;

verus! {

/// The SHA-256 digest of a sequence of bytes.
pub uninterp spec fn sha256_of(data: Seq<u8>) -> Seq<u8>;

/// Calls `sha2::Sha256::digest`. The result is the digest of `data`, which depends on `data`
/// alone and has 32 bytes.
#[verifier::external_body]
fn sha256(data: &[u8]) -> (r: Vec<u8>)
    ensures
        r@ == sha256_of(data@),
        r@.len() == 32,
{
    sha2::Sha256::digest(data).to_vec()
}

/// The lower-case hexadecimal digit with value `d`.
pub open spec fn hex_digit(d: int) -> char {
    if d < 10 {
        (48 + d) as u8 as char
    } else {
        (87 + d) as u8 as char
    }
}

/// `bytes` in lower-case hexadecimal, two digits for each.
pub open spec fn hex_of(bytes: Seq<u8>) -> Seq<char>
    decreases bytes.len(),
{
    if bytes.len() == 0 {
        seq![]
    } else {
        hex_of(bytes.drop_last()) + seq![
            hex_digit(bytes.last() as int / 16),
            hex_digit(bytes.last() as int % 16),
        ]
    }
}

fn hex_digit_of(d: u8) -> (r: char)
    requires
        d < 16,
    ensures
        r == hex_digit(d as int),
{
    if d < 10 {
        (48 + d) as char
    } else {
        (87 + d) as char
    }
}

/// `bytes` in lower-case hexadecimal.
pub fn hex_lower(bytes: &Vec<u8>) -> (r: String)
    ensures
        r@ == hex_of(bytes@),
{
    let mut out: String = String::new();
    let mut i: usize = 0;
    while i < bytes.len()
        invariant
            i <= bytes@.len(),
            out@ == hex_of(bytes@.take(i as int)),
        decreases bytes@.len() - i,
    {
        assert(bytes@.take(i + 1).drop_last() =~= bytes@.take(i as int));
        let b: u8 = bytes[i];
        out.push(hex_digit_of(b / 16));
        out.push(hex_digit_of(b % 16));
        assert(out@ =~= hex_of(bytes@.take(i as int)) + seq![
            hex_digit(b as int / 16),
            hex_digit(b as int % 16),
        ]);
        i += 1;
    }
    assert(bytes@.take(i as int) =~= bytes@);
    out
}

/// The SHA-256 digest of a text, in lower-case hexadecimal.
pub open spec fn text_digest(text: Seq<char>) -> Seq<char> {
    hex_of(sha256_of(encode_utf8(text)))
}

/// The SHA-256 digest of `text`, in lower-case hexadecimal.
pub fn digest_text(text: &str) -> (r: String)
    ensures
        r@ == text_digest(text@),
{
    let bytes: Vec<u8> = sha256(text.as_bytes());
    hex_lower(&bytes)
}

/// Bytes are written with two digits each, of which the first counts sixteen and the second one.
pub proof fn digits_stand_for_the_bytes(bytes: Seq<u8>, i: int)
    requires
        0 <= i < bytes.len(),
    ensures
        hex_of(bytes).len() == 2 * bytes.len(),
        exists|high: int, low: int|
            0 <= high < 16 && 0 <= low < 16 && bytes[i] == 16 * high + low && hex_of(bytes)[2 * i]
                == #[trigger] hex_digit(high) && hex_of(bytes)[2 * i + 1] == #[trigger] hex_digit(
                low,
            ),
    decreases bytes.len(),
{
    let last = bytes.len() - 1;
    if bytes.len() > 1 {
        digits_stand_for_the_bytes(bytes.drop_last(), if i < last {
            i
        } else {
            0
        });
    } else {
        assert(hex_of(bytes.drop_last()).len() == 0);
    }
    assert(hex_of(bytes.drop_last()).len() == 2 * last);
    if i == last {
        let b = bytes.last() as int;
        assert(hex_of(bytes)[2 * i] == hex_digit(b / 16));
        assert(hex_of(bytes)[2 * i + 1] == hex_digit(b % 16));
    } else {
        assert(bytes.drop_last()[i] == bytes[i]);
    }
}

/// The digits are those from zero to nine and from a to f, in their order.
pub proof fn digits_are_told_apart(a: int, b: int)
    requires
        0 <= a < b < 16,
    ensures
        (hex_digit(a) as u32) < hex_digit(b) as u32,
        hex_digit(0) == '0',
        hex_digit(9) == '9',
        hex_digit(10) == 'a',
        hex_digit(15) == 'f',
{
}

} // verus!
