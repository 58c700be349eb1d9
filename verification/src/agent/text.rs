//! Shortening text to a number of bytes.

use crate::text::{chars_of, string_of};
use vstd::prelude::*;
use vstd::utf8::{encode_scalar, encode_utf8};

verus! {

/// How many bytes a character takes in UTF-8.
pub open spec fn byte_width(c: char) -> nat {
    encode_scalar(c as u32).len()
}

/// How many characters of `s`, from the start, fit into `limit` bytes.
pub open spec fn fitting_chars(s: Seq<char>, limit: nat) -> nat
    decreases s.len(),
{
    if s.len() == 0 || byte_width(s[0]) > limit {
        0
    } else {
        1 + fitting_chars(s.drop_first(), (limit - byte_width(s[0])) as nat)
    }
}

/// The characters of `s`, from the start, that fit into `limit` bytes.
pub open spec fn byte_truncated(s: Seq<char>, limit: nat) -> Seq<char> {
    s.take(fitting_chars(s, limit) as int)
}

fn width_of(c: char) -> (r: usize)
    ensures
        r == byte_width(c),
        1 <= r <= 4,
{
    let n: u32 = c as u32;
    if n <= 0x7F {
        1
    } else if n <= 0x7FF {
        2
    } else if n <= 0xFFFF {
        3
    } else {
        4
    }
}

/// All characters fit exactly where the encoded text does.
pub proof fn all_fit_iff_bytes_fit(s: Seq<char>, limit: nat)
    ensures
        fitting_chars(s, limit) <= s.len(),
        (fitting_chars(s, limit) == s.len()) == (encode_utf8(s).len() <= limit),
    decreases s.len(),
{
    if s.len() > 0 {
        assert(encode_utf8(s).len() == byte_width(s[0]) + encode_utf8(s.drop_first()).len());
        if byte_width(s[0]) <= limit {
            all_fit_iff_bytes_fit(s.drop_first(), (limit - byte_width(s[0])) as nat);
        }
    }
}

/// The characters that are kept fit into the limit, and one more would not.
pub proof fn fitting_is_greatest(s: Seq<char>, limit: nat)
    ensures
        fitting_chars(s, limit) <= s.len(),
        encode_utf8(s.take(fitting_chars(s, limit) as int)).len() <= limit,
        fitting_chars(s, limit) < s.len() ==> encode_utf8(
            s.take(fitting_chars(s, limit) as int + 1),
        ).len() > limit,
    decreases s.len(),
{
    let n = fitting_chars(s, limit);
    if s.len() > 0 {
        let rest = s.drop_first();
        if byte_width(s[0]) <= limit {
            let left = (limit - byte_width(s[0])) as nat;
            fitting_is_greatest(rest, left);
            let m = fitting_chars(rest, left);
            assert(s.take(n as int).drop_first() =~= rest.take(m as int));
            assert(s.take(n as int)[0] == s[0]);
            if n < s.len() {
                assert(s.take(n as int + 1).drop_first() =~= rest.take(m as int + 1));
                assert(s.take(n as int + 1)[0] == s[0]);
            }
        } else {
            let one = s.take(1);
            assert(one[0] == s[0]);
            assert(one.drop_first() =~= seq![]);
            assert(encode_utf8(one).len() == byte_width(s[0]) + encode_utf8(one.drop_first()).len());
            assert(s.take(0) =~= seq![]);
        }
    }
}

/// `value` cut to at most `limit` bytes, between two characters.
pub fn truncate_str(value: &str, limit: usize) -> (r: String)
    ensures
        r@ == byte_truncated(value@, limit as nat),
        encode_utf8(r@).len() <= limit,
        encode_utf8(value@).len() <= limit ==> r@ == value@,
{
    let chars: Vec<char> = chars_of(value);
    let mut left: usize = limit;
    let mut n: usize = 0;
    proof {
        assert(chars@.skip(0) =~= chars@);
        all_fit_iff_bytes_fit(chars@, limit as nat);
        fitting_is_greatest(chars@, limit as nat);
        assert(chars@.take(chars@.len() as int) =~= chars@);
    }
    while n < chars.len()
        invariant_except_break
            fitting_chars(chars@, limit as nat) == n + fitting_chars(
                chars@.skip(n as int),
                left as nat,
            ),
        invariant
            n <= chars@.len(),
            chars@ == value@,
        ensures
            n == fitting_chars(chars@, limit as nat),
        decreases chars@.len() - n,
    {
        assert(chars@.skip(n as int)[0] == chars@[n as int]);
        assert(chars@.skip(n as int).drop_first() =~= chars@.skip(n + 1));
        let width: usize = width_of(chars[n]);
        if width > left {
            break;
        }
        left = left - width;
        n += 1;
    }
    let head: String = string_of(&chars, 0, n);
    assert(head@ =~= value@.take(n as int));
    head
}

} // verus!
