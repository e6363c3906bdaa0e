//! The numeric-pair transform: each JWT character with code point in
//! `45..=144` is written as `code point - 45`, zero-padded to two decimal
//! digits, and decoding reverses exactly that.

use vstd::prelude::*;
use crate::error::DecodeError;
use crate::util::push_char;

verus! {

/// `c` is an ASCII decimal digit.
pub open spec fn is_digit(c: char) -> bool {
    48 <= c as int <= 57
}

/// The numeric value of an ASCII digit.
pub open spec fn digit_val(c: char) -> int {
    c as int - 48
}

/// Every character of `s` is an ASCII digit.
pub open spec fn all_digits(s: Seq<char>) -> bool {
    forall|i: int| 0 <= i < s.len() ==> is_digit(#[trigger] s[i])
}

/// The character a digit pair stands for: its two-digit value offset by 45.
pub open spec fn pair_char(c1: char, c2: char) -> char {
    (digit_val(c1) * 10 + digit_val(c2) + 45) as char
}

/// Decoding of an even-length all-digit string: consecutive two-digit chunks,
/// each mapped through `pair_char`.
pub open spec fn decode_pairs(s: Seq<char>) -> Seq<char> {
    Seq::new(s.len() / 2, |i: int| pair_char(s[2 * i], s[2 * i + 1]))
}

/// `c` lies in the code-point range the transform can represent.
pub open spec fn in_pair_range(c: char) -> bool {
    45 <= c as int <= 144
}

/// Every character of `t` lies in the representable range.
pub open spec fn all_in_pair_range(t: Seq<char>) -> bool {
    forall|i: int| 0 <= i < t.len() ==> in_pair_range(#[trigger] t[i])
}

/// The ASCII digit character of value `d`.
pub open spec fn digit_char(d: int) -> char {
    (d + 48) as char
}

/// Encoding of a text in the representable range: each character becomes the
/// two zero-padded decimal digits of its code point minus 45.
pub open spec fn encode_pairs(t: Seq<char>) -> Seq<char> {
    Seq::new(
        2 * t.len(),
        |i: int|
            if i % 2 == 0 {
                digit_char((t[i / 2] as int - 45) / 10)
            } else {
                digit_char((t[i / 2] as int - 45) % 10)
            },
    )
}

/// Every digit pair, offset by 45, lands on a valid Unicode scalar value, so
/// decoding a two-digit chunk can never fail on the character step.
pub proof fn lemma_pair_char_valid(c1: char, c2: char)
    requires
        is_digit(c1),
        is_digit(c2),
    ensures
        45 <= digit_val(c1) * 10 + digit_val(c2) + 45 <= 144,
        vstd::utf8::is_scalar((digit_val(c1) * 10 + digit_val(c2) + 45) as u32),
{
}

/// Reverses the numeric-pair transform on a digit-pair payload.
///
/// Fails with `MalformedToken` on an odd-length payload and with
/// `InvalidDigitPair` when any character is not an ASCII digit; on an
/// even-length all-digit payload it always succeeds, with the text whose
/// characters are the two-digit chunk values offset by 45.
pub fn decode_digit_pairs(digits: &str) -> (r: Result<String, DecodeError>)
    ensures
        digits@.len() % 2 != 0 ==> r == Err::<String, DecodeError>(DecodeError::MalformedToken),
        digits@.len() % 2 == 0 && !all_digits(digits@) ==> r == Err::<String, DecodeError>(
            DecodeError::InvalidDigitPair,
        ),
        digits@.len() % 2 == 0 && all_digits(digits@) ==> r is Ok && r->Ok_0@ == decode_pairs(
            digits@,
        ),
{
    let n = digits.unicode_len();
    if n % 2 != 0 {
        return Err(DecodeError::MalformedToken);
    }
    let mut out = String::new();
    let mut i: usize = 0;
    while i < n
        invariant
            n == digits@.len(),
            n % 2 == 0,
            i % 2 == 0,
            i <= n,
            forall|j: int| 0 <= j < i ==> is_digit(#[trigger] digits@[j]),
            out@ =~= decode_pairs(digits@).subrange(0, i as int / 2),
        decreases n - i,
    {
        let c1 = digits.get_char(i);
        let c2 = digits.get_char(i + 1);
        let v1 = c1 as u32;
        let v2 = c2 as u32;
        if !(48 <= v1 && v1 <= 57) || !(48 <= v2 && v2 <= 57) {
            assert(!all_digits(digits@));
            return Err(DecodeError::InvalidDigitPair);
        }
        let code: u32 = (v1 - 48) * 10 + (v2 - 48) + 45;
        let c = (code as u8) as char;
        proof {
            assert(c == pair_char(c1, c2));
            assert(decode_pairs(digits@)[i as int / 2] == pair_char(c1, c2));
        }
        push_char(&mut out, c);
        proof {
            assert(out@ =~= decode_pairs(digits@).subrange(0, (i + 2) as int / 2));
        }
        i = i + 2;
    }
    proof {
        assert(out@ =~= decode_pairs(digits@));
    }
    Ok(out)
}

/// Applies the numeric-pair transform to a text.
///
/// Returns `None` exactly when some character's code point lies outside
/// `45..=144`; otherwise the result is the concatenation of the two-digit
/// encodings of `code point - 45`, in order.
pub fn encode_digit_pairs(text: &str) -> (r: Option<String>)
    ensures
        r is Some <==> all_in_pair_range(text@),
        r is Some ==> r->0@ == encode_pairs(text@),
{
    let n = text.unicode_len();
    let mut out = String::new();
    let mut i: usize = 0;
    while i < n
        invariant
            n == text@.len(),
            i <= n,
            forall|j: int| 0 <= j < i ==> in_pair_range(#[trigger] text@[j]),
            out@ =~= encode_pairs(text@).subrange(0, 2 * i as int),
        decreases n - i,
    {
        let c = text.get_char(i);
        let v = c as u32;
        if !(45 <= v && v <= 144) {
            assert(!all_in_pair_range(text@));
            return None;
        }
        let d1 = ((v - 45) / 10) as u8;
        let d2 = ((v - 45) % 10) as u8;
        let c1 = (d1 + 48) as char;
        let c2 = (d2 + 48) as char;
        proof {
            assert(c1 == encode_pairs(text@)[2 * i as int]);
            assert(c2 == encode_pairs(text@)[2 * i as int + 1]);
        }
        push_char(&mut out, c1);
        push_char(&mut out, c2);
        proof {
            assert(out@ =~= encode_pairs(text@).subrange(0, 2 * (i + 1) as int));
        }
        i = i + 1;
    }
    proof {
        assert(out@ =~= encode_pairs(text@));
    }
    Some(out)
}

/// Round trip: decoding the numeric-pair encoding of any text in the
/// representable range gives back exactly that text, and the encoding itself
/// is an even-length all-digit string.
pub proof fn lemma_encode_decode_round_trip(t: Seq<char>)
    requires
        all_in_pair_range(t),
    ensures
        encode_pairs(t).len() == 2 * t.len(),
        encode_pairs(t).len() % 2 == 0,
        all_digits(encode_pairs(t)),
        decode_pairs(encode_pairs(t)) =~= t,
{
    let e = encode_pairs(t);
    assert forall|i: int| 0 <= i < e.len() implies is_digit(#[trigger] e[i]) by {
        let c = t[i / 2];
        assert(45 <= c as int <= 144);
        assert(0 <= (c as int - 45) / 10 <= 9);
        assert(0 <= (c as int - 45) % 10 <= 9);
    }
    assert forall|i: int| 0 <= i < t.len() implies decode_pairs(e)[i] == t[i] by {
        let c = t[i];
        let x = c as int - 45;
        assert(0 <= x <= 99);
        assert(e[2 * i] == digit_char(x / 10));
        assert(e[2 * i + 1] == digit_char(x % 10));
        assert(digit_val(digit_char(x / 10)) == x / 10);
        assert(digit_val(digit_char(x % 10)) == x % 10);
        assert((x / 10) * 10 + x % 10 == x);
        assert(pair_char(e[2 * i], e[2 * i + 1]) == ((x + 45) as char));
        assert(((c as int) as char) == c);
    }
}

} // verus!
