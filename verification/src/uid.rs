//! How a numeric user id is written in an authentication request.
//!
//! The id is written in decimal, and each character of that text is then
//! written as the two hexadecimal digits of its character code: the id 1000
//! travels as `31303030`. Decoding undoes both steps.

use vstd::prelude::*;

use crate::wire::{has_no_space, is_space};

verus! {

/// The ASCII digit that stands for `d`, a value below ten.
pub open spec fn digit_char(d: nat) -> u8 {
    (48 + d) as u8
}

/// The decimal text of `n`, without leading zeros.
pub open spec fn decimal(n: nat) -> Seq<u8>
    decreases n,
{
    if n < 10 {
        seq![digit_char(n)]
    } else {
        decimal(n / 10).push(digit_char(n % 10))
    }
}

/// The lower-case hexadecimal digit that stands for `v`, a value below
/// sixteen.
pub open spec fn hex_digit(v: nat) -> u8 {
    if v < 10 {
        (48 + v) as u8
    } else {
        (87 + v) as u8
    }
}

/// Each byte of `s` written as two hexadecimal digits, the high one first.
pub open spec fn hex_pairs(s: Seq<u8>) -> Seq<u8>
    decreases s.len(),
{
    if s.len() == 0 {
        Seq::empty()
    } else {
        hex_pairs(s.drop_last()).push(hex_digit(s.last() as nat / 16)).push(
            hex_digit(s.last() as nat % 16),
        )
    }
}

/// The text that stands for `uid` in an authentication request.
pub open spec fn encoded_uid(uid: u32) -> Seq<u8> {
    hex_pairs(decimal(uid as nat))
}

/// Whether `c` is an ASCII decimal digit.
pub open spec fn is_digit(c: u8) -> bool {
    48 <= c && c <= 57
}

/// The value of the hexadecimal digit `c`, of either case.
pub open spec fn hex_value(c: u8) -> Option<nat> {
    if 48 <= c && c <= 57 {
        Some((c - 48) as nat)
    } else if 97 <= c && c <= 102 {
        Some((c - 87) as nat)
    } else if 65 <= c && c <= 70 {
        Some((c - 55) as nat)
    } else {
        None
    }
}

/// The bytes that the hexadecimal digit pairs of `s` stand for, if `s` is
/// made of such pairs.
pub open spec fn unhex(s: Seq<u8>) -> Option<Seq<u8>>
    decreases s.len(),
{
    if s.len() == 0 {
        Some(Seq::empty())
    } else if s.len() == 1 {
        None
    } else {
        match (unhex(s.take(s.len() - 2)), hex_value(s[s.len() - 2]), hex_value(s[s.len() - 1])) {
            (Some(bytes), Some(high), Some(low)) => Some(bytes.push((16 * high + low) as u8)),
            _ => None,
        }
    }
}

/// The number that the decimal text `s` stands for, if `s` is one or more
/// decimal digits.
pub open spec fn decimal_value(s: Seq<u8>) -> Option<nat>
    decreases s.len(),
{
    if s.len() == 0 || !is_digit(s.last()) {
        None
    } else if s.len() == 1 {
        Some((s.last() - 48) as nat)
    } else {
        match decimal_value(s.drop_last()) {
            Some(v) => Some(10 * v + (s.last() - 48) as nat),
            None => None,
        }
    }
}

/// The user id that `s` stands for in an authentication request, if it
/// stands for one.
pub open spec fn decoded_uid(s: Seq<u8>) -> Option<u32> {
    match unhex(s) {
        Some(text) => match decimal_value(text) {
            Some(v) => if v <= u32::MAX {
                Some(v as u32)
            } else {
                None
            },
            None => None,
        },
        None => None,
    }
}

/// Two hexadecimal digits are written for each byte.
pub proof fn lemma_hex_pairs_len(s: Seq<u8>)
    ensures
        hex_pairs(s).len() == 2 * s.len(),
    decreases s.len(),
{
    if s.len() > 0 {
        lemma_hex_pairs_len(s.drop_last());
    }
}

/// Reading hexadecimal digit pairs gives back the bytes they were written
/// for.
pub proof fn lemma_unhex_inverts_hex_pairs(s: Seq<u8>)
    ensures
        unhex(hex_pairs(s)) == Some(s),
    decreases s.len(),
{
    if s.len() > 0 {
        let h = hex_pairs(s);
        let b = s.last() as nat;
        lemma_hex_pairs_len(s);
        lemma_hex_pairs_len(s.drop_last());
        lemma_unhex_inverts_hex_pairs(s.drop_last());
        assert(h.take(h.len() - 2) =~= hex_pairs(s.drop_last()));
        assert(hex_value(h[h.len() - 2]) == Some(b / 16));
        assert(hex_value(h[h.len() - 1]) == Some(b % 16));
        assert(16 * (b / 16) + b % 16 == b);
        assert(s.drop_last().push(s.last()) =~= s);
    }
}

/// The decimal text of a number is not empty.
pub proof fn lemma_decimal_len(n: nat)
    ensures
        decimal(n).len() >= 1,
    decreases n,
{
    if n >= 10 {
        lemma_decimal_len(n / 10);
    }
}

/// Reading the decimal text of a number gives back the number.
pub proof fn lemma_decimal_value_inverts_decimal(n: nat)
    ensures
        decimal_value(decimal(n)) == Some(n),
    decreases n,
{
    if n >= 10 {
        let s = decimal(n);
        lemma_decimal_len(n / 10);
        lemma_decimal_value_inverts_decimal(n / 10);
        assert(s.drop_last() =~= decimal(n / 10));
        assert(s.last() == digit_char(n % 10));
        assert(10 * (n / 10) + n % 10 == n);
    }
}

/// Decoding the text written for a user id gives back that id.
pub proof fn lemma_decode_inverts_encode(uid: u32)
    ensures
        decoded_uid(encoded_uid(uid)) == Some(uid),
{
    lemma_unhex_inverts_hex_pairs(decimal(uid as nat));
    lemma_decimal_value_inverts_decimal(uid as nat);
}

/// Text made of hexadecimal digit pairs holds an even number of bytes, each
/// of them a hexadecimal digit, and stands for half as many bytes.
pub proof fn lemma_unhex_shape(s: Seq<u8>)
    requires
        unhex(s) is Some,
    ensures
        s.len() % 2 == 0,
        unhex(s).unwrap().len() * 2 == s.len(),
        forall|i: int| 0 <= i < s.len() ==> hex_value(#[trigger] s[i]) is Some,
    decreases s.len(),
{
    if s.len() >= 2 {
        let p = s.take(s.len() - 2);
        lemma_unhex_shape(p);
        assert forall|i: int| 0 <= i < s.len() implies hex_value(#[trigger] s[i]) is Some by {
            if i < s.len() - 2 {
                assert(p[i] == s[i]);
            }
        }
    }
}

/// Every prefix of even length of text that is made of hexadecimal digit
/// pairs is made of such pairs too.
pub proof fn lemma_unhex_prefix(s: Seq<u8>, k: int)
    requires
        0 <= k <= s.len(),
        k % 2 == 0,
        unhex(s) is Some,
    ensures
        unhex(s.take(k)) is Some,
    decreases s.len(),
{
    lemma_unhex_shape(s);
    if k == s.len() {
        assert(s.take(k) =~= s);
    } else {
        let p = s.take(s.len() - 2);
        lemma_unhex_prefix(p, k);
        assert(p.take(k) =~= s.take(k));
    }
}

/// Decimal text holds decimal digits only, and every prefix of it that is
/// not empty is decimal text for a number that is no larger.
pub proof fn lemma_decimal_value_prefix(s: Seq<u8>, k: int)
    requires
        1 <= k <= s.len(),
        decimal_value(s) is Some,
    ensures
        decimal_value(s.take(k)) is Some,
        decimal_value(s.take(k)).unwrap() <= decimal_value(s).unwrap(),
        forall|i: int| 0 <= i < s.len() ==> is_digit(#[trigger] s[i]),
    decreases s.len(),
{
    if k == s.len() {
        assert(s.take(k) =~= s);
    }
    if s.len() > 1 {
        let p = s.drop_last();
        lemma_decimal_value_prefix(p, if k == s.len() { k - 1 } else { k });
        if k < s.len() {
            assert(p.take(k) =~= s.take(k));
        }
        assert forall|i: int| 0 <= i < s.len() implies is_digit(#[trigger] s[i]) by {
            if i < s.len() - 1 {
                assert(p[i] == s[i]);
            }
        }
    }
}

/// Text that stands for a user id is a single word: it is not empty and
/// holds no whitespace.
pub proof fn lemma_decodable_is_word(s: Seq<u8>)
    requires
        decoded_uid(s) is Some,
    ensures
        s.len() > 0,
        has_no_space(s),
{
    lemma_unhex_shape(s);
    assert forall|i: int| 0 <= i < s.len() implies !is_space(#[trigger] s[i]) by {
        assert(hex_value(s[i]) is Some);
    }
}

/// The text written for a user id is a single word.
pub proof fn lemma_encoded_uid_is_word(uid: u32)
    ensures
        encoded_uid(uid).len() > 0,
        has_no_space(encoded_uid(uid)),
{
    lemma_decode_inverts_encode(uid);
    lemma_decodable_is_word(encoded_uid(uid));
}

/// The lower-case hexadecimal digit for `v`.
fn hex_digit_of(v: u8) -> (c: u8)
    requires
        v < 16,
    ensures
        c == hex_digit(v as nat),
{
    if v < 10 {
        48 + v
    } else {
        87 + v
    }
}

/// Appends to `out` the encoded decimal text of `n`.
fn push_encoded(n: u32, out: &mut Vec<u8>)
    ensures
        final(out)@ == old(out)@ + hex_pairs(decimal(n as nat)),
    decreases n,
{
    if n >= 10 {
        push_encoded(n / 10, out);
    }
    let c: u8 = 48 + (n % 10) as u8;
    proof {
        let d = decimal(n as nat);
        if n >= 10 {
            assert(d.drop_last() =~= decimal(n as nat / 10));
        } else {
            assert(d.drop_last() =~= Seq::<u8>::empty());
        }
        assert(d.last() == c);
        assert(old(out)@ + hex_pairs(d) =~= (old(out)@ + hex_pairs(d.drop_last())).push(
            hex_digit(c as nat / 16),
        ).push(hex_digit(c as nat % 16)));
    }
    out.push(hex_digit_of(c / 16));
    out.push(hex_digit_of(c % 16));
}

/// Writes `uid` as it stands in an authentication request.
pub fn encode_uid(uid: u32) -> (text: Vec<u8>)
    ensures
        text@ == encoded_uid(uid),
{
    let mut text: Vec<u8> = Vec::new();
    push_encoded(uid, &mut text);
    assert(Seq::<u8>::empty() + encoded_uid(uid) =~= encoded_uid(uid));
    text
}

/// The value of the hexadecimal digit `c`.
fn hex_value_of(c: u8) -> (r: Option<u8>)
    ensures
        match r {
            Some(v) => hex_value(c) == Some(v as nat) && v < 16,
            None => hex_value(c) is None,
        },
{
    if 48 <= c && c <= 57 {
        Some(c - 48)
    } else if 97 <= c && c <= 102 {
        Some(c - 87)
    } else if 65 <= c && c <= 70 {
        Some(c - 55)
    } else {
        None
    }
}

/// Reads `word` as hexadecimal digit pairs.
fn unhex_bytes(word: &[u8]) -> (r: Option<Vec<u8>>)
    ensures
        match r {
            Some(bytes) => unhex(word@) == Some(bytes@),
            None => unhex(word@) is None,
        },
{
    if word.len() % 2 != 0 {
        proof {
            if unhex(word@) is Some {
                lemma_unhex_shape(word@);
            }
        }
        return None;
    }
    let mut bytes: Vec<u8> = Vec::new();
    let mut i: usize = 0;
    assert(word@.take(0) =~= Seq::<u8>::empty());
    while i < word.len()
        invariant
            i <= word.len(),
            i % 2 == 0,
            word.len() % 2 == 0,
            unhex(word@.take(i as int)) == Some(bytes@),
        decreases word.len() - i,
    {
        let ghost next = word@.take(i + 2);
        assert(next.take(next.len() - 2) =~= word@.take(i as int));
        match (hex_value_of(word[i]), hex_value_of(word[i + 1])) {
            (Some(high), Some(low)) => {
                bytes.push(16 * high + low);
            },
            _ => {
                proof {
                    if unhex(word@) is Some {
                        lemma_unhex_prefix(word@, i + 2);
                    }
                }
                return None;
            },
        }
        i += 2;
    }
    assert(word@.take(i as int) =~= word@);
    Some(bytes)
}

/// Reads `text` as a decimal number that fits a user id.
fn parse_decimal(text: &[u8]) -> (r: Option<u32>)
    ensures
        r == match decimal_value(text@) {
            Some(v) => if v <= u32::MAX {
                Some(v as u32)
            } else {
                None
            },
            None => None,
        },
{
    if text.len() == 0 {
        return None;
    }
    let mut value: u64 = 0;
    let mut i: usize = 0;
    while i < text.len()
        invariant
            i <= text.len(),
            value <= u32::MAX,
            i == 0 ==> value == 0,
            i > 0 ==> decimal_value(text@.take(i as int)) == Some(value as nat),
        decreases text.len() - i,
    {
        let ghost next = text@.take(i + 1);
        assert(next.drop_last() =~= text@.take(i as int));
        assert(next.last() == text@[i as int]);
        let c = text[i];
        if !(48 <= c && c <= 57) {
            proof {
                if decimal_value(text@) is Some {
                    lemma_decimal_value_prefix(text@, i + 1);
                }
            }
            return None;
        }
        value = 10 * value + (c - 48) as u64;
        assert(decimal_value(next) == Some(value as nat));
        if value > u32::MAX as u64 {
            proof {
                if decimal_value(text@) is Some {
                    lemma_decimal_value_prefix(text@, i + 1);
                }
            }
            return None;
        }
        i += 1;
    }
    assert(text@.take(i as int) =~= text@);
    Some(value as u32)
}

/// Reads the user id that `word` stands for in an authentication request.
///
/// The result is `None` unless `word` is made of the hexadecimal digit pairs
/// of a decimal number that fits a user id.
pub fn decode_uid(word: &[u8]) -> (r: Option<u32>)
    ensures
        r == decoded_uid(word@),
{
    match unhex_bytes(word) {
        Some(text) => parse_decimal(text.as_slice()),
        None => None,
    }
}

} // verus!
