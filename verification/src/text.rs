//! Decimal numbers in snapshot fields.

use vstd::prelude::*;

verus! {

/// The bytes that make up `text`.
pub open spec fn text_bytes(text: Seq<char>) -> Seq<u8> {
    vstd::utf8::encode_utf8(text)
}

/// `b` is an ASCII digit.
pub open spec fn is_digit(b: u8) -> bool {
    0x30 <= b <= 0x39
}

/// Every byte is an ASCII digit.
pub open spec fn all_digits(bytes: Seq<u8>) -> bool {
    forall|i: int| 0 <= i < bytes.len() ==> is_digit(#[trigger] bytes[i])
}

/// What a digit stands for; other bytes count as nothing.
pub open spec fn digit_value(b: u8) -> nat {
    if is_digit(b) {
        (b - 0x30) as nat
    } else {
        0
    }
}

/// The number that the digits spell in base ten, most significant first.
pub open spec fn digits_value(bytes: Seq<u8>) -> nat
    decreases bytes.len(),
{
    if bytes.len() == 0 {
        0
    } else {
        digits_value(bytes.drop_last()) * 10 + digit_value(bytes.last())
    }
}

/// The 64-bit number that `bytes` denotes: one or more ASCII digits and
/// nothing else, with a value that fits. Anything else denotes no number.
pub open spec fn decimal(bytes: Seq<u8>) -> Option<u64> {
    if bytes.len() > 0 && all_digits(bytes) && digits_value(bytes) <= u64::MAX {
        Some(digits_value(bytes) as u64)
    } else {
        None
    }
}

/// A prefix never spells a larger number than the whole.
pub proof fn lemma_prefix_value(bytes: Seq<u8>, n: int)
    requires
        0 <= n <= bytes.len(),
    ensures
        digits_value(bytes.take(n)) <= digits_value(bytes),
    decreases bytes.len(),
{
    if n == bytes.len() {
        assert(bytes.take(n) =~= bytes);
    } else {
        lemma_prefix_value(bytes.drop_last(), n);
        assert(bytes.drop_last().take(n) =~= bytes.take(n));
    }
}

/// Reads a field as an unsigned decimal number.
pub fn parse_decimal(text: &str) -> (number: Option<u64>)
    ensures
        number == decimal(text_bytes(text@)),
{
    let bytes = text.as_bytes();
    let n: usize = bytes.len();
    if n == 0 {
        return None;
    }
    let mut value: u64 = 0;
    let mut i: usize = 0;
    assert(bytes@.take(0) =~= Seq::<u8>::empty());
    while i < n
        invariant
            i <= n,
            n == bytes@.len(),
            bytes@ == text_bytes(text@),
            all_digits(bytes@.take(i as int)),
            value == digits_value(bytes@.take(i as int)),
        decreases n - i,
    {
        let b: u8 = bytes[i];
        proof {
            assert(bytes@.take(i + 1).drop_last() =~= bytes@.take(i as int));
            assert(bytes@.take(i + 1).last() == b);
        }
        if b < 0x30 || b > 0x39 {
            assert(!is_digit(bytes@[i as int]));
            return None;
        }
        let d: u64 = (b - 0x30) as u64;
        if value > (u64::MAX - d) / 10 {
            proof {
                lemma_prefix_value(bytes@, i + 1);
            }
            return None;
        }
        value = value * 10 + d;
        assert forall|j: int| 0 <= j < i + 1 implies is_digit(#[trigger] bytes@.take(i + 1)[j]) by {
            if j < i {
                assert(bytes@.take(i + 1)[j] == bytes@.take(i as int)[j]);
            }
        }
        i += 1;
    }
    assert(bytes@.take(n as int) =~= bytes@);
    Some(value)
}

} // verus!
