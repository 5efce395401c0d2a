//! Decimal text for the encoder count, written into a small fixed buffer.

use vstd::prelude::*;
use vstd::utf8::*;
use vstd::string::*;

verus! {

/// The character of decimal digit `d` (`0 <= d < 10`).
pub open spec fn digit_char(d: int) -> char {
    (48 + d) as char
}

/// The decimal digits of `v` with no leading zero; empty for 0.
pub open spec fn digits_rest(v: nat) -> Seq<char>
    decreases v,
{
    if v == 0 {
        Seq::empty()
    } else {
        digits_rest(v / 10).push(digit_char((v % 10) as int))
    }
}

/// The decimal digits of `v` with no leading zero ("0" for 0).
pub open spec fn decimal_digits(v: nat) -> Seq<char> {
    if v == 0 {
        seq!['0']
    } else {
        digits_rest(v)
    }
}

/// The decimal text of `n`: its digits, after a '-' when `n` is negative.
pub open spec fn decimal_text(n: int) -> Seq<char> {
    if n < 0 {
        seq!['-'] + decimal_digits((-n) as nat)
    } else {
        decimal_digits(n as nat)
    }
}

/// `10` to the power `k`.
pub open spec fn pow10(k: nat) -> nat
    decreases k,
{
    if k == 0 {
        1
    } else {
        10 * pow10((k - 1) as nat)
    }
}

/// A number below `10^k` has at most `k` digits.
proof fn lemma_digits_len(v: nat, k: nat)
    requires
        v < pow10(k),
    ensures
        digits_rest(v).len() <= k,
    decreases v,
{
    if v > 0 {
        assert(k > 0);
        assert(v / 10 < pow10((k - 1) as nat));
        lemma_digits_len(v / 10, (k - 1) as nat);
    }
}

/// Every character of a decimal text is ASCII.
proof fn lemma_digits_ascii(v: nat)
    ensures
        forall|i: int|
            0 <= i < digits_rest(v).len() ==> '0' <= #[trigger] digits_rest(v)[i] <= '9',
    decreases v,
{
    if v > 0 {
        let p = digits_rest(v / 10);
        let d = (v % 10) as int;
        lemma_digits_ascii(v / 10);
        assert('0' <= digit_char(d) <= '9');
        assert forall|i: int| 0 <= i < digits_rest(v).len() implies '0' <= #[trigger] digits_rest(
            v,
        )[i] <= '9' by {
            if i < p.len() {
                assert(digits_rest(v)[i] == p[i]);
            }
        }
    }
}

/// `core::str::from_utf8`, which on bytes that are valid UTF-8 returns the
/// string slice made of exactly those bytes (it only fails on invalid input,
/// which `requires` leaves out).
#[verifier::external_body]
fn str_from_utf8(bytes: &[u8]) -> (text: &str)
    requires
        valid_utf8(bytes@),
    ensures
        text.spec_bytes() == bytes@,
{
    core::str::from_utf8(bytes).unwrap()
}

/// Writes the decimal text of `number` at the end of `buffer` and returns it.
///
/// The text must fit in the eight bytes of the buffer, which is the case for
/// `-9_999_999 <= number <= 99_999_999`. The bytes in front of the text are
/// left as they were.
pub fn format_number(number: i32, buffer: &mut [u8; 8]) -> (text: &str)
    requires
        -9_999_999 <= number <= 99_999_999,
    ensures
        text@ == decimal_text(number as int),
        forall|k: int|
            0 <= k < text@.len() ==> final(buffer)@[8 - text@.len() + k] == text@[k] as u8,
        forall|k: int| 0 <= k < 8 - text@.len() ==> final(buffer)@[k] == old(buffer)@[k],
{
    let is_negative = number < 0;
    let mut value: u32 = if is_negative {
        (-number) as u32
    } else {
        number as u32
    };
    let ghost abs: nat = value as nat;
    let mut index: usize = 8;
    let ghost mut written: Seq<char> = Seq::empty();

    proof {
        reveal_with_fuel(pow10, 9);
        if is_negative {
            lemma_digits_len(abs, 7);
        } else {
            lemma_digits_len(abs, 8);
        }
    }

    if value == 0 {
        index -= 1;
        buffer[index] = 48u8;
        proof {
            written = seq!['0'];
        }
    }

    while value > 0
        invariant
            index <= 8,
            written.len() == 8 - index,
            abs == 0 ==> value == 0 && written == seq!['0'],
            abs > 0 ==> digits_rest(abs) == digits_rest(value as nat) + written,
            is_negative ==> digits_rest(abs).len() <= 7,
            digits_rest(abs).len() <= 8,
            forall|k: int| 0 <= k < written.len() ==> buffer@[index + k] == written[k] as u8,
            forall|k: int| 0 <= k < index ==> buffer@[k] == old(buffer)@[k],
        decreases value,
    {
        let digit: u32 = value % 10;
        assert(digits_rest(value as nat) == digits_rest((value / 10) as nat).push(
            digit_char(digit as int),
        ));
        index -= 1;
        buffer[index] = 48u8 + digit as u8;
        proof {
            let c = digit_char(digit as int);
            assert(c as u8 == 48 + digit);
            let new_written = seq![c] + written;
            assert(digits_rest((value / 10) as nat).push(c) + written =~= digits_rest(
                (value / 10) as nat,
            ) + new_written);
            written = new_written;
        }
        value = value / 10;
    }

    if is_negative {
        index -= 1;
        buffer[index] = 45u8;
        proof {
            written = seq!['-'] + written;
        }
    }

    proof {
        assert(digits_rest(0) == Seq::<char>::empty());
        if abs > 0 {
            assert(written =~= decimal_digits(abs) || written =~= seq!['-'] + decimal_digits(abs));
        }
        assert(written =~= decimal_text(number as int));
        lemma_digits_ascii(abs);
        assert(is_ascii_chars(written));
        is_ascii_chars_encode_utf8(written);
        encode_utf8_valid_utf8(written);
    }
    let tail = vstd::slice::slice_subrange(buffer.as_slice(), index, 8);
    proof {
        assert(tail@ =~= encode_utf8(written));
    }
    let text = str_from_utf8(tail);
    proof {
        encode_utf8_decode_utf8(written);
        encode_utf8_decode_utf8(text@);
    }
    text
}

/// The number that a string of decimal digits denotes (0 for no digits).
pub open spec fn digits_value(s: Seq<char>) -> int
    decreases s.len(),
{
    if s.len() == 0 {
        0
    } else {
        digits_value(s.drop_last()) * 10 + (s.last() as int - 48)
    }
}

/// The number that a decimal text denotes: its digits, negated after a
/// leading '-'.
pub open spec fn text_value(s: Seq<char>) -> int {
    if s.len() > 0 && s[0] == '-' {
        -digits_value(s.drop_first())
    } else {
        digits_value(s)
    }
}

proof fn lemma_digits_value(v: nat)
    ensures
        digits_value(digits_rest(v)) == v,
    decreases v,
{
    if v > 0 {
        lemma_digits_value(v / 10);
        let d = (v % 10) as int;
        assert(digit_char(d) as int == 48 + d);
        assert(digits_rest(v).drop_last() =~= digits_rest(v / 10));
    }
}

/// Reading the decimal text of a number back gives the number: the text
/// determines the number it was made from.
pub proof fn lemma_decimal_text_read_back(n: int)
    ensures
        text_value(decimal_text(n)) == n,
{
    reveal_with_fuel(digits_value, 2);
    if n < 0 {
        let a = (-n) as nat;
        lemma_digits_value(a);
        assert((seq!['-'] + decimal_digits(a)).drop_first() =~= decimal_digits(a));
    } else if n == 0 {
        assert(seq!['0'].drop_last() =~= Seq::<char>::empty());
        assert('0' as int == 48);
    } else {
        let v = n as nat;
        lemma_digits_value(v);
        lemma_digits_ascii(v);
        assert(digits_rest(v).len() > 0);
        assert('0' <= digits_rest(v)[0] <= '9');
    }
}

/// Every number in the range that `format_number` accepts has a decimal text
/// of at most eight characters.
pub proof fn lemma_decimal_text_fits(n: int)
    requires
        -9_999_999 <= n <= 99_999_999,
    ensures
        decimal_text(n).len() <= 8,
{
    reveal_with_fuel(pow10, 9);
    if n < 0 {
        lemma_digits_len((-n) as nat, 7);
    } else {
        lemma_digits_len(n as nat, 8);
    }
}

} // verus!
