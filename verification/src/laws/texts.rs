//! What numbers, header values and the order of texts are.

use crate::outside::lossy_text;
use crate::text::{
    bytes_before, decimal_text, digits_value, first_place, header_content, is_digit, shown, signed_text,
    text_before, u64_value, unsigned_digits, unsigned_value,
};
use vstd::prelude::*;
use vstd::utf8::*;

verus! {

/// A byte that stands for a digit below ten.
pub open spec fn digit_byte(digit: nat) -> u8 {
    (48 + digit) as u8
}

/// A number is read in base ten: one digit stands for itself, and one more digit at the end makes ten
/// times the number and the digit.
pub proof fn law_numbers_are_read_in_base_ten(text: Seq<u8>, digit: nat)
    requires
        digit < 10,
    ensures
        unsigned_value(seq![digit_byte(digit)]) == Some(digit),
        unsigned_value(text) matches Some(number) ==> unsigned_value(text.push(digit_byte(digit))) == Some(
            10 * number + digit,
        ),
{
    let single = seq![digit_byte(digit)];
    let digits = unsigned_digits(text);
    let longer = text.push(digit_byte(digit));
    assert(single.drop_last() =~= Seq::<u8>::empty());
    assert(digits_value(single.drop_last()) == 0);
    assert(unsigned_digits(single) =~= single);
    if unsigned_value(text) is Some {
        assert(unsigned_digits(longer) =~= digits.push(digit_byte(digit)));
        assert(digits.push(digit_byte(digit)).drop_last() =~= digits);
        assert forall|i: int| 0 <= i < unsigned_digits(longer).len() implies is_digit(
            #[trigger] unsigned_digits(longer)[i],
        ) by {
            if i < digits.len() {
                assert(is_digit(digits[i]));
            }
        }
    }
}

/// What follows a plus sign at the front, or all of a text without one.
pub open spec fn behind_plus(text: Seq<u8>) -> Seq<u8> {
    if text.len() > 0 && text[0] == '+' as u8 {
        text.skip(1)
    } else {
        text
    }
}

/// Exactly those texts are numbers that consist of digits, at least one, perhaps with a plus sign before
/// them, which makes no difference.
pub proof fn law_numbers_consist_of_digits(text: Seq<u8>)
    ensures
        unsigned_value(text) is Some <==> behind_plus(text).len() > 0 && forall|i: int|
            0 <= i < behind_plus(text).len() ==> '0' as u8 <= #[trigger] behind_plus(text)[i] <= '9' as u8,
        text.len() > 0 && text[0] != '+' as u8 ==> unsigned_value(seq!['+' as u8] + text) == unsigned_value(text),
        u64_value(text) matches Some(number) ==> unsigned_value(text) == Some(number as nat),
        u64_value(text) is None ==> unsigned_value(text) is None || unsigned_value(text)->0 > u64::MAX,
{
    let digits = behind_plus(text);
    assert(unsigned_digits(text) == digits);
    assert forall|i: int| 0 <= i < digits.len() implies is_digit(#[trigger] digits[i]) == ('0' as u8 <= digits[i]
        <= '9' as u8) by {}
    if unsigned_value(text) is Some {
        assert forall|i: int| 0 <= i < digits.len() implies '0' as u8 <= #[trigger] digits[i] <= '9' as u8 by {
            assert(is_digit(digits[i]));
        }
    }
    if text.len() > 0 && text[0] != '+' as u8 {
        assert((seq!['+' as u8] + text).skip(1) =~= text);
    }
}

/// A number is written in digits alone, and without zeros in front: only zero begins with one.
pub proof fn law_decimals_have_no_leading_zeros(number: nat)
    ensures
        decimal_text(number).len() > 0,
        forall|i: int| 0 <= i < decimal_text(number).len() ==> '0' <= #[trigger] decimal_text(number)[i] <= '9',
        decimal_text(number)[0] == '0' <==> number == 0,
        number < 10 <==> decimal_text(number).len() == 1,
    decreases number,
{
    if number >= 10 {
        law_decimals_have_no_leading_zeros(number / 10);
    }
}

/// A number with a sign is written as its absolute value, with a minus sign in front where it is negative.
pub proof fn law_signs_are_written(number: int)
    ensures
        number >= 0 ==> signed_text(number) == decimal_text(number as nat),
        number < 0 ==> signed_text(number)[0] == '-' && signed_text(number).skip(1) == decimal_text((-number) as nat),
{
    if number < 0 {
        assert(signed_text(number).skip(1) =~= decimal_text((-number) as nat));
    }
}

/// The first place of a byte is where it stands, and it stands nowhere before; where there is none, it is
/// the end.
pub proof fn law_first_place_is_the_first(bytes: Seq<u8>, byte: u8)
    ensures
        first_place(bytes, byte) <= bytes.len(),
        first_place(bytes, byte) < bytes.len() ==> bytes[first_place(bytes, byte) as int] == byte,
        forall|i: int| 0 <= i < first_place(bytes, byte) ==> #[trigger] bytes[i] != byte,
    decreases bytes.len(),
{
    if bytes.len() > 0 && bytes[0] != byte {
        let rest = bytes.skip(1);
        law_first_place_is_the_first(rest, byte);
        assert forall|i: int| 0 <= i < first_place(bytes, byte) implies #[trigger] bytes[i] != byte by {
            if i > 0 {
                assert(bytes[i] == rest[i - 1]);
            }
        }
    }
}

/// Byte strings are ordered as in a dictionary: the first byte in which two of them differ decides, and the
/// beginning of another one comes before it.
pub proof fn law_bytes_are_ordered_like_words(left: Seq<u8>, right: Seq<u8>, common: int)
    requires
        0 <= common <= left.len(),
        common <= right.len(),
        left.take(common) == right.take(common),
        common == left.len() || common == right.len() || left[common] != right[common],
    ensures
        bytes_before(left, right) <==> common < right.len() && (common == left.len() || left[common]
            < right[common]),
    decreases common,
{
    if common > 0 {
        assert(left.take(common)[0] == right.take(common)[0]);
        assert(left.skip(1).take(common - 1) =~= left.take(common).skip(1));
        assert(right.skip(1).take(common - 1) =~= right.take(common).skip(1));
        law_bytes_are_ordered_like_words(left.skip(1), right.skip(1), common - 1);
        assert(common < left.len() ==> left.skip(1)[common - 1] == left[common]);
        assert(common < right.len() ==> right.skip(1)[common - 1] == right[common]);
        assert(left[0] == left.take(common)[0] && right[0] == right.take(common)[0]);
    }
}

/// Texts are ordered by the first byte in which their encodings differ.
pub proof fn law_texts_are_ordered_like_words(left: Seq<char>, right: Seq<char>, common: int)
    requires
        0 <= common <= encode_utf8(left).len(),
        common <= encode_utf8(right).len(),
        encode_utf8(left).take(common) == encode_utf8(right).take(common),
        common == encode_utf8(left).len() || common == encode_utf8(right).len() || encode_utf8(left)[common]
            != encode_utf8(right)[common],
    ensures
        text_before(left, right) <==> common < encode_utf8(right).len() && (common == encode_utf8(left).len()
            || encode_utf8(left)[common] < encode_utf8(right)[common]),
{
    law_bytes_are_ordered_like_words(encode_utf8(left), encode_utf8(right), common);
}

/// A header value can be read as text exactly where it holds nothing but printable ASCII characters and
/// tabs; the text has these characters.
pub proof fn law_header_values_are_ascii(value: Seq<u8>)
    ensures
        header_content(value) is Some <==> forall|i: int|
            0 <= i < value.len() ==> ' ' as u8 <= #[trigger] value[i] <= '~' as u8 || value[i] == '\t' as u8,
        header_content(value) matches Some(text) ==> {
            &&& text.len() == value.len()
            &&& forall|i: int| 0 <= i < value.len() ==> #[trigger] text[i] as u8 == value[i]
        },
{
    if header_content(value) is Some {
        assert forall|i: int| 0 <= i < value.len() implies ' ' as u8 <= #[trigger] value[i] <= '~' as u8 || value[i]
            == '\t' as u8 by {}
    }
    if forall|i: int|
        0 <= i < value.len() ==> ' ' as u8 <= #[trigger] value[i] <= '~' as u8 || value[i] == '\t' as u8 {
        assert(header_content(value) is Some);
    }
}

/// Bytes that are UTF-8 are shown as the text that they encode.
pub proof fn law_utf8_is_shown_as_it_is(text: Seq<char>)
    ensures
        shown(encode_utf8(text)) == text,
{
    broadcast use {encode_utf8_valid_utf8, encode_utf8_decode_utf8};

}

/// Bytes that are no UTF-8 are shown as what comes nearest.
pub proof fn law_other_bytes_are_shown_as_near_as_possible(bytes: Seq<u8>)
    requires
        !valid_utf8(bytes),
    ensures
        shown(bytes) == lossy_text(bytes),
{
}

} // verus!
