//! Text and byte-string helpers: comparison, searching, decimal numbers.

use crate::outside::{lossy_text, utf8_lossy};
use vstd::prelude::*;
use vstd::string::*;
use vstd::utf8::*;

verus! {

/// The code of an ASCII digit.
pub open spec fn is_digit(byte: u8) -> bool {
    48 <= byte <= 57
}

/// The number that a run of ASCII digits denotes in base ten; the empty run denotes zero.
pub open spec fn digits_value(digits: Seq<u8>) -> nat
    decreases digits.len(),
{
    if digits.len() == 0 {
        0
    } else {
        digits_value(digits.drop_last()) * 10 + (digits.last() - 48) as nat
    }
}

/// The digits of an unsigned decimal number: the text without one optional leading plus sign.
pub open spec fn unsigned_digits(text: Seq<u8>) -> Seq<u8> {
    if text.len() > 0 && text[0] == 43 {
        text.skip(1)
    } else {
        text
    }
}

/// The value of an unsigned decimal number: an optional plus sign, then one or more digits and
/// nothing else.
pub open spec fn unsigned_value(text: Seq<u8>) -> Option<nat> {
    let digits = unsigned_digits(text);
    if digits.len() > 0 && (forall|i: int| 0 <= i < digits.len() ==> is_digit(#[trigger] digits[i])) {
        Some(digits_value(digits))
    } else {
        None
    }
}

/// The value of an unsigned decimal number, where it fits into a `u64`.
pub open spec fn u64_value(text: Seq<u8>) -> Option<u64> {
    match unsigned_value(text) {
        Some(number) => if number <= u64::MAX {
            Some(number as u64)
        } else {
            None
        },
        None => None,
    }
}

/// The character of a digit below ten.
pub open spec fn digit_char(digit: nat) -> char {
    ((48 + digit) as u8) as char
}

/// A number in base ten, without leading zeros.
pub open spec fn decimal_text(number: nat) -> Seq<char>
    decreases number,
{
    if number < 10 {
        seq![digit_char(number)]
    } else {
        decimal_text(number / 10).push(digit_char(number % 10))
    }
}

/// A number in base ten with a minus sign where it is negative.
pub open spec fn signed_text(number: int) -> Seq<char> {
    if number < 0 {
        seq!['-'] + decimal_text((-number) as nat)
    } else {
        decimal_text(number as nat)
    }
}

/// The place of the first occurrence of `byte`, or the length where there is none.
pub open spec fn first_place(bytes: Seq<u8>, byte: u8) -> nat
    decreases bytes.len(),
{
    if bytes.len() == 0 || bytes[0] == byte {
        0
    } else {
        1 + first_place(bytes.skip(1), byte)
    }
}

/// Byte-wise lexicographic order, strict: a proper prefix comes first.
pub open spec fn bytes_before(left: Seq<u8>, right: Seq<u8>) -> bool
    decreases left.len(),
{
    if right.len() == 0 {
        false
    } else if left.len() == 0 {
        true
    } else if left[0] != right[0] {
        left[0] < right[0]
    } else {
        bytes_before(left.skip(1), right.skip(1))
    }
}

/// The order of strings: that of their UTF-8 bytes.
pub open spec fn text_before(left: Seq<char>, right: Seq<char>) -> bool {
    bytes_before(encode_utf8(left), encode_utf8(right))
}

/// What a header value consists of when it can be read as text: tabs and the printable ASCII
/// characters.
pub open spec fn is_visible(byte: u8) -> bool {
    32 <= byte < 127 || byte == 9
}

/// All bytes of a header value can be read as text.
pub open spec fn all_visible(bytes: Seq<u8>) -> bool {
    forall|i: int| 0 <= i < bytes.len() ==> is_visible(#[trigger] bytes[i])
}

/// ASCII bytes as characters, one for one.
pub open spec fn ascii_text(bytes: Seq<u8>) -> Seq<char> {
    Seq::new(bytes.len(), |i: int| bytes[i] as char)
}

/// ASCII bytes are the UTF-8 encoding of the characters with the same codes.
pub proof fn lemma_ascii_text(bytes: Seq<u8>)
    requires
        forall|i: int| 0 <= i < bytes.len() ==> #[trigger] bytes[i] < 128,
    ensures
        valid_utf8(bytes),
        decode_utf8(bytes) == ascii_text(bytes),
        encode_utf8(ascii_text(bytes)) == bytes,
{
    let chars = ascii_text(bytes);
    assert(is_ascii_chars(chars));
    is_ascii_chars_encode_utf8(chars);
    assert forall|i: int| 0 <= i < bytes.len() implies #[trigger] encode_utf8(chars)[i] == bytes[i] by {
        assert(chars[i] as u8 == bytes[i]);
    }
    assert(encode_utf8(chars) =~= bytes);
    encode_utf8_valid_utf8(chars);
    encode_utf8_decode_utf8(chars);
}

/// Two texts with the same UTF-8 encoding are the same.
pub proof fn lemma_encoding_injective(left: Seq<char>, right: Seq<char>)
    requires
        encode_utf8(left) == encode_utf8(right),
    ensures
        left == right,
{
    encode_utf8_decode_utf8(left);
    encode_utf8_decode_utf8(right);
}

/// Whether two byte strings are equal.
pub fn same_bytes(left: &[u8], right: &[u8]) -> (same: bool)
    ensures
        same == (left@ == right@),
{
    if left.len() != right.len() {
        return false;
    }
    let mut i: usize = 0;
    while i < left.len()
        invariant
            i <= left.len(),
            left@.len() == right@.len(),
            forall|j: int| 0 <= j < i ==> left@[j] == right@[j],
        decreases left.len() - i,
    {
        if left[i] != right[i] {
            return false;
        }
        i += 1;
    }
    assert(left@ =~= right@);
    true
}

/// Whether two texts are equal.
pub fn same_text(left: &str, right: &str) -> (same: bool)
    ensures
        same == (left@ == right@),
{
    let same = same_bytes(left.as_bytes(), right.as_bytes());
    proof {
        if same {
            lemma_encoding_injective(left@, right@);
        }
    }
    same
}

/// Whether one text comes before another in the order of strings.
pub fn comes_before(left: &str, right: &str) -> (before: bool)
    ensures
        before == text_before(left@, right@),
{
    let a = left.as_bytes();
    let b = right.as_bytes();
    let mut i: usize = 0;
    proof {
        assert(a@.skip(0) =~= a@);
        assert(b@.skip(0) =~= b@);
    }
    while i < a.len() && i < b.len() && a[i] == b[i]
        invariant
            i <= a.len(),
            i <= b.len(),
            bytes_before(a@, b@) == bytes_before(a@.skip(i as int), b@.skip(i as int)),
        decreases a.len() - i,
    {
        proof {
            assert(a@.skip(i as int).skip(1) =~= a@.skip(i + 1));
            assert(b@.skip(i as int).skip(1) =~= b@.skip(i + 1));
        }
        i += 1;
    }
    if i >= b.len() {
        false
    } else if i >= a.len() {
        true
    } else {
        a[i] < b[i]
    }
}

/// Whether `bytes` begins with `prefix`.
pub fn has_prefix(bytes: &[u8], prefix: &[u8]) -> (has: bool)
    ensures
        has == (prefix@.len() <= bytes@.len() && bytes@.take(prefix@.len() as int) == prefix@),
{
    if prefix.len() > bytes.len() {
        return false;
    }
    let mut i: usize = 0;
    while i < prefix.len()
        invariant
            i <= prefix.len(),
            prefix@.len() <= bytes@.len(),
            forall|j: int| 0 <= j < i ==> bytes@[j] == prefix@[j],
        decreases prefix.len() - i,
    {
        if bytes[i] != prefix[i] {
            assert(bytes@.take(prefix@.len() as int)[i as int] != prefix@[i as int]);
            return false;
        }
        i += 1;
    }
    assert(bytes@.take(prefix@.len() as int) =~= prefix@);
    true
}

/// The place of the first occurrence of `byte`.
pub fn find_byte(bytes: &[u8], byte: u8) -> (place: usize)
    ensures
        place == first_place(bytes@, byte),
        place <= bytes@.len(),
        place < bytes@.len() ==> bytes@[place as int] == byte,
        forall|j: int| 0 <= j < place ==> bytes@[j] != byte,
{
    let mut i: usize = 0;
    proof {
        assert(bytes@.skip(0) =~= bytes@);
    }
    while i < bytes.len() && bytes[i] != byte
        invariant
            i <= bytes.len(),
            first_place(bytes@, byte) == i + first_place(bytes@.skip(i as int), byte),
            forall|j: int| 0 <= j < i ==> bytes@[j] != byte,
        decreases bytes.len() - i,
    {
        proof {
            assert(bytes@.skip(i as int).skip(1) =~= bytes@.skip(i + 1));
        }
        i += 1;
    }
    i
}

/// A longer run of digits denotes at least as much as its beginning.
proof fn lemma_digits_grow(digits: Seq<u8>, shorter: int)
    requires
        0 <= shorter <= digits.len(),
        forall|i: int| 0 <= i < digits.len() ==> is_digit(#[trigger] digits[i]),
    ensures
        digits_value(digits.take(shorter)) <= digits_value(digits),
    decreases digits.len() - shorter,
{
    if shorter == digits.len() {
        assert(digits.take(shorter) =~= digits);
    } else {
        lemma_digits_grow(digits, shorter + 1);
        assert(digits.take(shorter + 1).drop_last() =~= digits.take(shorter));
    }
}

/// Reads an unsigned decimal number that is at most `limit`.
pub fn parse_unsigned(text: &[u8], limit: u64) -> (value: Option<u64>)
    ensures
        value == (match unsigned_value(text@) {
            Some(number) => if number <= limit {
                Some(number as u64)
            } else {
                None
            },
            None => None,
        }),
{
    let start: usize = if text.len() > 0 && text[0] == 43 {
        1
    } else {
        0
    };
    let ghost digits = unsigned_digits(text@);
    assert(digits =~= text@.skip(start as int));
    if start == text.len() {
        return None;
    }
    let mut value: u64 = 0;
    let mut i: usize = start;
    assert(digits.take(0) =~= Seq::<u8>::empty());
    let mut within: bool = true;
    while i < text.len()
        invariant
            start <= i <= text.len(),
            digits == text@.skip(start as int),
            digits == unsigned_digits(text@),
            digits.len() > 0,
            forall|j: int| 0 <= j < i - start ==> is_digit(#[trigger] digits[j]),
            within ==> value == digits_value(digits.take(i - start)) && value <= limit,
            !within ==> digits_value(digits.take(i - start)) > limit,
        decreases text.len() - i,
    {
        let byte: u8 = text[i];
        assert(byte == digits[i - start]);
        if byte < 48 || byte > 57 {
            return None;
        }
        let digit: u64 = (byte - 48) as u64;
        proof {
            assert(digits.take(i + 1 - start).drop_last() =~= digits.take(i - start));
            assert(digits.take(i + 1 - start).last() == byte);
        }
        if within {
            if value > limit / 10 {
                within = false;
            } else {
                let tens: u64 = value * 10;
                if digit > limit - tens {
                    within = false;
                } else {
                    value = tens + digit;
                }
            }
        }
        i += 1;
    }
    assert(digits.take(digits.len() as int) =~= digits);
    if within {
        Some(value)
    } else {
        None
    }
}

/// The text of one digit.
fn digit_str(digit: u64) -> (text: &'static str)
    requires
        digit < 10,
    ensures
        text@ == seq![digit_char(digit as nat)],
{
    proof {
        reveal_strlit("0");
        reveal_strlit("1");
        reveal_strlit("2");
        reveal_strlit("3");
        reveal_strlit("4");
        reveal_strlit("5");
        reveal_strlit("6");
        reveal_strlit("7");
        reveal_strlit("8");
        reveal_strlit("9");
    }
    let text = match digit {
        0 => "0",
        1 => "1",
        2 => "2",
        3 => "3",
        4 => "4",
        5 => "5",
        6 => "6",
        7 => "7",
        8 => "8",
        _ => "9",
    };
    assert(text@ =~= seq![digit_char(digit as nat)]);
    text
}

/// A number in base ten.
pub fn decimal(number: u64) -> (text: String)
    ensures
        text@ == decimal_text(number as nat),
    decreases number,
{
    if number < 10 {
        digit_str(number).to_owned()
    } else {
        let mut text: String = decimal(number / 10);
        text.append(digit_str(number % 10));
        assert(text@ =~= decimal_text(number as nat));
        text
    }
}

/// A number in base ten with its sign.
pub fn signed_decimal(number: i32) -> (text: String)
    ensures
        text@ == signed_text(number as int),
{
    if number < 0 {
        let mut text: String = "-".to_owned();
        let magnitude: i64 = -(number as i64);
        let rest: String = decimal(magnitude as u64);
        text.append(rest.as_str());
        proof {
            reveal_strlit("-");
            assert(text@ =~= signed_text(number as int));
        }
        text
    } else {
        decimal(number as u64)
    }
}

/// Puts two texts together.
pub fn join(left: &str, right: &str) -> (text: String)
    ensures
        text@ == left@ + right@,
{
    let mut text: String = left.to_owned();
    text.append(right);
    text
}

/// A copy of a byte string.
pub fn copy_bytes(bytes: &[u8]) -> (copy: Vec<u8>)
    ensures
        copy@ == bytes@,
{
    let mut copy: Vec<u8> = Vec::new();
    append_bytes(&mut copy, bytes);
    assert(copy@ =~= bytes@);
    copy
}

/// Adds bytes at the end.
pub fn append_bytes(target: &mut Vec<u8>, bytes: &[u8])
    ensures
        final(target)@ == old(target)@ + bytes@,
{
    let ghost before = target@;
    target.extend_from_slice(bytes);
    assert(target@ =~= before + bytes@);
}

/// The content of an optional text.
pub open spec fn optional(text: Option<String>) -> Option<Seq<char>> {
    match text {
        Some(text) => Some(text@),
        None => None,
    }
}

/// The contents of texts.
pub open spec fn texts(list: Seq<String>) -> Seq<Seq<char>> {
    Seq::new(list.len(), |i: int| list[i]@)
}

/// The content of an optional byte string.
pub open spec fn optional_bytes(bytes: Option<Vec<u8>>) -> Option<Seq<u8>> {
    match bytes {
        Some(bytes) => Some(bytes@),
        None => None,
    }
}

/// The content of an optional header value.
pub open spec fn header_bytes(header: Option<&[u8]>) -> Option<Seq<u8>> {
    match header {
        Some(value) => Some(value@),
        None => None,
    }
}

/// An optional byte string, borrowed.
pub fn borrowed(bytes: &Option<Vec<u8>>) -> (slice: Option<&[u8]>)
    ensures
        header_bytes(slice) == optional_bytes(*bytes),
{
    match bytes {
        Some(bytes) => Some(bytes.as_slice()),
        None => None,
    }
}

/// A header value as text, where all of it can be read as text.
pub open spec fn header_content(value: Seq<u8>) -> Option<Seq<char>> {
    if all_visible(value) {
        Some(ascii_text(value))
    } else {
        None
    }
}

/// Whether all of a header value can be read as text.
pub fn is_all_visible(value: &[u8]) -> (visible: bool)
    ensures
        visible == all_visible(value@),
{
    let mut i: usize = 0;
    while i < value.len()
        invariant
            i <= value.len(),
            forall|j: int| 0 <= j < i ==> is_visible(#[trigger] value@[j]),
        decreases value.len() - i,
    {
        let byte: u8 = value[i];
        if !(32 <= byte && byte < 127 || byte == 9) {
            assert(!is_visible(value@[i as int]));
            return false;
        }
        i += 1;
    }
    true
}

/// Reads a header value as text.
pub fn header_text(value: &[u8]) -> (text: Option<String>)
    ensures
        optional(text) == header_content(value@),
{
    if !is_all_visible(value) {
        return None;
    }
    proof {
        assert forall|j: int| 0 <= j < value@.len() implies #[trigger] value@[j] < 128 by {
            assert(is_visible(value@[j]));
        }
        lemma_ascii_text(value@);
    }
    match String::from_utf8(copy_bytes(value)) {
        Ok(text) => Some(text),
        Err(_) => None,
    }
}

/// Puts a list the other way round.
pub fn reversed<A>(list: Vec<A>) -> (backwards: Vec<A>)
    ensures
        backwards@ == list@.reverse(),
{
    let ghost whole = list@;
    let mut rest: Vec<A> = list;
    let mut backwards: Vec<A> = Vec::new();
    while rest.len() > 0
        invariant
            rest@.len() <= whole.len(),
            rest@ == whole.take(rest@.len() as int),
            backwards@ == whole.skip(rest@.len() as int).reverse(),
        decreases rest@.len(),
    {
        if let Some(item) = rest.pop() {
            backwards.push(item);
            assert(rest@ =~= whole.take(rest@.len() as int));
            assert(backwards@ =~= whole.skip(rest@.len() as int).reverse());
        }
    }
    assert(whole.skip(0) =~= whole);
    backwards
}

/// The decimal text of a number is read back as that number.
pub proof fn law_decimal_reads_back(number: u64)
    ensures
        unsigned_value(encode_utf8(decimal_text(number as nat))) == Some(number as nat),
{
    let chars = decimal_text(number as nat);
    let bytes = Seq::new(chars.len(), |i: int| chars[i] as u8);
    lemma_decimal_digits(number as nat);
    assert forall|i: int| 0 <= i < bytes.len() implies #[trigger] is_digit(bytes[i]) && bytes[i] as char
        == chars[i] by {
        assert('0' <= chars[i] <= '9');
    }
    assert forall|i: int| 0 <= i < bytes.len() implies #[trigger] bytes[i] < 128 by {
        assert(is_digit(bytes[i]));
    }
    lemma_ascii_text(bytes);
    assert(ascii_text(bytes) =~= chars);
    assert(is_digit(bytes[0]));
    assert(unsigned_digits(bytes) == bytes);
}

/// Every character of a decimal text is a digit, and together they denote the number.
proof fn lemma_decimal_digits(number: nat)
    ensures
        decimal_text(number).len() > 0,
        forall|i: int|
            0 <= i < decimal_text(number).len() ==> '0' <= #[trigger] decimal_text(number)[i] <= '9',
        digits_value(
            Seq::new(decimal_text(number).len(), |i: int| decimal_text(number)[i] as u8),
        ) == number,
    decreases number,
{
    let chars = decimal_text(number);
    let bytes = Seq::new(chars.len(), |i: int| chars[i] as u8);
    if number < 10 {
        assert(bytes.drop_last() =~= Seq::<u8>::empty());
        assert(digits_value(bytes.drop_last()) == 0);
    } else {
        lemma_decimal_digits(number / 10);
        let rest = decimal_text(number / 10);
        assert(bytes.drop_last() =~= Seq::new(rest.len(), |i: int| rest[i] as u8));
    }
}

/// Bytes as they are shown: the text that they encode, or their nearest text where they are no UTF-8.
pub open spec fn shown(bytes: Seq<u8>) -> Seq<char> {
    if valid_utf8(bytes) {
        decode_utf8(bytes)
    } else {
        lossy_text(bytes)
    }
}

/// Shows bytes as text.
pub fn show(bytes: &[u8]) -> (text: String)
    ensures
        text@ == shown(bytes@),
{
    utf8_lossy(bytes)
}

} // verus!
