//! Text as bytes: comparison, order and prefixes, as `str` defines them.

use vstd::prelude::*;
use vstd::utf8::{encode_scalar, encode_utf8, encode_utf8_decode_utf8};

verus! {

/// The UTF-8 bytes of a text.
pub open spec fn utf8(text: Seq<char>) -> Seq<u8> {
    encode_utf8(text)
}

/// `bytes` begins with `prefix`.
pub open spec fn has_prefix(bytes: Seq<u8>, prefix: Seq<u8>) -> bool {
    prefix.len() <= bytes.len() && bytes.take(prefix.len() as int) == prefix
}

/// Byte-wise lexicographic order, a proper prefix first.
pub open spec fn lex_less(left: Seq<u8>, right: Seq<u8>) -> bool
    decreases left.len(),
{
    if right.len() == 0 {
        false
    } else if left.len() == 0 {
        true
    } else if left[0] != right[0] {
        left[0] < right[0]
    } else {
        lex_less(left.skip(1), right.skip(1))
    }
}

/// The order in which `str` sorts two texts.
pub open spec fn text_less(left: Seq<char>, right: Seq<char>) -> bool {
    lex_less(utf8(left), utf8(right))
}

/// Two texts with the same bytes are the same text.
pub proof fn lemma_utf8_injective(left: Seq<char>, right: Seq<char>)
    requires
        utf8(left) == utf8(right),
    ensures
        left == right,
{
    encode_utf8_decode_utf8(left);
    encode_utf8_decode_utf8(right);
}

/// The bytes of two texts in a row are their bytes in a row.
pub proof fn lemma_utf8_concat(left: Seq<char>, right: Seq<char>)
    ensures
        utf8(left + right) == utf8(left) + utf8(right),
    decreases left.len(),
{
    reveal_with_fuel(encode_utf8, 2);
    if left.len() == 0 {
        assert(left + right =~= right);
        assert(utf8(left) + utf8(right) =~= utf8(right));
    } else {
        lemma_utf8_concat(left.drop_first(), right);
        assert((left + right).drop_first() =~= left.drop_first() + right);
        assert((left + right)[0] == left[0]);
        let first = encode_scalar(left[0] as u32);
        assert(first + (utf8(left.drop_first()) + utf8(right)) =~= (first + utf8(
            left.drop_first(),
        )) + utf8(right));
    }
}

pub proof fn lemma_lex_irreflexive(bytes: Seq<u8>)
    ensures
        !lex_less(bytes, bytes),
    decreases bytes.len(),
{
    if bytes.len() > 0 {
        lemma_lex_irreflexive(bytes.skip(1));
    }
}

pub proof fn lemma_lex_transitive(a: Seq<u8>, b: Seq<u8>, c: Seq<u8>)
    requires
        lex_less(a, b),
        lex_less(b, c),
    ensures
        lex_less(a, c),
    decreases a.len(),
{
    if a.len() > 0 && b.len() > 0 && c.len() > 0 && a[0] == b[0] && b[0] == c[0] {
        lemma_lex_transitive(a.skip(1), b.skip(1), c.skip(1));
    }
}

pub proof fn lemma_lex_total(a: Seq<u8>, b: Seq<u8>)
    requires
        a != b,
    ensures
        lex_less(a, b) || lex_less(b, a),
    decreases a.len(),
{
    if a.len() == 0 || b.len() == 0 {
        if a.len() == 0 && b.len() == 0 {
            assert(a =~= b);
        }
    } else if a[0] == b[0] {
        if a.skip(1) == b.skip(1) {
            assert(a =~= seq![a[0]] + a.skip(1));
            assert(b =~= seq![b[0]] + b.skip(1));
        }
        lemma_lex_total(a.skip(1), b.skip(1));
    }
}

/// The order of texts is strict and total.
pub proof fn lemma_text_order(a: Seq<char>, b: Seq<char>, c: Seq<char>)
    ensures
        !text_less(a, a),
        text_less(a, b) && text_less(b, c) ==> text_less(a, c),
        a != b ==> text_less(a, b) || text_less(b, a),
        !(text_less(a, b) && text_less(b, a)),
{
    lemma_lex_irreflexive(utf8(a));
    if text_less(a, b) && text_less(b, c) {
        lemma_lex_transitive(utf8(a), utf8(b), utf8(c));
    }
    if text_less(a, b) && text_less(b, a) {
        lemma_lex_transitive(utf8(a), utf8(b), utf8(a));
    }
    if a != b {
        if utf8(a) == utf8(b) {
            lemma_utf8_injective(a, b);
        }
        lemma_lex_total(utf8(a), utf8(b));
    }
}

/// Whether two byte slices are equal.
pub fn same_bytes(left: &[u8], right: &[u8]) -> (same: bool)
    ensures
        same == (left@ == right@),
{
    if left.len() != right.len() {
        return false;
    }
    let mut index: usize = 0;
    while index < left.len()
        invariant
            index <= left.len(),
            left.len() == right.len(),
            forall|i: int| 0 <= i < index ==> left@[i] == right@[i],
        decreases left.len() - index,
    {
        if left[index] != right[index] {
            return false;
        }
        index += 1;
    }
    assert(left@ =~= right@);
    true
}

/// Whether two texts are equal.
pub fn same_text(left: &str, right: &str) -> (same: bool)
    ensures
        same == (left@ == right@),
{
    let same = same_bytes(left.as_bytes(), right.as_bytes());
    proof {
        if same {
            lemma_utf8_injective(left@, right@);
        }
    }
    same
}

/// Whether two optional texts are equal.
pub fn same_optional_text(left: &Option<String>, right: &Option<String>) -> (same: bool)
    ensures
        same == (optional_text(*left) == optional_text(*right)),
{
    match (left, right) {
        (None, None) => true,
        (Some(a), Some(b)) => same_text(a.as_str(), b.as_str()),
        _ => false,
    }
}

/// The characters of an optional text.
pub open spec fn optional_text(text: Option<String>) -> Option<Seq<char>> {
    match text {
        Some(text) => Some(text@),
        None => None,
    }
}

/// A copy of an optional text.
pub fn copy_optional_text(text: &Option<String>) -> (copy: Option<String>)
    ensures
        optional_text(copy) == optional_text(*text),
{
    match text {
        Some(text) => Some(text.clone()),
        None => None,
    }
}

/// Whether a text begins with a prefix.
pub fn starts_with(text: &str, prefix: &str) -> (found: bool)
    ensures
        found == has_prefix(utf8(text@), utf8(prefix@)),
{
    let bytes = text.as_bytes();
    let wanted = prefix.as_bytes();
    if wanted.len() > bytes.len() {
        return false;
    }
    let mut index: usize = 0;
    while index < wanted.len()
        invariant
            index <= wanted.len() <= bytes.len(),
            bytes@ == utf8(text@),
            wanted@ == utf8(prefix@),
            forall|i: int| 0 <= i < index ==> bytes@[i] == wanted@[i],
        decreases wanted.len() - index,
    {
        if bytes[index] != wanted[index] {
            assert(bytes@.take(wanted@.len() as int)[index as int] == bytes@[index as int]);
            return false;
        }
        index += 1;
    }
    assert(bytes@.take(wanted@.len() as int) =~= wanted@);
    true
}

/// Whether one text sorts before another.
pub fn sorts_before(left: &str, right: &str) -> (before: bool)
    ensures
        before == text_less(left@, right@),
{
    let a = left.as_bytes();
    let b = right.as_bytes();
    let mut index: usize = 0;
    assert(a@.skip(0) =~= a@);
    assert(b@.skip(0) =~= b@);
    while index < a.len() && index < b.len()
        invariant
            index <= a.len(),
            index <= b.len(),
            a@ == utf8(left@),
            b@ == utf8(right@),
            lex_less(a@, b@) == lex_less(a@.skip(index as int), b@.skip(index as int)),
        decreases a.len() - index,
    {
        assert(a@.skip(index as int)[0] == a@[index as int]);
        assert(b@.skip(index as int)[0] == b@[index as int]);
        if a[index] != b[index] {
            return a[index] < b[index];
        }
        assert(a@.skip(index as int).skip(1) =~= a@.skip(index + 1));
        assert(b@.skip(index as int).skip(1) =~= b@.skip(index + 1));
        index += 1;
    }
    index < b.len()
}

/// The character of a decimal digit.
pub open spec fn digit(value: int) -> char {
    "0123456789"@[value]
}

/// A number in decimal, without leading zeros.
pub open spec fn decimal(value: nat) -> Seq<char>
    decreases value,
{
    if value < 10 {
        seq![digit(value as int)]
    } else {
        decimal(value / 10).push(digit((value % 10) as int))
    }
}

fn digit_text(value: u64) -> (text: &'static str)
    requires
        value < 10,
    ensures
        text@ == seq![digit(value as int)],
{
    proof {
        reveal_strlit("0123456789");
    }
    let text = match value {
        0 => {
            proof {
                reveal_strlit("0");
            }
            "0"
        },
        1 => {
            proof {
                reveal_strlit("1");
            }
            "1"
        },
        2 => {
            proof {
                reveal_strlit("2");
            }
            "2"
        },
        3 => {
            proof {
                reveal_strlit("3");
            }
            "3"
        },
        4 => {
            proof {
                reveal_strlit("4");
            }
            "4"
        },
        5 => {
            proof {
                reveal_strlit("5");
            }
            "5"
        },
        6 => {
            proof {
                reveal_strlit("6");
            }
            "6"
        },
        7 => {
            proof {
                reveal_strlit("7");
            }
            "7"
        },
        8 => {
            proof {
                reveal_strlit("8");
            }
            "8"
        },
        _ => {
            proof {
                reveal_strlit("9");
            }
            "9"
        },
    };
    assert(text@ =~= seq![digit(value as int)]);
    text
}

/// Appends a number in decimal.
pub fn append_decimal(text: &mut String, value: u64)
    ensures
        final(text)@ == old(text)@ + decimal(value as nat),
    decreases value,
{
    if value >= 10 {
        append_decimal(text, value / 10);
    }
    text.append(digit_text(value % 10));
    assert(text@ =~= old(text)@ + decimal(value as nat));
}

/// The characters of each of several texts.
pub open spec fn texts(list: Seq<String>) -> Seq<Seq<char>> {
    list.map_values(|text: String| text@)
}

/// A copy of several texts.
pub fn copy_texts(list: &Vec<String>) -> (copy: Vec<String>)
    ensures
        copy@ == list@,
{
    let mut copy: Vec<String> = Vec::with_capacity(list.len());
    let mut index: usize = 0;
    while index < list.len()
        invariant
            index <= list.len(),
            copy@ == list@.take(index as int),
        decreases list.len() - index,
    {
        copy.push(list[index].clone());
        assert(list@.take(index + 1) =~= list@.take(index as int).push(list@[index as int]));
        index += 1;
    }
    assert(list@.take(list@.len() as int) =~= list@);
    copy
}

/// Whether two lists hold the same texts in the same order.
pub fn same_texts(left: &Vec<String>, right: &Vec<String>) -> (same: bool)
    ensures
        same == (texts(left@) == texts(right@)),
{
    if left.len() != right.len() {
        assert(texts(left@).len() != texts(right@).len());
        return false;
    }
    let mut index: usize = 0;
    while index < left.len()
        invariant
            index <= left.len(),
            left.len() == right.len(),
            forall|i: int| 0 <= i < index ==> (#[trigger] left@[i])@ == right@[i]@,
        decreases left.len() - index,
    {
        if !same_text(left[index].as_str(), right[index].as_str()) {
            assert(texts(left@)[index as int] != texts(right@)[index as int]);
            return false;
        }
        index += 1;
    }
    assert(texts(left@) =~= texts(right@));
    true
}

/// A control character: the Unicode category `Cc`.
pub open spec fn is_control(character: char) -> bool {
    (character as u32) < 32 || 127 <= (character as u32) <= 159
}

/// A text with a control character in it.
pub open spec fn holds_control(text: Seq<char>) -> bool {
    exists|i: int| 0 <= i < text.len() && is_control(#[trigger] text[i])
}

/// Whether a text has a control character in it.
pub fn has_control(text: &str) -> (found: bool)
    ensures
        found == holds_control(text@),
{
    for character in iter: text.chars()
        invariant
            iter.seq() == text@,
            forall|i: int| 0 <= i < iter.index() ==> !is_control(#[trigger] text@[i]),
    {
        let code: u32 = character as u32;
        if code < 32 || (127 <= code && code <= 159) {
            assert(is_control(text@[iter.index()]));
            return true;
        }
    }
    false
}

/// A byte of a token: an ASCII letter or digit, a dot, an underscore or a
/// hyphen.
pub open spec fn is_token_byte(byte: u8) -> bool {
    48 <= byte <= 57 || 65 <= byte <= 90 || 97 <= byte <= 122 || byte == 46 || byte == 95 || byte
        == 45
}

pub open spec fn all_token_bytes(bytes: Seq<u8>) -> bool {
    forall|i: int| 0 <= i < bytes.len() ==> is_token_byte(#[trigger] bytes[i])
}

/// Whether a text has only bytes of tokens.
pub fn is_token(text: &str) -> (token: bool)
    ensures
        token == all_token_bytes(utf8(text@)),
{
    let bytes = text.as_bytes();
    let mut index: usize = 0;
    while index < bytes.len()
        invariant
            index <= bytes.len(),
            bytes@ == utf8(text@),
            forall|i: int| 0 <= i < index ==> is_token_byte(#[trigger] bytes@[i]),
        decreases bytes.len() - index,
    {
        let byte: u8 = bytes[index];
        if !((48 <= byte && byte <= 57) || (65 <= byte && byte <= 90) || (97 <= byte && byte
            <= 122) || byte == 46 || byte == 95 || byte == 45) {
            assert(!is_token_byte(utf8(text@)[index as int]));
            return false;
        }
        index += 1;
    }
    true
}

/// A whole number in decimal, with a sign where it is negative.
pub open spec fn signed_decimal(value: int) -> Seq<char> {
    if value < 0 {
        "-"@ + decimal((-value) as nat)
    } else {
        decimal(value as nat)
    }
}

/// Appends a whole number in decimal.
pub fn append_signed_decimal(text: &mut String, value: i64)
    requires
        value > i64::MIN,
    ensures
        final(text)@ == old(text)@ + signed_decimal(value as int),
{
    let ghost start = text@;
    if value < 0 {
        text.append("-");
        append_decimal(text, (-value) as u64);
        assert(text@ =~= start + signed_decimal(value as int));
    } else {
        append_decimal(text, value as u64);
    }
}

/// A number is written by its digits: a further digit stands behind those of
/// the rest, and a digit is a character as far behind `0` as its value.
pub proof fn law_decimals_are_written_by_digits(rest: nat, last: nat)
    requires
        last < 10,
    ensures
        digit(last as int) as u32 == '0' as u32 + last,
        decimal(last) == seq![digit(last as int)],
        rest > 0 ==> decimal(10 * rest + last) == decimal(rest).push(digit(last as int)),
        last > 0 ==> signed_decimal(-last) == "-"@ + decimal(last),
        signed_decimal(last as int) == decimal(last),
{
    reveal_strlit("0123456789");
    if rest > 0 {
        assert((10 * rest + last) / 10 == rest);
        assert((10 * rest + last) % 10 == last);
    }
}

/// The first byte in which two texts differ decides which comes first, and a
/// text comes after each of its beginnings.
pub proof fn law_first_difference_decides(
    common: Seq<u8>,
    left: u8,
    after_left: Seq<u8>,
    right: u8,
    after_right: Seq<u8>,
)
    ensures
        left < right ==> lex_less(
            common + seq![left] + after_left,
            common + seq![right] + after_right,
        ),
        left > right ==> !lex_less(
            common + seq![left] + after_left,
            common + seq![right] + after_right,
        ),
        lex_less(common, common + seq![right] + after_right),
        !lex_less(common + seq![left] + after_left, common),
    decreases common.len(),
{
    let l = common + seq![left] + after_left;
    let r = common + seq![right] + after_right;
    if common.len() == 0 {
        assert(l[0] == left);
        assert(r[0] == right);
    } else {
        let shorter = common.skip(1);
        law_first_difference_decides(shorter, left, after_left, right, after_right);
        assert(l.skip(1) =~= shorter + seq![left] + after_left);
        assert(r.skip(1) =~= shorter + seq![right] + after_right);
        assert(l[0] == common[0]);
        assert(r[0] == common[0]);
    }
}

/// A text holds a control character exactly when one of its characters lies
/// before the space, or from the delete character up to the end of the second
/// control block.
pub proof fn law_control_characters_are_found(text: Seq<char>)
    ensures
        holds_control(text) <==> exists|i: int|
            0 <= i < text.len() && ((#[trigger] text[i]) as u32 <= 0x1f || 0x7f <= text[i] as u32
                && text[i] as u32 <= 0x9f),
{
    if holds_control(text) {
        let at = choose|i: int| 0 <= i < text.len() && is_control(#[trigger] text[i]);
        assert(text[at] as u32 <= 0x1f || 0x7f <= text[at] as u32);
    }
    if exists|i: int|
        0 <= i < text.len() && ((#[trigger] text[i]) as u32 <= 0x1f || 0x7f <= text[i] as u32
            && text[i] as u32 <= 0x9f) {
        let at = choose|i: int|
            0 <= i < text.len() && ((#[trigger] text[i]) as u32 <= 0x1f || 0x7f <= text[i] as u32
                && text[i] as u32 <= 0x9f);
        assert(is_control(text[at]));
    }
}

proof fn lemma_digits_differ(left: int, right: int)
    requires
        0 <= left < 10,
        0 <= right < 10,
        digit(left) == digit(right),
    ensures
        left == right,
{
    law_decimals_are_written_by_digits(0, left as nat);
    law_decimals_are_written_by_digits(0, right as nat);
}

/// A number is written with digits only.
pub proof fn law_decimals_hold_digits(value: nat, index: int)
    requires
        0 <= index < decimal(value).len(),
    ensures
        '0' <= decimal(value)[index] <= '9',
    decreases value,
{
    law_decimals_are_written_by_digits(0, value % 10);
    if value >= 10 && index < decimal(value).len() - 1 {
        law_decimals_hold_digits(value / 10, index);
    }
}

/// Two numbers are written alike only when they are one number.
pub proof fn law_decimals_are_told_apart(left: nat, right: nat)
    requires
        decimal(left) == decimal(right),
    ensures
        left == right,
    decreases left,
{
    lemma_decimal_has_digits(left);
    lemma_decimal_has_digits(right);
    if left < 10 && right < 10 {
        assert(decimal(left) == seq![digit(left as int)]);
        assert(decimal(right) == seq![digit(right as int)]);
        assert(seq![digit(left as int)][0] == seq![digit(right as int)][0]);
        lemma_digits_differ(left as int, right as int);
    } else if left >= 10 && right >= 10 {
        assert(decimal(left) == decimal(left / 10).push(digit((left % 10) as int)));
        assert(decimal(right) == decimal(right / 10).push(digit((right % 10) as int)));
        assert(decimal(left).last() == decimal(right).last());
        assert(decimal(left).last() == digit((left % 10) as int));
        assert(decimal(right).last() == digit((right % 10) as int));
        lemma_digits_differ((left % 10) as int, (right % 10) as int);
        assert(decimal(left).drop_last() =~= decimal(left / 10));
        assert(decimal(right).drop_last() =~= decimal(right / 10));
        law_decimals_are_told_apart(left / 10, right / 10);
    }
}

proof fn lemma_decimal_has_digits(value: nat)
    ensures
        decimal(value).len() >= 1,
        value >= 10 ==> decimal(value).len() >= 2,
    decreases value,
{
    if value >= 10 {
        lemma_decimal_has_digits(value / 10);
    }
}

/// So are signed numbers, and their sign stands before the digits only.
pub proof fn law_signed_decimals_are_told_apart(left: int, right: int, index: int)
    ensures
        signed_decimal(left) == signed_decimal(right) ==> left == right,
        0 <= index < signed_decimal(left).len() ==> signed_decimal(left)[index] == '-' || '0'
            <= signed_decimal(left)[index] <= '9',
{
    reveal_strlit("-");
    lemma_decimal_has_digits(left as nat);
    lemma_decimal_has_digits(right as nat);
    let sign = "-"@;
    if left < 0 {
        assert(signed_decimal(left).skip(1) =~= decimal((-left) as nat));
        assert(signed_decimal(left)[0] == '-');
        if 0 < index < signed_decimal(left).len() {
            law_decimals_hold_digits((-left) as nat, index - 1);
        }
    } else {
        law_decimals_hold_digits(left as nat, 0);
        if 0 <= index < signed_decimal(left).len() {
            law_decimals_hold_digits(left as nat, index);
        }
    }
    if right < 0 {
        assert(signed_decimal(right).skip(1) =~= decimal((-right) as nat));
        assert(signed_decimal(right)[0] == '-');
    } else {
        law_decimals_hold_digits(right as nat, 0);
    }
    if signed_decimal(left) == signed_decimal(right) {
        if left < 0 && right < 0 {
            law_decimals_are_told_apart((-left) as nat, (-right) as nat);
        } else if left >= 0 && right >= 0 {
            law_decimals_are_told_apart(left as nat, right as nat);
        }
    }
}

} // verus!
