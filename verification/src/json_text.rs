//! Texts as JSON.

use vstd::prelude::*;

use crate::text::{texts, utf8};

verus! {

/// The error of the JSON encoder.
#[verifier::external_type_specification]
#[verifier::external_body]
pub struct ExJsonError(serde_json::Error);

/// A byte of a text in a JSON string. Control characters, the quote and the
/// backslash are written with a backslash: by their letter where they have
/// one, by their number otherwise. Any other byte is written as it is.
pub open spec fn byte_json(byte: u8) -> Seq<u8> {
    if byte == 8 {
        seq![92u8, 98u8]
    } else if byte == 9 {
        seq![92u8, 116u8]
    } else if byte == 10 {
        seq![92u8, 110u8]
    } else if byte == 12 {
        seq![92u8, 102u8]
    } else if byte == 13 {
        seq![92u8, 114u8]
    } else if byte == 34 || byte == 92 {
        seq![92u8, byte]
    } else if byte < 32 {
        seq![92u8, 117u8, 48u8, 48u8, digit_json(byte / 16), digit_json(byte % 16)]
    } else {
        seq![byte]
    }
}

/// A hexadecimal digit, in lower case.
pub open spec fn digit_json(value: u8) -> u8 {
    if value < 10 {
        (48 + value) as u8
    } else {
        (87 + value) as u8
    }
}

/// The bytes of a text in a JSON string.
pub open spec fn bytes_json(bytes: Seq<u8>) -> Seq<u8>
    decreases bytes.len(),
{
    if bytes.len() == 0 {
        Seq::empty()
    } else {
        bytes_json(bytes.drop_last()) + byte_json(bytes.last())
    }
}

/// A text as a JSON string.
pub open spec fn text_json(text: Seq<char>) -> Seq<u8> {
    seq![34u8] + bytes_json(utf8(text)) + seq![34u8]
}

/// Adds bytes at the end.
pub fn append_bytes(bytes: &mut Vec<u8>, added: &Vec<u8>)
    ensures
        final(bytes)@ == old(bytes)@ + added@,
{
    let ghost start = bytes@;
    let mut index: usize = 0;
    assert(bytes@ =~= start + added@.take(0));
    while index < added.len()
        invariant
            index <= added.len(),
            bytes@ == start + added@.take(index as int),
        decreases added.len() - index,
    {
        bytes.push(added[index]);
        assert(added@.take(index + 1) =~= added@.take(index as int).push(added@[index as int]));
        index += 1;
    }
    assert(added@.take(added@.len() as int) =~= added@);
}

/// Some texts as the items of a JSON list, without its brackets.
pub open spec fn items_json(items: Seq<Seq<char>>) -> Seq<u8>
    decreases items.len(),
{
    if items.len() == 0 {
        Seq::empty()
    } else if items.len() == 1 {
        text_json(items[0])
    } else {
        items_json(items.drop_last()).push(44) + text_json(items.last())
    }
}

/// Some texts as a JSON list.
pub open spec fn list_json(items: Seq<Seq<char>>) -> Seq<u8> {
    seq![91u8] + items_json(items) + seq![93u8]
}

/// Three texts and a list of texts as a JSON list.
pub open spec fn nested_json(
    first: Seq<char>,
    second: Seq<char>,
    third: Seq<char>,
    list: Seq<Seq<char>>,
) -> Seq<u8> {
    seq![91u8] + items_json(seq![first, second, third]) + seq![44u8] + list_json(list) + seq![93u8]
}

/// `serde_json::to_vec` on a pair of texts: it does not fail, and gives the
/// JSON list of both.
#[verifier::external_body]
pub(crate) fn encode_pair(first: &str, second: &str) -> (result: Result<
    Vec<u8>,
    serde_json::Error,
>)
    ensures
        result is Ok,
        result->Ok_0@ == list_json(seq![first@, second@]),
{
    serde_json::to_vec(&(first, second))
}

/// `serde_json::to_vec` on three texts and a list of texts: it does not fail,
/// and gives the JSON list of them, in which the list is a list of its own.
#[verifier::external_body]
pub(crate) fn encode_nested(first: &str, second: &str, third: &str, list: &Vec<String>) -> (result:
    Result<Vec<u8>, serde_json::Error>)
    ensures
        result is Ok,
        result->Ok_0@ == nested_json(first@, second@, third@, texts(list@)),
{
    serde_json::to_vec(&(first, second, third, list))
}

/// Every byte is written in its own way, and nothing that is written is a
/// control character; a quotation mark and a backslash stand behind a backslash
/// only.
pub proof fn law_bytes_are_written_apart(left: u8, right: u8, index: int)
    ensures
        byte_json(left) == byte_json(right) ==> left == right,
        0 <= index < byte_json(left).len() ==> byte_json(left)[index] >= 32,
        byte_json(left).len() == 1 <==> left >= 32 && left != 34 && left != 92,
        byte_json(left).len() == 1 ==> byte_json(left)[0] == left,
        byte_json(left).len() > 1 ==> byte_json(left)[0] == 92,
        left == 34 || left == 92 ==> byte_json(left).len() == 2 && byte_json(left)[1] == left,
        left < 32 && byte_json(left).len() == 6 ==> byte_json(left)[1] == 117 && byte_json(left)[2]
            == 48 && byte_json(left)[3] == 48,
{
    if byte_json(left) == byte_json(right) {
        assert(byte_json(left)[0] == byte_json(right)[0]);
        if byte_json(left).len() == 2 {
            assert(byte_json(left)[1] == byte_json(right)[1]);
        }
        if byte_json(left).len() == 6 {
            assert(byte_json(left)[4] == byte_json(right)[4]);
            assert(byte_json(left)[5] == byte_json(right)[5]);
        }
    }
}

/// A text is written between quotation marks, byte by byte, and the items of a
/// list one after the other with a comma between each two.
pub proof fn law_texts_are_written_in_a_row(
    bytes: Seq<u8>,
    byte: u8,
    items: Seq<Seq<char>>,
    item: Seq<char>,
)
    ensures
        bytes_json(Seq::empty()) == Seq::<u8>::empty(),
        bytes_json(bytes.push(byte)) == bytes_json(bytes) + byte_json(byte),
        text_json(item).len() == bytes_json(utf8(item)).len() + 2,
        text_json(item)[0] == 34,
        text_json(item).last() == 34,
        items_json(seq![item]) == text_json(item),
        items.len() > 0 ==> items_json(items.push(item)) == items_json(items) + (seq![44u8]
            + text_json(item)),
        list_json(Seq::empty()) == seq![91u8, 93u8],
{
    assert(bytes.push(byte).drop_last() =~= bytes);
    if items.len() > 0 {
        assert(items.push(item).drop_last() =~= items);
        assert(items_json(items).push(44) + text_json(item) =~= items_json(items) + (seq![44u8]
            + text_json(item)));
    }
    assert(list_json(Seq::empty()) =~= seq![91u8, 93u8]);
}

} // verus!
