//! SHA-256 digests and their text.

use sha2::{Digest, Sha256};
use vstd::prelude::*;
use vstd::string::StringExecFns;

use crate::text::{has_prefix, starts_with, utf8};

verus! {

/// The SHA-256 digest of some bytes.
pub uninterp spec fn sha256_of(data: Seq<u8>) -> Seq<u8>;

/// Calls `sha2::Sha256::digest`. The result has 32 bytes and depends on the
/// bytes alone; which bytes it has is left to the name `sha256_of`.
#[verifier::external_body]
fn sha256_bytes(data: &[u8]) -> (digest: Vec<u8>)
    ensures
        digest@ == sha256_of(data@),
        digest@.len() == 32,
{
    Sha256::digest(data).to_vec()
}

/// The character of a hexadecimal digit, in lower case.
pub open spec fn hex_digit(value: int) -> char {
    "0123456789abcdef"@[value]
}

/// Bytes in hexadecimal, two digits for each.
pub open spec fn hex_text(bytes: Seq<u8>) -> Seq<char>
    decreases bytes.len(),
{
    if bytes.len() == 0 {
        Seq::empty()
    } else {
        hex_text(bytes.drop_last()).push(hex_digit((bytes.last() / 16) as int)).push(
            hex_digit((bytes.last() % 16) as int),
        )
    }
}

fn hex_digit_text(value: u8) -> (text: &'static str)
    requires
        value < 16,
    ensures
        text@ == seq![hex_digit(value as int)],
{
    proof {
        reveal_strlit("0123456789abcdef");
        reveal_strlit("0");
        reveal_strlit("1");
        reveal_strlit("2");
        reveal_strlit("3");
        reveal_strlit("4");
        reveal_strlit("5");
        reveal_strlit("6");
        reveal_strlit("7");
        reveal_strlit("8");
        reveal_strlit("9");
        reveal_strlit("a");
        reveal_strlit("b");
        reveal_strlit("c");
        reveal_strlit("d");
        reveal_strlit("e");
        reveal_strlit("f");
    }
    let text = match value {
        0 => "0",
        1 => "1",
        2 => "2",
        3 => "3",
        4 => "4",
        5 => "5",
        6 => "6",
        7 => "7",
        8 => "8",
        9 => "9",
        10 => "a",
        11 => "b",
        12 => "c",
        13 => "d",
        14 => "e",
        _ => "f",
    };
    assert(text@ =~= seq![hex_digit(value as int)]);
    text
}

/// Appends bytes in hexadecimal.
pub fn append_hex(text: &mut String, bytes: &Vec<u8>)
    ensures
        final(text)@ == old(text)@ + hex_text(bytes@),
{
    let ghost start = text@;
    let mut index: usize = 0;
    assert(bytes@.take(0) =~= Seq::empty());
    assert(text@ =~= start + hex_text(bytes@.take(0)));
    while index < bytes.len()
        invariant
            index <= bytes.len(),
            text@ == start + hex_text(bytes@.take(index as int)),
        decreases bytes.len() - index,
    {
        let byte: u8 = bytes[index];
        text.append(hex_digit_text(byte / 16));
        text.append(hex_digit_text(byte % 16));
        proof {
            let taken = bytes@.take(index + 1);
            assert(taken.drop_last() =~= bytes@.take(index as int));
            assert(taken.last() == byte);
            assert(text@ =~= start + hex_text(taken));
        }
        index += 1;
    }
    assert(bytes@.take(bytes@.len() as int) =~= bytes@);
}

proof fn lemma_hex_length(bytes: Seq<u8>)
    ensures
        hex_text(bytes).len() == 2 * bytes.len(),
    decreases bytes.len(),
{
    if bytes.len() > 0 {
        lemma_hex_length(bytes.drop_last());
    }
}

/// The digest of some bytes, in 64 hexadecimal digits.
pub fn sha256_hex(data: &[u8]) -> (text: String)
    ensures
        text@ == hex_text(sha256_of(data@)),
        text@.len() == 64,
        sha256_of(data@).len() == 32,
{
    let mut text = String::new();
    append_hex(&mut text, &sha256_bytes(data));
    proof {
        lemma_hex_length(sha256_of(data@));
    }
    assert(text@ =~= hex_text(sha256_of(data@)));
    text
}

/// The digest of some bytes, named by its algorithm.
pub open spec fn sha256_name(data: Seq<u8>) -> Seq<char> {
    "sha256:"@ + hex_text(sha256_of(data))
}

/// The digest of some bytes as `sha256:` and 64 hexadecimal digits.
pub fn sha256(data: &[u8]) -> (text: String)
    ensures
        text@ == sha256_name(data@),
        text@.len() == 71,
        sha256_of(data@).len() == 32,
{
    let mut text = String::from_str("sha256:");
    append_hex(&mut text, &sha256_bytes(data));
    proof {
        reveal_strlit("sha256:");
        lemma_hex_length(sha256_of(data@));
    }
    text
}

/// The number that bytes hold, most significant byte first.
pub open spec fn be_number(bytes: Seq<u8>) -> nat
    decreases bytes.len(),
{
    if bytes.len() == 0 {
        0
    } else {
        be_number(bytes.drop_last()) * 256 + bytes.last() as nat
    }
}

/// The seed that a digest gives: the number in its first eight bytes.
pub fn seed_from_digest(digest: &Vec<u8>) -> (seed: u64)
    requires
        digest@.len() >= 8,
    ensures
        seed == be_number(digest@.take(8)),
{
    let mut seed: u64 = 0;
    let mut index: usize = 0;
    let ghost head = digest@.take(8);
    assert(head.take(0) =~= Seq::empty());
    assert(be_number(head.take(0)) == 0);
    let ghost mut bound: int = 1;
    proof {
        reveal(vstd::arithmetic::power::pow);
        assert(vstd::arithmetic::power::pow(256, 0) == 1);
    }
    while index < 8
        invariant
            index <= 8 <= digest@.len(),
            head == digest@.take(8),
            seed == be_number(head.take(index as int)),
            bound == vstd::arithmetic::power::pow(256, index as nat),
            seed < bound,
        decreases 8 - index,
    {
        proof {
            let taken = head.take(index + 1);
            assert(taken.drop_last() =~= head.take(index as int));
            assert(taken.last() == digest@[index as int]);
            reveal(vstd::arithmetic::power::pow);
            assert(vstd::arithmetic::power::pow(256, (index + 1) as nat) == 256 * bound);
            assert(seed * 256 + digest@[index as int] < 256 * bound) by (nonlinear_arith)
                requires
                    seed < bound,
                    digest@[index as int] <= 255,
            ;
            assert(256 * bound <= 0x1_0000_0000_0000_0000) by {
                assert(vstd::arithmetic::power::pow(256, 0) == 1);
                assert(vstd::arithmetic::power::pow(256, 1) == 256);
                assert(vstd::arithmetic::power::pow(256, 2) == 65_536);
                assert(vstd::arithmetic::power::pow(256, 3) == 16_777_216);
                assert(vstd::arithmetic::power::pow(256, 4) == 4_294_967_296);
                assert(vstd::arithmetic::power::pow(256, 5) == 1_099_511_627_776);
                assert(vstd::arithmetic::power::pow(256, 6) == 281_474_976_710_656);
                assert(vstd::arithmetic::power::pow(256, 7) == 72_057_594_037_927_936);
            }
            bound = 256 * bound;
        }
        seed = seed * 256 + digest[index] as u64;
        index += 1;
    }
    assert(head.take(8) =~= head);
    seed
}

/// The seed that some bytes give: the first eight bytes of their digest.
pub open spec fn seed_of(data: Seq<u8>) -> nat {
    be_number(sha256_of(data).take(8))
}

pub fn sha256_seed(data: &[u8]) -> (seed: u64)
    ensures
        seed == seed_of(data@),
{
    seed_from_digest(&sha256_bytes(data))
}

/// A hexadecimal digit in lower case, as a byte.
pub open spec fn is_hex_byte(byte: u8) -> bool {
    48 <= byte <= 57 || 97 <= byte <= 102
}

/// The text of a digest: `sha256:` and 64 hexadecimal digits in lower case.
pub open spec fn digest_text_valid(text: Seq<char>) -> bool {
    let bytes = utf8(text);
    &&& has_prefix(bytes, utf8("sha256:"@))
    &&& bytes.len() == 71
    &&& forall|i: int| 7 <= i < 71 ==> is_hex_byte(#[trigger] bytes[i])
}

pub fn is_digest_text(text: &str) -> (valid: bool)
    ensures
        valid == digest_text_valid(text@),
{
    let bytes = text.as_bytes();
    if bytes.len() != 71 || !starts_with(text, "sha256:") {
        return false;
    }
    let mut index: usize = 7;
    while index < 71
        invariant
            7 <= index <= 71,
            bytes@.len() == 71,
            bytes@ == utf8(text@),
            forall|i: int| 7 <= i < index ==> is_hex_byte(#[trigger] bytes@[i]),
        decreases 71 - index,
    {
        let byte: u8 = bytes[index];
        if !((48 <= byte && byte <= 57) || (97 <= byte && byte <= 102)) {
            assert(!is_hex_byte(utf8(text@)[index as int]));
            return false;
        }
        index += 1;
    }
    true
}

/// Texts in a row, a zero byte before each but the first.
pub open spec fn zero_joined(first: Seq<char>, rest: Seq<Seq<char>>) -> Seq<u8>
    decreases rest.len(),
{
    if rest.len() == 0 {
        utf8(first)
    } else {
        zero_joined(first, rest.drop_last()).push(0) + utf8(rest.last())
    }
}

/// The characters of each of several text slices.
pub open spec fn slices(list: Seq<&str>) -> Seq<Seq<char>> {
    list.map_values(|text: &str| text@)
}

pub fn join_with_zero(first: &str, rest: &Vec<&str>) -> (bytes: Vec<u8>)
    ensures
        bytes@ == zero_joined(first@, slices(rest@)),
{
    let mut bytes: Vec<u8> = Vec::new();
    append_text(&mut bytes, first);
    assert(bytes@ =~= utf8(first@));
    let mut index: usize = 0;
    let ghost all = slices(rest@);
    assert(all.take(0) =~= Seq::empty());
    while index < rest.len()
        invariant
            index <= rest.len(),
            all == slices(rest@),
            bytes@ == zero_joined(first@, all.take(index as int)),
        decreases rest.len() - index,
    {
        bytes.push(0);
        append_text(&mut bytes, rest[index]);
        proof {
            let taken = all.take(index + 1);
            assert(taken.drop_last() =~= all.take(index as int));
            assert(taken.last() == rest@[index as int]@);
        }
        index += 1;
    }
    assert(all.take(all.len() as int) =~= all);
    bytes
}

fn append_text(bytes: &mut Vec<u8>, text: &str)
    ensures
        final(bytes)@ == old(bytes)@ + utf8(text@),
{
    let ghost start = bytes@;
    let added = text.as_bytes();
    let mut index: usize = 0;
    assert(bytes@ =~= start + added@.take(0));
    while index < added.len()
        invariant
            index <= added.len(),
            added@ == utf8(text@),
            bytes@ == start + added@.take(index as int),
        decreases added.len() - index,
    {
        bytes.push(added[index]);
        assert(added@.take(index + 1) =~= added@.take(index as int).push(added@[index as int]));
        index += 1;
    }
    assert(added@.take(added@.len() as int) =~= added@);
}

/// Bytes are written by two digits each, the greater half first.
pub proof fn law_bytes_are_written_by_two_digits(bytes: Seq<u8>, index: int)
    requires
        0 <= index < bytes.len(),
    ensures
        hex_text(bytes).len() == 2 * bytes.len(),
        hex_text(bytes)[2 * index] == hex_digit(bytes[index] as int / 16),
        hex_text(bytes)[2 * index + 1] == hex_digit(bytes[index] as int % 16),
    decreases bytes.len(),
{
    lemma_hex_len(bytes);
    lemma_hex_len(bytes.drop_last());
    if index < bytes.len() - 1 {
        law_bytes_are_written_by_two_digits(bytes.drop_last(), index);
    }
}

proof fn lemma_hex_len(bytes: Seq<u8>)
    ensures
        hex_text(bytes).len() == 2 * bytes.len(),
    decreases bytes.len(),
{
    if bytes.len() > 0 {
        lemma_hex_len(bytes.drop_last());
    }
}

/// The digits up to nine are numerals and the others the first small letters.
pub proof fn law_hex_digits_are_small(value: int)
    requires
        0 <= value < 16,
    ensures
        value < 10 ==> hex_digit(value) as u32 == '0' as u32 + value,
        value >= 10 ==> hex_digit(value) as u32 == 'a' as u32 + (value - 10),
{
    reveal_strlit("0123456789abcdef");
}

/// A further byte makes a number 256 times as large and adds itself.
pub proof fn law_numbers_grow_by_bytes(bytes: Seq<u8>, byte: u8)
    ensures
        be_number(Seq::empty()) == 0,
        be_number(bytes.push(byte)) == 256 * be_number(bytes) + byte,
{
    assert(bytes.push(byte).drop_last() =~= bytes);
}

/// Texts are joined with a zero byte before each but the first.
pub proof fn law_texts_are_joined_by_zeros(
    first: Seq<char>,
    rest: Seq<Seq<char>>,
    next: Seq<char>,
)
    ensures
        zero_joined(first, Seq::empty()) == utf8(first),
        zero_joined(first, rest.push(next)) == zero_joined(first, rest) + (seq![0u8] + utf8(next)),
{
    assert(rest.push(next).drop_last() =~= rest);
    assert(zero_joined(first, rest).push(0) + utf8(next) =~= zero_joined(first, rest) + (seq![0u8]
        + utf8(next)));
}

/// A digest is named by its kind and 64 small hexadecimal digits, and nothing
/// else is.
pub proof fn law_digest_names(text: Seq<char>, index: int)
    requires
        7 <= index < utf8(text).len(),
    ensures
        digest_text_valid(text) ==> utf8(text).len() == 7 + 64 && utf8(text).take(
            utf8("sha256:"@).len() as int,
        ) == utf8("sha256:"@) && ((0x30 <= utf8(text)[index] && utf8(text)[index] <= 0x39) || (0x61
            <= utf8(text)[index] && utf8(text)[index] <= 0x66)),
        !(0x30 <= utf8(text)[index] && utf8(text)[index] <= 0x39) && !(0x61 <= utf8(text)[index]
            && utf8(text)[index] <= 0x66) ==> !digest_text_valid(text),
{
}

} // verus!
