//! The lines of a journal.

use vstd::prelude::*;

verus! {

/// How many bytes of whitespace a text in UTF-8 begins with, at most one
/// character of it.
pub open spec fn space_width(bytes: Seq<u8>) -> int {
    if bytes.len() >= 1 && (9 <= bytes[0] <= 13 || bytes[0] == 32) {
        1
    } else if bytes.len() >= 2 && bytes[0] == 0xc2 && (bytes[1] == 0x85 || bytes[1] == 0xa0) {
        2
    } else if bytes.len() >= 3 && is_wide_space(bytes[0], bytes[1], bytes[2]) {
        3
    } else {
        0
    }
}

/// Three bytes that are one character of whitespace.
pub open spec fn is_wide_space(first: u8, second: u8, third: u8) -> bool {
    ||| first == 0xe1 && second == 0x9a && third == 0x80
    ||| first == 0xe2 && second == 0x80 && (0x80 <= third <= 0x8a || third == 0xa8 || third == 0xa9
        || third == 0xaf)
    ||| first == 0xe2 && second == 0x81 && third == 0x9f
    ||| first == 0xe3 && second == 0x80 && third == 0x80
}

/// A line holds nothing but whitespace.
pub open spec fn is_blank(bytes: Seq<u8>) -> bool
    decreases bytes.len(),
{
    bytes.len() == 0 || (space_width(bytes) > 0 && is_blank(bytes.skip(space_width(bytes))))
}

/// Where the first line ends: at its line feed, or at the end.
pub open spec fn line_end(bytes: Seq<u8>) -> int
    decreases bytes.len(),
{
    if bytes.len() == 0 || bytes[0] == 10 {
        0
    } else {
        1 + line_end(bytes.skip(1))
    }
}

/// The first line, without its line feed and a carriage return before that.
pub open spec fn first_line(bytes: Seq<u8>) -> Seq<u8> {
    let line = bytes.take(line_end(bytes));
    if line_end(bytes) < bytes.len() && line.len() > 0 && line.last() == 13 {
        line.drop_last()
    } else {
        line
    }
}

/// The lines that are not blank.
pub open spec fn journal_lines(bytes: Seq<u8>) -> Seq<Seq<u8>>
    decreases bytes.len(),
    via lines_get_shorter
{
    if bytes.len() == 0 {
        Seq::empty()
    } else {
        let rest = if line_end(bytes) < bytes.len() {
            journal_lines(bytes.skip(line_end(bytes) + 1))
        } else {
            Seq::empty()
        };
        if is_blank(first_line(bytes)) {
            rest
        } else {
            seq![first_line(bytes)] + rest
        }
    }
}

#[via_fn]
proof fn lines_get_shorter(bytes: Seq<u8>) {
    lemma_line_end(bytes);
}

proof fn lemma_line_end(bytes: Seq<u8>)
    ensures
        0 <= line_end(bytes) <= bytes.len(),
    decreases bytes.len(),
{
    if bytes.len() > 0 && bytes[0] != 10 {
        lemma_line_end(bytes.skip(1));
    }
}

proof fn lemma_line_end_at(bytes: Seq<u8>, end: int)
    requires
        0 <= end <= bytes.len(),
        forall|i: int| 0 <= i < end ==> bytes[i] != 10,
        end == bytes.len() || bytes[end] == 10,
    ensures
        line_end(bytes) == end,
    decreases bytes.len(),
{
    if end > 0 {
        assert(bytes[0] != 10);
        let rest = bytes.skip(1);
        assert forall|i: int| 0 <= i < end - 1 implies rest[i] != 10 by {
            assert(rest[i] == bytes[i + 1]);
        }
        lemma_line_end_at(rest, end - 1);
    }
}

fn blank_between(content: &Vec<u8>, start: usize, end: usize) -> (blank: bool)
    requires
        start <= end <= content.len(),
    ensures
        blank == is_blank(content@.subrange(start as int, end as int)),
{
    let mut at: usize = start;
    while at < end
        invariant
            start <= at <= end <= content.len(),
            is_blank(content@.subrange(start as int, end as int)) == is_blank(
                content@.subrange(at as int, end as int),
            ),
        decreases end - at,
    {
        let ghost rest = content@.subrange(at as int, end as int);
        let left: usize = end - at;
        let first: u8 = content[at];
        let mut width: usize = 0;
        if (9 <= first && first <= 13) || first == 32 {
            width = 1;
        } else if left >= 2 {
            let second: u8 = content[at + 1];
            if first == 0xc2 && (second == 0x85 || second == 0xa0) {
                width = 2;
            } else if left >= 3 {
                let third: u8 = content[at + 2];
                if (first == 0xe1 && second == 0x9a && third == 0x80) || (first == 0xe2 && second
                    == 0x80 && ((0x80 <= third && third <= 0x8a) || third == 0xa8 || third == 0xa9
                    || third == 0xaf)) || (first == 0xe2 && second == 0x81 && third == 0x9f) || (
                first == 0xe3 && second == 0x80 && third == 0x80) {
                    width = 3;
                }
            }
        }
        assert(width == space_width(rest));
        if width == 0 {
            return false;
        }
        assert(rest.skip(width as int) =~= content@.subrange(at + width, end as int));
        at += width;
    }
    assert(content@.subrange(end as int, end as int).len() == 0);
    true
}

fn copy_between(content: &Vec<u8>, start: usize, end: usize) -> (line: Vec<u8>)
    requires
        start <= end <= content.len(),
    ensures
        line@ == content@.subrange(start as int, end as int),
{
    let mut line: Vec<u8> = Vec::new();
    let mut at: usize = start;
    while at < end
        invariant
            start <= at <= end <= content.len(),
            line@ == content@.subrange(start as int, at as int),
        decreases end - at,
    {
        line.push(content[at]);
        assert(content@.subrange(start as int, at + 1) =~= content@.subrange(
            start as int,
            at as int,
        ).push(content@[at as int]));
        at += 1;
    }
    line
}

pub open spec fn line_views(lines: Seq<Vec<u8>>) -> Seq<Seq<u8>> {
    lines.map_values(|line: Vec<u8>| line@)
}

/// The lines of a text in UTF-8 that are not blank.
pub fn split_journal(content: &Vec<u8>) -> (lines: Vec<Vec<u8>>)
    ensures
        line_views(lines@) == journal_lines(content@),
{
    let mut lines: Vec<Vec<u8>> = Vec::new();
    let mut start: usize = 0;
    assert(content@.skip(0) =~= content@);
    assert(line_views(lines@) + journal_lines(content@) =~= journal_lines(content@));
    while start < content.len()
        invariant
            start <= content.len(),
            line_views(lines@) + journal_lines(content@.skip(start as int)) == journal_lines(
                content@,
            ),
        decreases content.len() - start,
    {
        let ghost rest = content@.skip(start as int);
        let mut end: usize = start;
        while end < content.len() && content[end] != 10
            invariant
                start <= end <= content.len(),
                forall|i: int| start <= i < end ==> content@[i] != 10,
            decreases content.len() - end,
        {
            end += 1;
        }
        proof {
            assert forall|i: int| 0 <= i < end - start implies rest[i] != 10 by {
                assert(rest[i] == content@[start + i]);
            }
            lemma_line_end_at(rest, end - start);
            assert(rest.take(end - start) =~= content@.subrange(start as int, end as int));
        }
        let closed = end < content.len();
        let mut stop: usize = end;
        if closed && end > start && content[end - 1] == 13 {
            stop = end - 1;
        }
        assert(first_line(rest) =~= content@.subrange(start as int, stop as int));
        let ghost before = lines@;
        if !blank_between(content, start, stop) {
            let line = copy_between(content, start, stop);
            lines.push(line);
            assert(line_views(lines@) =~= line_views(before).push(first_line(rest)));
        }
        let next: usize = if closed {
            end + 1
        } else {
            end
        };
        proof {
            let left = content@.skip(next as int);
            if closed {
                assert(rest.skip(end - start + 1) =~= left);
            } else {
                assert(left.len() == 0);
                assert(journal_lines(left) =~= Seq::empty());
            }
            assert(line_views(lines@) + journal_lines(left) =~= line_views(before)
                + journal_lines(rest));
        }
        start = next;
    }
    assert(content@.skip(start as int).len() == 0);
    assert(journal_lines(content@.skip(start as int)) =~= Seq::empty());
    assert(line_views(lines@) + Seq::<Seq<u8>>::empty() =~= line_views(lines@));
    lines
}

proof fn lemma_line_ends_at_its_newline(line: Seq<u8>, rest: Seq<u8>)
    requires
        forall|i: int| 0 <= i < line.len() ==> #[trigger] line[i] != 10,
    ensures
        line_end(line + seq![10u8] + rest) == line.len(),
        line_end(line) == line.len(),
    decreases line.len(),
{
    let whole = line + seq![10u8] + rest;
    if line.len() == 0 {
        assert(whole[0] == 10);
    } else {
        let shorter = line.skip(1);
        assert forall|i: int| 0 <= i < shorter.len() implies #[trigger] shorter[i] != 10 by {
            assert(shorter[i] == line[i + 1]);
        }
        lemma_line_ends_at_its_newline(shorter, rest);
        assert(whole[0] == line[0]);
        assert(whole.skip(1) =~= shorter + seq![10u8] + rest);
    }
}

/// A line that a newline ends comes first, unless it is blank, and the lines
/// after the newline follow; a carriage return before the newline is not part
/// of the line.
pub proof fn law_lines_follow_their_newlines(line: Seq<u8>, rest: Seq<u8>)
    requires
        forall|i: int| 0 <= i < line.len() ==> #[trigger] line[i] != 10,
    ensures
        line.len() == 0 || line.last() != 13 ==> journal_lines(line + seq![10u8] + rest) == (
        if is_blank(line) {
            journal_lines(rest)
        } else {
            seq![line] + journal_lines(rest)
        }),
        line.len() > 0 && line.last() == 13 ==> journal_lines(line + seq![10u8] + rest) == (
        if is_blank(line.drop_last()) {
            journal_lines(rest)
        } else {
            seq![line.drop_last()] + journal_lines(rest)
        }),
{
    let whole = line + seq![10u8] + rest;
    lemma_line_ends_at_its_newline(line, rest);
    assert(whole.take(line.len() as int) =~= line);
    assert(whole.skip(line.len() as int + 1) =~= rest);
}

/// What no newline ends is a line as it stands, unless it is blank.
pub proof fn law_last_line_needs_no_newline(line: Seq<u8>)
    requires
        forall|i: int| 0 <= i < line.len() ==> #[trigger] line[i] != 10,
    ensures
        is_blank(line) ==> journal_lines(line).len() == 0,
        !is_blank(line) ==> journal_lines(line) == seq![line],
{
    lemma_line_ends_at_its_newline(line, Seq::empty());
    assert(line.take(line.len() as int) =~= line);
    if !is_blank(line) {
        assert(journal_lines(line) =~= seq![line]);
    }
}

/// Of plain ASCII bytes exactly spaces, tabs, line ends, vertical tabs and form
/// feeds are blank.
pub proof fn law_ascii_blanks(bytes: Seq<u8>)
    requires
        forall|i: int| 0 <= i < bytes.len() ==> #[trigger] bytes[i] < 128,
    ensures
        is_blank(bytes) <==> forall|i: int|
            0 <= i < bytes.len() ==> #[trigger] bytes[i] == 32 || 9 <= bytes[i] && bytes[i] <= 13,
    decreases bytes.len(),
{
    if bytes.len() > 0 {
        let rest = bytes.skip(1);
        assert forall|i: int| 0 <= i < rest.len() implies #[trigger] rest[i] < 128 by {
            assert(rest[i] == bytes[i + 1]);
        }
        law_ascii_blanks(rest);
        assert(bytes[0] < 128);
        if is_blank(bytes) {
            assert forall|i: int| 0 <= i < bytes.len() implies #[trigger] bytes[i] == 32 || 9
                <= bytes[i] && bytes[i] <= 13 by {
                if i > 0 {
                    assert(rest[i - 1] == bytes[i]);
                }
            }
        }
        if forall|i: int|
            0 <= i < bytes.len() ==> #[trigger] bytes[i] == 32 || 9 <= bytes[i] && bytes[i]
                <= 13 {
            assert forall|i: int| 0 <= i < rest.len() implies #[trigger] rest[i] == 32 || 9
                <= rest[i] && rest[i] <= 13 by {
                assert(rest[i] == bytes[i + 1]);
            }
            assert(bytes[0] == 32 || 9 <= bytes[0] && bytes[0] <= 13);
        }
    }
}

} // verus!
