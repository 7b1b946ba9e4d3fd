//! The lines of a journal.

use runtime_host::lines::split_journal;

fn lines(text: &str) -> Vec<String> {
    split_journal(&text.as_bytes().to_vec())
        .into_iter()
        .map(|line| String::from_utf8(line).expect("text"))
        .collect()
}

#[test]
fn a_journal_has_the_lines_that_are_not_blank() {
    for text in [
        "",
        "a",
        "a\n",
        "a\r\nb\r",
        "\n\n a \n\t\r\n\u{a0}\u{3000}\n\u{85}\u{2009}\u{2028}x\n\u{1680}\u{205f}\u{202f}",
        "\u{e9}\n\u{200b}\n\r\n",
    ] {
        let expected: Vec<String> = text
            .lines()
            .filter(|line| !line.trim().is_empty())
            .map(str::to_owned)
            .collect();
        assert_eq!(lines(text), expected, "{text:?}");
    }
    assert_eq!(lines("a\r\n\u{a0}\nb"), vec!["a".to_owned(), "b".to_owned()]);
}
