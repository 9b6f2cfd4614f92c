use watchlog::text::{join_lines, split_lines};

fn owned(lines: &[&str]) -> Vec<String> {
    lines.iter().map(|line| line.to_string()).collect()
}

fn std_lines(text: &str) -> Vec<String> {
    text.lines().map(|line| line.to_string()).collect()
}

#[test]
fn empty_text_has_no_lines() {
    assert_eq!(split_lines(""), Vec::<String>::new());
}

#[test]
fn text_without_line_feed_is_one_line() {
    assert_eq!(split_lines("only"), owned(&["only"]));
}

#[test]
fn line_feed_at_the_end_opens_no_line() {
    assert_eq!(split_lines("x\ny\n"), owned(&["x", "y"]));
    assert_eq!(split_lines("x\ny"), owned(&["x", "y"]));
}

#[test]
fn lone_line_feed_is_one_empty_line() {
    assert_eq!(split_lines("\n"), owned(&[""]));
    assert_eq!(split_lines("\n\n"), owned(&["", ""]));
}

#[test]
fn empty_lines_inside_are_kept() {
    assert_eq!(split_lines("a\n\nb"), owned(&["a", "", "b"]));
    assert_eq!(split_lines("a\n\n"), owned(&["a", ""]));
}

#[test]
fn carriage_return_before_line_feed_is_dropped() {
    assert_eq!(split_lines("a\r\nb\r\n"), owned(&["a", "b"]));
    assert_eq!(split_lines("\r\n"), owned(&[""]));
}

#[test]
fn only_one_carriage_return_is_dropped() {
    assert_eq!(split_lines("a\r\r\nb"), owned(&["a\r", "b"]));
}

#[test]
fn carriage_return_elsewhere_is_kept() {
    assert_eq!(split_lines("a\rb\nc"), owned(&["a\rb", "c"]));
    assert_eq!(split_lines("a\r"), owned(&["a\r"]));
    assert_eq!(split_lines("\r"), owned(&["\r"]));
    assert_eq!(split_lines("a\n\r"), owned(&["a", "\r"]));
    assert_eq!(split_lines("\ra"), owned(&["\ra"]));
}

#[test]
fn split_copies_characters_outside_ascii() {
    assert_eq!(split_lines("gr\u{fc}n\n\u{65e5}\u{672c}\r\n\u{1f600}"), owned(&["gr\u{fc}n", "\u{65e5}\u{672c}", "\u{1f600}"]));
}

#[test]
fn split_agrees_with_the_standard_library() {
    let samples = [
        "", "a", "\n", "\r", "\r\n", "\n\r", "a\n", "a\r\n", "a\r", "a\nb", "a\r\nb", "a\n\nb",
        "a\n\n", "\n\na", "a\r\r\n", "a\r\n\r\n", "\r\r", "\r\n\r", "x\ny\n", "one\ntwo\r\nthree",
        "a\rb\r\nc\r", "  \n\t\n", "\u{e9}\n\u{1f600}\r\n\u{65e5}",
    ];
    for sample in samples {
        assert_eq!(split_lines(sample), std_lines(sample), "lines of {:?}", sample);
    }
}

#[test]
fn split_agrees_with_the_standard_library_on_every_short_text() {
    let letters = ['a', '\n', '\r'];
    let mut texts = vec![String::new()];
    for _ in 0..6 {
        let mut longer = Vec::new();
        for text in &texts {
            for letter in letters {
                let mut next = text.clone();
                next.push(letter);
                longer.push(next);
            }
        }
        for text in &longer {
            assert_eq!(split_lines(text), std_lines(text), "lines of {:?}", text);
        }
        texts = longer;
    }
}

#[test]
fn join_of_nothing_is_empty() {
    assert_eq!(join_lines(&Vec::new()), "");
}

#[test]
fn join_of_one_line_is_the_line() {
    assert_eq!(join_lines(&owned(&["only"])), "only");
    assert_eq!(join_lines(&owned(&[""])), "");
}

#[test]
fn join_puts_line_feeds_between_lines() {
    assert_eq!(join_lines(&owned(&["a", "b", "c"])), "a\nb\nc");
    assert_eq!(join_lines(&owned(&["a", ""])), "a\n");
    assert_eq!(join_lines(&owned(&["", "a"])), "\na");
    assert_eq!(join_lines(&owned(&["", ""])), "\n");
}

#[test]
fn join_agrees_with_the_standard_library() {
    let samples: [&[&str]; 6] = [&[], &[""], &["a"], &["a", "b"], &["", "", ""], &["x\r", "", "y"]];
    for sample in samples {
        assert_eq!(join_lines(&owned(sample)), sample.join("\n"));
    }
}

#[test]
fn settled_text_is_read_and_written_back_unchanged() {
    for text in ["", "a", "a\nb", "a\n\nb", "\na", "a\rb\nc\r"] {
        assert_eq!(join_lines(&split_lines(text)), text);
    }
}

#[test]
fn unsettled_text_is_written_back_shorter() {
    for text in ["a\n", "\n", "a\r\nb", "a\n\n", "a\r\r\nb"] {
        let back = join_lines(&split_lines(text));
        assert!(back.chars().count() < text.chars().count(), "{:?} became {:?}", text, back);
    }
    assert_eq!(join_lines(&split_lines("a\n")), "a");
    assert_eq!(join_lines(&split_lines("a\r\nb")), "a\nb");
    assert_eq!(join_lines(&split_lines("a\n\n")), "a\n");
}

#[test]
fn written_lines_are_read_back_as_no_more_lines() {
    let samples: [&[&str]; 5] = [&[], &[""], &["a", ""], &["", "", ""], &["a", "b", "c"]];
    for sample in samples {
        let text = join_lines(&owned(sample));
        assert!(split_lines(&text).len() <= sample.len());
    }
}
