//! Text as a sequence of lines.
//!
//! A line ends at a line feed, or at the end of the text. A carriage return
//! directly before the line feed belongs to the line break, not to the line.
//! A line break at the very end of the text opens no further line.

use vstd::prelude::*;

verus! {

/// `String::push` of the standard library appends one character to the end
/// of the string and changes nothing else.
pub assume_specification[ String::push ](s: &mut String, ch: char)
    ensures
        final(s)@ == old(s)@.push(ch),
;

/// The number of characters in front of the first line feed of `text`, or
/// the length of `text` where it holds no line feed.
pub open spec fn first_break(text: Seq<char>) -> nat
    decreases text.len(),
{
    if text.len() == 0 || text[0] == '\n' {
        0
    } else {
        1 + first_break(text.drop_first())
    }
}

/// `line` without the carriage return at its end, if it has one.
pub open spec fn without_carriage_return(line: Seq<char>) -> Seq<char> {
    if line.len() > 0 && line.last() == '\r' {
        line.drop_last()
    } else {
        line
    }
}

/// The lines of `text`, first to last.
pub open spec fn lines_of(text: Seq<char>) -> Seq<Seq<char>>
    decreases text.len(),
{
    let end = first_break(text);
    if text.len() == 0 {
        Seq::empty()
    } else if end >= text.len() {
        seq![text]
    } else {
        seq![without_carriage_return(text.take(end as int))] + lines_of(text.skip(end as int + 1))
    }
}

/// `lines` written out one after the other, with a line feed between each
/// two of them and none at the end.
pub open spec fn joined(lines: Seq<Seq<char>>) -> Seq<char>
    decreases lines.len(),
{
    if lines.len() == 0 {
        Seq::empty()
    } else if lines.len() == 1 {
        lines[0]
    } else {
        joined(lines.drop_last()) + seq!['\n'] + lines.last()
    }
}

/// Whether `line` holds no line feed.
pub open spec fn is_single_line(line: Seq<char>) -> bool {
    forall|i: int| 0 <= i < line.len() ==> line[i] != '\n'
}

/// Whether reading `text` as lines and writing them out again gives `text`
/// back: it does not end in a line feed, and no carriage return stands
/// directly before a line feed.
pub open spec fn is_settled(text: Seq<char>) -> bool {
    &&& text.len() > 0 ==> text.last() != '\n'
    &&& forall|i: int| 0 <= i < text.len() - 1 ==> !(text[i] == '\r' && #[trigger] text[i + 1] == '\n')
}

/// `first_break` stops at the first line feed and nowhere before it.
pub proof fn lemma_first_break(text: Seq<char>)
    ensures
        first_break(text) <= text.len(),
        first_break(text) < text.len() ==> text[first_break(text) as int] == '\n',
        forall|i: int| 0 <= i < first_break(text) ==> text[i] != '\n',
    decreases text.len(),
{
    if text.len() == 0 || text[0] == '\n' {
    } else {
        let rest = text.drop_first();
        lemma_first_break(rest);
        assert forall|i: int| 0 <= i < first_break(text) implies text[i] != '\n' by {
            if i > 0 {
                assert(text[i] == rest[i - 1]);
            }
        }
    }
}

/// A position that holds the first line feed of `text`, or its end where
/// there is none, is what `first_break` gives.
pub proof fn lemma_first_break_at(text: Seq<char>, at: int)
    requires
        0 <= at <= text.len(),
        forall|i: int| 0 <= i < at ==> text[i] != '\n',
        at < text.len() ==> text[at] == '\n',
    ensures
        first_break(text) == at,
    decreases text.len(),
{
    if at > 0 {
        lemma_first_break_at(text.drop_first(), at - 1);
    }
}

/// No line of a text holds a line feed.
pub proof fn lemma_lines_are_single(text: Seq<char>)
    ensures
        forall|i: int| 0 <= i < lines_of(text).len() ==> is_single_line(#[trigger] lines_of(text)[i]),
    decreases text.len(),
{
    lemma_first_break(text);
    let end = first_break(text) as int;
    if text.len() == 0 {
    } else if end >= text.len() {
    } else {
        let rest = text.skip(end + 1);
        lemma_lines_are_single(rest);
        assert forall|i: int| 0 <= i < lines_of(text).len() implies is_single_line(
            #[trigger] lines_of(text)[i],
        ) by {
            if i > 0 {
                assert(lines_of(text)[i] == lines_of(rest)[i - 1]);
            }
        }
    }
}

/// Writing out a line in front of others puts it, and a line feed, in front
/// of what the others give.
pub proof fn lemma_joined_prepend(first: Seq<char>, others: Seq<Seq<char>>)
    requires
        others.len() > 0,
    ensures
        joined(seq![first] + others) == first + seq!['\n'] + joined(others),
    decreases others.len(),
{
    let all = seq![first] + others;
    if others.len() == 1 {
        assert(all.drop_last() =~= seq![first]);
        assert(joined(seq![first]) == first);
    } else {
        lemma_joined_prepend(first, others.drop_last());
        assert(all.drop_last() =~= seq![first] + others.drop_last());
    }
}

/// Reading a text as lines and writing them out again gives the text back
/// where it is settled, and a shorter text where it is not.
pub proof fn lemma_rejoin(text: Seq<char>)
    ensures
        is_settled(text) ==> joined(lines_of(text)) == text,
        !is_settled(text) ==> joined(lines_of(text)).len() < text.len(),
        joined(lines_of(text)).len() <= text.len(),
    decreases text.len(),
{
    lemma_first_break(text);
    let end = first_break(text) as int;
    if text.len() == 0 {
    } else if end >= text.len() {
    } else {
        let rest = text.skip(end + 1);
        let head = without_carriage_return(text.take(end));
        if rest.len() == 0 {
            // The text ends in the line feed that ends its only line.
            assert(lines_of(rest) =~= Seq::<Seq<char>>::empty());
        } else {
            lemma_rejoin(rest);
            lemma_joined_prepend(head, lines_of(rest));
            if is_settled(text) {
                // Then so is what follows the first line.
                assert forall|i: int| 0 <= i < rest.len() - 1 implies !(rest[i] == '\r'
                    && #[trigger] rest[i + 1] == '\n') by {
                    assert(rest[i + 1] == text[(end + 1 + i) + 1]);
                }
            } else if text.last() != '\n' {
                // A carriage return stands before a line feed: at the end of
                // the first line, or in what follows it.
                let i = choose|i: int|
                    0 <= i < text.len() - 1 && text[i] == '\r' && #[trigger] text[i + 1] == '\n';
                if i + 1 != end {
                    assert(rest[(i - end - 1) + 1] == text[i + 1]);
                }
            }
        }
    }
}

/// Lines that were written out as one text are read back as no more lines
/// than were written.
pub proof fn lemma_line_count_of_joined(lines: Seq<Seq<char>>)
    requires
        forall|i: int| 0 <= i < lines.len() ==> is_single_line(#[trigger] lines[i]),
    ensures
        lines_of(joined(lines)).len() <= lines.len(),
    decreases lines.len(),
{
    if lines.len() == 0 {
    } else {
        let first = lines[0];
        let others = lines.drop_first();
        assert(lines =~= seq![first] + others);
        if others.len() == 0 {
            lemma_first_break_at(first, first.len() as int);
        } else {
            lemma_joined_prepend(first, others);
            let text = joined(lines);
            lemma_first_break_at(text, first.len() as int);
            assert(text.skip(first.len() as int + 1) =~= joined(others));
            lemma_line_count_of_joined(others);
        }
    }
}

/// Lines that were written out as a settled text are read back as they
/// were written. The one exception is a single empty line, which is
/// written as the empty text and read back as no line.
pub proof fn lemma_lines_of_joined(lines: Seq<Seq<char>>)
    requires
        forall|i: int| 0 <= i < lines.len() ==> is_single_line(#[trigger] lines[i]),
        is_settled(joined(lines)),
    ensures
        joined(lines).len() > 0 ==> lines_of(joined(lines)) == lines,
        joined(lines).len() == 0 ==> lines_of(joined(lines)).len() == 0 && lines.len() <= 1,
    decreases lines.len(),
{
    if lines.len() == 0 {
    } else {
        let first = lines[0];
        let others = lines.drop_first();
        let text = joined(lines);
        assert(lines =~= seq![first] + others);
        if others.len() == 0 {
            lemma_first_break_at(first, first.len() as int);
        } else {
            lemma_joined_prepend(first, others);
            let at = first.len() as int;
            let rest = joined(others);
            lemma_first_break_at(text, at);
            assert(text.take(at) =~= first);
            assert(text.skip(at + 1) =~= rest);
            assert(without_carriage_return(first) == first) by {
                if at > 0 {
                    assert(text[(at - 1) + 1] == '\n');
                }
            }
            assert(is_settled(rest)) by {
                assert forall|i: int| 0 <= i < rest.len() - 1 implies !(rest[i] == '\r'
                    && #[trigger] rest[i + 1] == '\n') by {
                    assert(rest[i + 1] == text[(at + 1 + i) + 1]);
                }
            }
            lemma_lines_of_joined(others);
        }
    }
}

/// Splits `text` into its lines.
pub fn split_lines(text: &str) -> (lines: Vec<String>)
    ensures
        lines.deep_view() == lines_of(text@),
{
    broadcast use vstd::string::group_string_axioms;

    let mut lines: Vec<String> = Vec::new();
    let mut line = String::new();
    // A carriage return that was read and is not yet part of `line`: the
    // next character decides whether it belongs to a line break.
    let mut held_cr = false;
    // Whether anything was read since the last line feed.
    let mut pending = false;
    // Where the line that is being read starts.
    let ghost mut start: int = 0;
    assert(text@.skip(0) =~= text@);
    for c in it: text.chars()
        invariant
            it.seq() == text@,
            0 <= start <= it.index() <= text@.len(),
            pending == (start < it.index()),
            forall|j: int| start <= j < it.index() ==> text@[j] != '\n',
            line@ + (if held_cr {
                seq!['\r']
            } else {
                Seq::<char>::empty()
            }) == text@.subrange(start, it.index()),
            !held_cr ==> without_carriage_return(line@) == line@,
            lines.deep_view() + lines_of(text@.skip(start)) == lines_of(text@),
    {
        let ghost at = it.index();
        if c == '\n' {
            proof {
                let rest = text@.skip(start);
                lemma_first_break_at(rest, at - start);
                assert(rest.take(at - start) =~= text@.subrange(start, at));
                assert(rest.skip(at - start + 1) =~= text@.skip(at + 1));
                assert(without_carriage_return(text@.subrange(start, at)) == line@);
                start = at + 1;
            }
            lines.push(line);
            line = String::new();
            held_cr = false;
            pending = false;
        } else {
            if held_cr {
                line.push('\r');
            }
            if c == '\r' {
                held_cr = true;
            } else {
                held_cr = false;
                line.push(c);
            }
            pending = true;
            proof {
                assert(text@.subrange(start, at).push(c) =~= text@.subrange(start, at + 1));
            }
        }
    }
    if pending {
        if held_cr {
            line.push('\r');
        }
        proof {
            let rest = text@.skip(start);
            lemma_first_break_at(rest, rest.len() as int);
            assert(line@ == rest);
        }
        lines.push(line);
    }
    lines
}

/// Writes `lines` out as one text, with a line feed between each two lines.
pub fn join_lines(lines: &Vec<String>) -> (text: String)
    ensures
        text@ == joined(lines.deep_view()),
{
    let mut text = String::new();
    let mut i: usize = 0;
    while i < lines.len()
        invariant
            i <= lines.len(),
            text@ == joined(lines.deep_view().take(i as int)),
        decreases lines.len() - i,
    {
        proof {
            let done = lines.deep_view().take(i as int);
            assert(lines.deep_view().take(i + 1).drop_last() =~= done);
        }
        if i > 0 {
            text.push('\n');
        }
        text.append(lines[i].as_str());
        i += 1;
    }
    assert(lines.deep_view().take(i as int) =~= lines.deep_view());
    text
}

} // verus!
