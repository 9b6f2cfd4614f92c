//! A log that never holds more than a fixed number of lines.
//!
//! New lines go to the end. Where the log would grow past its limit, the
//! oldest lines leave first; the new lines always stay.

use crate::text::{
    is_settled, is_single_line, join_lines, joined, lemma_line_count_of_joined,
    lemma_lines_are_single, lemma_lines_of_joined, lemma_rejoin, lines_of, split_lines,
};
use vstd::prelude::*;

verus! {

/// More lines were handed in than the log may hold at all.
#[derive(Debug, Clone, Copy, PartialEq, Eq, Structural)]
pub struct CapacityExceeded {
    /// The number of lines that were handed in.
    pub input_lines: usize,
    /// The number of lines that the log may hold.
    pub max_lines: usize,
}

/// The lines that a log of at most `max_lines` lines holds once `input` has
/// been added to `existing`: the newest lines of `existing` for which there
/// is room beside `input`, then all of `input`.
pub open spec fn recent_lines(
    existing: Seq<Seq<char>>,
    input: Seq<Seq<char>>,
    max_lines: nat,
) -> Seq<Seq<char>>
    recommends
        input.len() <= max_lines,
{
    let room = max_lines - input.len();
    if existing.len() <= room {
        existing + input
    } else {
        existing.skip(existing.len() - room) + input
    }
}

/// The text of a log of at most `max_lines` lines after the lines of `data`
/// have been added to the text `content`.
pub open spec fn rewritten(content: Seq<char>, data: Seq<char>, max_lines: nat) -> Seq<char>
    recommends
        lines_of(data).len() <= max_lines,
{
    joined(recent_lines(lines_of(content), lines_of(data), max_lines))
}

/// Adds the lines `input` to the lines `existing` of a log that may hold
/// `max_lines` lines, and drops the oldest lines that no longer fit.
pub fn retain_recent(existing: Vec<String>, input: Vec<String>, max_lines: usize) -> (result:
    Result<Vec<String>, CapacityExceeded>)
    ensures
        match result {
            Ok(lines) => input.len() <= max_lines && lines.deep_view() == recent_lines(
                existing.deep_view(),
                input.deep_view(),
                max_lines as nat,
            ),
            Err(e) => input.len() > max_lines && e.input_lines == input.len() && e.max_lines
                == max_lines,
        },
{
    if input.len() > max_lines {
        return Err(CapacityExceeded { input_lines: input.len(), max_lines });
    }
    let room = max_lines - input.len();
    let from = if existing.len() <= room {
        0
    } else {
        existing.len() - room
    };
    let mut older = existing;
    let mut newer = input;
    let mut lines = older.split_off(from);
    lines.append(&mut newer);
    Ok(lines)
}

/// Adds the lines of `data` to the log text `content`, which may hold
/// `max_lines` lines, and gives the new text of the log.
///
/// Fails, and gives no text, where `data` alone has more than `max_lines`
/// lines.
pub fn log_line(content: &str, data: &str, max_lines: usize) -> (result: Result<
    String,
    CapacityExceeded,
>)
    ensures
        match result {
            Ok(text) => lines_of(data@).len() <= max_lines && text@ == rewritten(
                content@,
                data@,
                max_lines as nat,
            ),
            Err(e) => lines_of(data@).len() > max_lines && e.input_lines == lines_of(data@).len()
                && e.max_lines == max_lines,
        },
{
    let existing = split_lines(content);
    let input = split_lines(data);
    match retain_recent(existing, input, max_lines) {
        Ok(lines) => Ok(join_lines(&lines)),
        Err(e) => Err(e),
    }
}

/// What stays in the log is the end of the old lines followed by the new
/// ones: nothing is reordered, every new line stays, and the limit holds.
pub proof fn lemma_recent_lines_are_newest(
    existing: Seq<Seq<char>>,
    input: Seq<Seq<char>>,
    max_lines: nat,
)
    requires
        input.len() <= max_lines,
    ensures
        recent_lines(existing, input, max_lines).is_suffix_of(existing + input),
        input.is_suffix_of(recent_lines(existing, input, max_lines)),
        recent_lines(existing, input, max_lines).len() <= max_lines,
        existing.len() + input.len() <= max_lines ==> recent_lines(existing, input, max_lines)
            == existing + input,
        existing.len() + input.len() >= max_lines ==> recent_lines(existing, input, max_lines).len()
            == max_lines,
{
}

/// The lines that stay in the log come from the old text and from the new
/// lines, and none of them holds a line feed.
proof fn lemma_recent_lines_are_single(content: Seq<char>, data: Seq<char>, max_lines: nat)
    requires
        lines_of(data).len() <= max_lines,
    ensures
        forall|i: int|
            0 <= i < recent_lines(lines_of(content), lines_of(data), max_lines).len()
                ==> is_single_line(
                #[trigger] recent_lines(lines_of(content), lines_of(data), max_lines)[i],
            ),
{
    lemma_lines_are_single(content);
    lemma_lines_are_single(data);
}

/// After a successful write the log holds at most `max_lines` lines.
pub proof fn lemma_rewritten_keeps_limit(content: Seq<char>, data: Seq<char>, max_lines: nat)
    requires
        lines_of(data).len() <= max_lines,
    ensures
        lines_of(rewritten(content, data, max_lines)).len() <= max_lines,
{
    lemma_recent_lines_are_single(content, data, max_lines);
    lemma_line_count_of_joined(recent_lines(lines_of(content), lines_of(data), max_lines));
}

/// Where a successful write leaves a settled text that is not empty, the
/// lines of the log are the lines that were kept: the newest of the old
/// lines, then the new ones.
pub proof fn lemma_settled_log_holds_recent_lines(
    content: Seq<char>,
    data: Seq<char>,
    max_lines: nat,
)
    requires
        lines_of(data).len() <= max_lines,
        is_settled(rewritten(content, data, max_lines)),
        rewritten(content, data, max_lines).len() > 0,
    ensures
        lines_of(rewritten(content, data, max_lines)) == recent_lines(
            lines_of(content),
            lines_of(data),
            max_lines,
        ),
{
    lemma_recent_lines_are_single(content, data, max_lines);
    lemma_lines_of_joined(recent_lines(lines_of(content), lines_of(data), max_lines));
}

/// Writing no new lines to a log a second time leaves it as the first
/// write left it, wherever the first write left a settled text.
pub proof fn lemma_empty_rewrite_is_idempotent(content: Seq<char>, max_lines: nat)
    requires
        is_settled(rewritten(content, Seq::empty(), max_lines)),
    ensures
        rewritten(rewritten(content, Seq::empty(), max_lines), Seq::empty(), max_lines)
            == rewritten(content, Seq::empty(), max_lines),
{
    lemma_empty_rewrite_rejoins(content, max_lines);
    lemma_rejoin(rewritten(content, Seq::empty(), max_lines));
}

/// Where the first write of no new lines left a text that is not settled,
/// a second one makes the log shorter.
pub proof fn lemma_unsettled_rewrite_shrinks(content: Seq<char>, max_lines: nat)
    requires
        !is_settled(rewritten(content, Seq::empty(), max_lines)),
    ensures
        rewritten(rewritten(content, Seq::empty(), max_lines), Seq::empty(), max_lines).len()
            < rewritten(content, Seq::empty(), max_lines).len(),
{
    lemma_empty_rewrite_rejoins(content, max_lines);
    lemma_rejoin(rewritten(content, Seq::empty(), max_lines));
}

/// A second write of no new lines drops no line: it reads the text that
/// the first write left and writes those lines out again.
proof fn lemma_empty_rewrite_rejoins(content: Seq<char>, max_lines: nat)
    ensures
        rewritten(rewritten(content, Seq::empty(), max_lines), Seq::empty(), max_lines) == joined(
            lines_of(rewritten(content, Seq::empty(), max_lines)),
        ),
{
    lemma_rewritten_keeps_limit(content, Seq::empty(), max_lines);
}

} // verus!
