//! What a watcher does over the periods of its life.
//!
//! A watcher is served in a loop: each action it hands out is performed and
//! answered with an event, until it asks to sleep again. This module states
//! what that loop comes to for one period and for a run of periods, given
//! what the file held at each of them, and proves what callers rely on: a
//! change is handed on once, a file that stays as it is is left alone, and
//! a file that cannot be read is tried again.

use crate::watch::{ActionView, EventView, NoticeView, Severity, StageView, StepView, WatcherView};
use vstd::prelude::*;

verus! {

/// What the file answers during one period.
pub struct Observation {
    /// The fingerprint of the file, or nothing where it cannot be
    /// fingerprinted.
    pub hashed: Option<Seq<char>>,
    /// The content of the file, or the cause for which it cannot be read.
    pub loaded: Result<Seq<char>, Seq<char>>,
}

/// What one period comes to.
pub struct Polled {
    /// The fingerprint that the watcher holds afterwards.
    pub last_hash: Seq<char>,
    /// The content that the handler was called with, if it was called.
    pub handed: Option<Seq<char>>,
    /// What there is to log.
    pub notice: NoticeView,
}

/// The watcher after one period, and what the period did.
pub struct Ticked {
    pub watcher: WatcherView,
    pub handed: Option<Seq<char>>,
    pub notice: Option<NoticeView>,
}

/// The watcher after a run of periods, and what the periods did.
pub struct Trace {
    pub watcher: WatcherView,
    /// The contents that the handler was called with, first to last.
    pub handed: Seq<Seq<char>>,
    /// What there was to log, first to last.
    pub notices: Seq<NoticeView>,
}

/// A file that can be fingerprinted and read.
pub open spec fn readable(fingerprint: Seq<char>, content: Seq<char>) -> Observation {
    Observation { hashed: Some(fingerprint), loaded: Ok(content) }
}

/// One period, from the fingerprint that the watcher holds: a file that
/// cannot be fingerprinted or read, or whose fingerprint is the one held,
/// changes nothing; any other is handed on and its fingerprint held.
pub open spec fn poll(last_hash: Seq<char>, seen: Observation) -> Polled {
    match seen.hashed {
        None => Polled { last_hash, handed: None, notice: NoticeView::HashFailed },
        Some(fingerprint) => if fingerprint == last_hash {
            Polled { last_hash, handed: None, notice: NoticeView::Unchanged }
        } else {
            match seen.loaded {
                Err(cause) => Polled {
                    last_hash,
                    handed: None,
                    notice: NoticeView::LoadFailed(cause),
                },
                Ok(content) => Polled {
                    last_hash: fingerprint,
                    handed: Some(content),
                    notice: NoticeView::Updated(fingerprint),
                },
            }
        },
    }
}

/// The event that comes of performing `action` on a file that answers as
/// `seen` says.
pub open spec fn answer(action: ActionView, seen: Observation) -> EventView {
    match action {
        ActionView::Sleep(_) => EventView::Woke,
        ActionView::Hash => match seen.hashed {
            Some(fingerprint) => EventView::Hashed(fingerprint),
            None => EventView::HashFailed,
        },
        ActionView::Load => match seen.loaded {
            Ok(content) => EventView::Loaded(content),
            Err(cause) => EventView::LoadFailed(cause),
        },
        ActionView::Invoke(_) => EventView::Handled,
    }
}

/// The content that the handler is called with where `action` is performed.
pub open spec fn handed_by(action: ActionView) -> Option<Seq<char>> {
    match action {
        ActionView::Invoke(content) => Some(content),
        _ => None,
    }
}

/// The watcher served from the end of one sleep to the start of the next.
pub open spec fn tick(watcher: WatcherView, seen: Observation) -> Ticked
    recommends
        watcher.stage is Sleeping,
{
    let (hashing, woken) = watcher.next(EventView::Woke);
    let (hashed, first) = hashing.next(answer(woken.action, seen));
    if first.action is Sleep {
        Ticked { watcher: hashed, handed: None, notice: first.notice }
    } else {
        let (loaded, second) = hashed.next(answer(first.action, seen));
        if second.action is Sleep {
            Ticked { watcher: loaded, handed: None, notice: second.notice }
        } else {
            let (handled, third) = loaded.next(answer(second.action, seen));
            Ticked { watcher: handled, handed: handed_by(second.action), notice: third.notice }
        }
    }
}

/// Whether each event of the period that `tick` serves reports on what the
/// watcher is waiting for at that moment.
pub open spec fn tick_in_turn(watcher: WatcherView, seen: Observation) -> bool {
    let (hashing, woken) = watcher.next(EventView::Woke);
    let (hashed, first) = hashing.next(answer(woken.action, seen));
    let (loaded, second) = hashed.next(answer(first.action, seen));
    &&& watcher.expects(EventView::Woke)
    &&& hashing.expects(answer(woken.action, seen))
    &&& !(first.action is Sleep) ==> hashed.expects(answer(first.action, seen))
    &&& !(first.action is Sleep) && !(second.action is Sleep) ==> loaded.expects(
        answer(second.action, seen),
    )
}

/// The contents and notices of `trace`, with those of one more period.
pub open spec fn extended(trace: Trace, ticked: Ticked) -> Trace {
    Trace {
        watcher: ticked.watcher,
        handed: match ticked.handed {
            Some(content) => trace.handed.push(content),
            None => trace.handed,
        },
        notices: match ticked.notice {
            Some(notice) => trace.notices.push(notice),
            None => trace.notices,
        },
    }
}

/// The watcher served for one period after the other, the file answering
/// as `seen` says, first to last.
pub open spec fn run(watcher: WatcherView, seen: Seq<Observation>) -> Trace
    recommends
        watcher.stage is Sleeping,
    decreases seen.len(),
{
    if seen.len() == 0 {
        Trace { watcher, handed: Seq::empty(), notices: Seq::empty() }
    } else {
        let before = run(watcher, seen.drop_last());
        extended(before, tick(before.watcher, seen.last()))
    }
}

/// Whether a period fails for a watcher that holds `last_hash`: the file
/// cannot be fingerprinted, or it has another fingerprint and cannot be
/// read.
pub open spec fn fails(last_hash: Seq<char>, seen: Observation) -> bool {
    match seen.hashed {
        None => true,
        Some(fingerprint) => fingerprint != last_hash && seen.loaded is Err,
    }
}

/// `count` periods in each of which the file answers as `seen` says.
pub open spec fn repeated(seen: Observation, count: nat) -> Seq<Observation> {
    Seq::new(count, |i: int| seen)
}

/// A watcher that has been started sleeps, having handed on nothing.
pub proof fn lemma_started_watcher_sleeps(period_ms: u64)
    ensures
        WatcherView::fresh(period_ms).expects(EventView::Started),
        WatcherView::fresh(period_ms).next(EventView::Started).0 == (WatcherView {
            last_hash: Seq::empty(),
            period_ms,
            stage: StageView::Sleeping,
        }),
        WatcherView::fresh(period_ms).next(EventView::Started).1 == (StepView {
            notice: None,
            action: ActionView::Sleep(period_ms),
        }),
{
}

/// The fingerprint that a watcher holds changes only when the handler has
/// returned, and then to the fingerprint of the content that the handler
/// was called with. The period of a watcher never changes.
pub proof fn lemma_fingerprint_is_kept_until_handled(watcher: WatcherView, event: EventView)
    requires
        watcher.expects(event),
    ensures
        watcher.next(event).0.period_ms == watcher.period_ms,
        !(event is Handled) ==> watcher.next(event).0.last_hash == watcher.last_hash,
        event is Handled ==> watcher.stage is Notifying && watcher.next(event).0.last_hash
            == watcher.stage->Notifying_fingerprint,
        watcher.next(event).1.action is Sleep <==> watcher.next(event).0.stage is Sleeping,
{
}

/// Serving a sleeping watcher for one period comes to `poll`: the watcher
/// sleeps again, holds the fingerprint that `poll` gives, the handler was
/// called as `poll` says, and there is the one notice that `poll` gives.
/// Each event on the way was one that the watcher waited for.
pub proof fn lemma_tick_polls(watcher: WatcherView, seen: Observation)
    requires
        watcher.stage is Sleeping,
    ensures
        tick_in_turn(watcher, seen),
        tick(watcher, seen).watcher == (WatcherView {
            last_hash: poll(watcher.last_hash, seen).last_hash,
            ..watcher
        }),
        tick(watcher, seen).handed == poll(watcher.last_hash, seen).handed,
        tick(watcher, seen).notice == Some(poll(watcher.last_hash, seen).notice),
{
}

/// Between two periods a watcher sleeps, with the period it was made with,
/// and every period leaves one notice.
pub proof fn lemma_run_sleeps(watcher: WatcherView, seen: Seq<Observation>)
    requires
        watcher.stage is Sleeping,
    ensures
        run(watcher, seen).watcher.stage is Sleeping,
        run(watcher, seen).watcher.period_ms == watcher.period_ms,
        run(watcher, seen).notices.len() == seen.len(),
        run(watcher, seen).handed.len() <= seen.len(),
    decreases seen.len(),
{
    if seen.len() > 0 {
        lemma_run_sleeps(watcher, seen.drop_last());
    }
}

/// A run of periods is its first part followed by the rest, served from
/// where the first part left the watcher.
pub proof fn lemma_run_in_parts(
    watcher: WatcherView,
    first: Seq<Observation>,
    second: Seq<Observation>,
)
    ensures
        run(watcher, first + second).watcher == run(run(watcher, first).watcher, second).watcher,
        run(watcher, first + second).handed == run(watcher, first).handed + run(
            run(watcher, first).watcher,
            second,
        ).handed,
        run(watcher, first + second).notices == run(watcher, first).notices + run(
            run(watcher, first).watcher,
            second,
        ).notices,
    decreases second.len(),
{
    if second.len() > 0 {
        assert((first + second).drop_last() =~= first + second.drop_last());
        lemma_run_in_parts(watcher, first, second.drop_last());
    }
}

/// A file that keeps the fingerprint which the watcher holds never reaches
/// the handler, however many periods pass, and each of them leaves a trace
/// that nothing changed.
pub proof fn lemma_unchanged_file_is_left_alone(
    watcher: WatcherView,
    seen: Seq<Observation>,
)
    requires
        watcher.stage is Sleeping,
        forall|i: int| 0 <= i < seen.len() ==> (#[trigger] seen[i]).hashed == Some(watcher.last_hash),
    ensures
        run(watcher, seen).watcher == watcher,
        run(watcher, seen).handed.len() == 0,
        run(watcher, seen).notices.len() == seen.len(),
        forall|i: int|
            0 <= i < seen.len() ==> #[trigger] run(watcher, seen).notices[i]
                == NoticeView::Unchanged,
    decreases seen.len(),
{
    if seen.len() > 0 {
        lemma_unchanged_file_is_left_alone(watcher, seen.drop_last());
    }
}

/// Over periods in which the file is readable and stays as it is, its
/// content reaches the handler in the first of them where its fingerprint
/// is not the one held, and in none of them otherwise. Afterwards the
/// watcher holds the file's fingerprint.
pub proof fn lemma_steady_file_is_handed_at_most_once(
    watcher: WatcherView,
    fingerprint: Seq<char>,
    content: Seq<char>,
    periods: nat,
)
    requires
        watcher.stage is Sleeping,
        periods >= 1,
    ensures
        run(watcher, repeated(readable(fingerprint, content), periods)).handed == if fingerprint
            == watcher.last_hash {
            Seq::<Seq<char>>::empty()
        } else {
            seq![content]
        },
        run(watcher, repeated(readable(fingerprint, content), periods)).watcher == (WatcherView {
            last_hash: fingerprint,
            ..watcher
        }),
{
    let seen = readable(fingerprint, content);
    let first = repeated(seen, 1);
    let others = repeated(seen, (periods - 1) as nat);
    assert(repeated(seen, periods) =~= first + others);
    lemma_run_in_parts(watcher, first, others);
    // The first period leaves the watcher with the file's fingerprint.
    assert(run(watcher, first.drop_last()).watcher == watcher);
    lemma_unchanged_file_is_left_alone(run(watcher, first).watcher, others);
}

/// Once a readable file has been looked at, it is left alone for as long
/// as it stays as it is: whatever the watcher held before the first look,
/// no number of further periods with the same file reaches the handler.
pub proof fn lemma_untouched_file_is_silent_after_first_look(
    watcher: WatcherView,
    fingerprint: Seq<char>,
    content: Seq<char>,
    periods: nat,
)
    requires
        watcher.stage is Sleeping,
    ensures
        run(
            tick(watcher, readable(fingerprint, content)).watcher,
            repeated(readable(fingerprint, content), periods),
        ).handed.len() == 0,
        run(
            tick(watcher, readable(fingerprint, content)).watcher,
            repeated(readable(fingerprint, content), periods),
        ).watcher == tick(watcher, readable(fingerprint, content)).watcher,
{
    lemma_unchanged_file_is_left_alone(
        tick(watcher, readable(fingerprint, content)).watcher,
        repeated(readable(fingerprint, content), periods),
    );
}

/// A change is handed on exactly once, and nothing is handed on without a
/// change. The watcher holds the fingerprint of the content it handed on
/// last. Whatever function of the content the fingerprint is: over any
/// number of periods in which the file is readable and holds `content`,
/// the handler is not called where `content` is the content it saw last,
/// and is called once, with `content`, where the fingerprint tells the two
/// apart.
pub proof fn lemma_change_is_handed_once(
    watcher: WatcherView,
    fingerprint_of: spec_fn(Seq<char>) -> Seq<char>,
    last_content: Seq<char>,
    content: Seq<char>,
    periods: nat,
)
    requires
        watcher.stage is Sleeping,
        watcher.last_hash == fingerprint_of(last_content),
        periods >= 1,
    ensures
        content == last_content ==> run(
            watcher,
            repeated(readable(fingerprint_of(content), content), periods),
        ).handed.len() == 0,
        fingerprint_of(content) != fingerprint_of(last_content) ==> run(
            watcher,
            repeated(readable(fingerprint_of(content), content), periods),
        ).handed == seq![content],
        fingerprint_of(content) != fingerprint_of(last_content) ==> tick(
            watcher,
            readable(fingerprint_of(content), content),
        ).handed == Some(content),
{
    lemma_steady_file_is_handed_at_most_once(watcher, fingerprint_of(content), content, periods);
}

/// A failure stops nothing. Each period that fails leaves an error and the
/// watcher as it was; the first period after them in which the file is
/// readable, with a fingerprint other than the one held, hands its content
/// on, once.
pub proof fn lemma_failing_file_is_tried_again(
    watcher: WatcherView,
    failing: Seq<Observation>,
    fingerprint: Seq<char>,
    content: Seq<char>,
)
    requires
        watcher.stage is Sleeping,
        forall|i: int| 0 <= i < failing.len() ==> fails(watcher.last_hash, #[trigger] failing[i]),
        fingerprint != watcher.last_hash,
    ensures
        run(watcher, failing).watcher == watcher,
        run(watcher, failing).handed.len() == 0,
        run(watcher, failing).notices.len() == failing.len(),
        forall|i: int|
            0 <= i < failing.len() ==> (#[trigger] run(watcher, failing).notices[i]).severity()
                == Severity::Error,
        run(watcher, failing.push(readable(fingerprint, content))).handed == seq![content],
        run(watcher, failing.push(readable(fingerprint, content))).watcher.last_hash == fingerprint,
    decreases failing.len(),
{
    if failing.len() > 0 {
        lemma_failing_file_is_tried_again(watcher, failing.drop_last(), fingerprint, content);
    }
    assert(failing.push(readable(fingerprint, content)).drop_last() =~= failing);
}

} // verus!
