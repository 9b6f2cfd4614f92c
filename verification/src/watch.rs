//! The decisions of a watcher that polls one file for changes.
//!
//! The watcher itself touches neither the clock nor the file. It is a state
//! machine: it hands out one [`Action`] at a time, whoever serves it performs
//! the action and reports what came of it as an [`Event`], and the watcher
//! answers with the next action. Between two sleeps it asks for the file's
//! fingerprint, asks for the content only where the fingerprint differs from
//! the last one it handed on, and has the content handed to the handler.

use vstd::prelude::*;

verus! {

/// How much a [`Notice`] matters to whoever reads the log.
#[derive(Debug, Clone, Copy, PartialEq, Eq, Structural)]
pub enum Severity {
    /// Something failed.
    Error,
    /// Something changed.
    Debug,
    /// Nothing happened.
    Trace,
}

/// What was done for the watcher.
#[derive(Debug, PartialEq, Eq)]
pub enum Event {
    /// The watcher is being served from now on.
    Started,
    /// The time to sleep is over.
    Woke,
    /// The file was fingerprinted; the fingerprint is inside.
    Hashed(String),
    /// The file could not be fingerprinted.
    HashFailed,
    /// The file was read; its content is inside.
    Loaded(String),
    /// The file could not be read; the cause is inside.
    LoadFailed(String),
    /// The handler has returned.
    Handled,
}

/// What the watcher wants done next.
#[derive(Debug, PartialEq, Eq)]
pub enum Action {
    /// Wait for this many milliseconds.
    Sleep(u64),
    /// Fingerprint the file.
    Hash,
    /// Read the file.
    Load,
    /// Call the handler with this content.
    Invoke(String),
}

/// What the watcher has to say about the period that has just ended.
#[derive(Debug, PartialEq, Eq)]
pub enum Notice {
    /// The file could not be fingerprinted.
    HashFailed,
    /// The file has the fingerprint that it had before.
    Unchanged,
    /// The file has a new fingerprint but could not be read; the cause is
    /// inside.
    LoadFailed(String),
    /// The handler has seen the new content; its fingerprint is inside.
    Updated(String),
}

/// The watcher's answer to an event.
#[derive(Debug, PartialEq, Eq)]
pub struct Step {
    /// What there is to log, if anything.
    pub notice: Option<Notice>,
    /// What to do next.
    pub action: Action,
}

/// What the watcher is waiting for.
enum Stage {
    Created,
    Sleeping,
    Hashing,
    Loading { fingerprint: String },
    Notifying { fingerprint: String },
}

/// A watcher of one file.
pub struct Watcher {
    last_hash: String,
    period_ms: u64,
    stage: Stage,
}

/// The model of an [`Event`].
pub enum EventView {
    Started,
    Woke,
    Hashed(Seq<char>),
    HashFailed,
    Loaded(Seq<char>),
    LoadFailed(Seq<char>),
    Handled,
}

/// The model of an [`Action`].
pub enum ActionView {
    Sleep(u64),
    Hash,
    Load,
    Invoke(Seq<char>),
}

/// The model of a [`Notice`].
pub enum NoticeView {
    HashFailed,
    Unchanged,
    LoadFailed(Seq<char>),
    Updated(Seq<char>),
}

/// The model of a [`Step`].
pub struct StepView {
    pub notice: Option<NoticeView>,
    pub action: ActionView,
}

/// What a watcher is waiting for.
pub enum StageView {
    /// For being started.
    Created,
    /// For the end of a sleep.
    Sleeping,
    /// For the file's fingerprint.
    Hashing,
    /// For the content of the file, which has this new fingerprint.
    Loading { fingerprint: Seq<char> },
    /// For the handler, which has the content with this fingerprint.
    Notifying { fingerprint: Seq<char> },
}

/// The model of a [`Watcher`].
pub struct WatcherView {
    /// The fingerprint of the content that the handler saw last; empty as
    /// long as it saw none.
    pub last_hash: Seq<char>,
    /// The time between two looks at the file, in milliseconds.
    pub period_ms: u64,
    /// What the watcher is waiting for.
    pub stage: StageView,
}

impl View for Event {
    type V = EventView;

    open spec fn view(&self) -> EventView {
        match *self {
            Event::Started => EventView::Started,
            Event::Woke => EventView::Woke,
            Event::Hashed(fingerprint) => EventView::Hashed(fingerprint@),
            Event::HashFailed => EventView::HashFailed,
            Event::Loaded(content) => EventView::Loaded(content@),
            Event::LoadFailed(cause) => EventView::LoadFailed(cause@),
            Event::Handled => EventView::Handled,
        }
    }
}

impl View for Action {
    type V = ActionView;

    open spec fn view(&self) -> ActionView {
        match *self {
            Action::Sleep(period_ms) => ActionView::Sleep(period_ms),
            Action::Hash => ActionView::Hash,
            Action::Load => ActionView::Load,
            Action::Invoke(content) => ActionView::Invoke(content@),
        }
    }
}

impl View for Notice {
    type V = NoticeView;

    open spec fn view(&self) -> NoticeView {
        match *self {
            Notice::HashFailed => NoticeView::HashFailed,
            Notice::Unchanged => NoticeView::Unchanged,
            Notice::LoadFailed(cause) => NoticeView::LoadFailed(cause@),
            Notice::Updated(fingerprint) => NoticeView::Updated(fingerprint@),
        }
    }
}

impl View for Step {
    type V = StepView;

    open spec fn view(&self) -> StepView {
        StepView {
            notice: match self.notice {
                Some(notice) => Some(notice@),
                None => None,
            },
            action: self.action@,
        }
    }
}

impl View for Stage {
    type V = StageView;

    closed spec fn view(&self) -> StageView {
        match *self {
            Stage::Created => StageView::Created,
            Stage::Sleeping => StageView::Sleeping,
            Stage::Hashing => StageView::Hashing,
            Stage::Loading { fingerprint } => StageView::Loading { fingerprint: fingerprint@ },
            Stage::Notifying { fingerprint } => StageView::Notifying { fingerprint: fingerprint@ },
        }
    }
}

impl View for Watcher {
    type V = WatcherView;

    closed spec fn view(&self) -> WatcherView {
        WatcherView { last_hash: self.last_hash@, period_ms: self.period_ms, stage: self.stage@ }
    }
}

impl NoticeView {
    /// How much the notice matters: failures are errors, a change is worth
    /// a debug line, and a quiet period only a trace.
    pub open spec fn severity(self) -> Severity {
        match self {
            NoticeView::HashFailed => Severity::Error,
            NoticeView::LoadFailed(_) => Severity::Error,
            NoticeView::Updated(_) => Severity::Debug,
            NoticeView::Unchanged => Severity::Trace,
        }
    }
}

impl WatcherView {
    /// The watcher as it is when it is made: it has handed on nothing yet
    /// and waits to be started.
    pub open spec fn fresh(period_ms: u64) -> WatcherView {
        WatcherView { last_hash: Seq::empty(), period_ms, stage: StageView::Created }
    }

    /// The same watcher, waiting for something else.
    pub open spec fn at(self, stage: StageView) -> WatcherView {
        WatcherView { stage, ..self }
    }

    /// The answer that sends the watcher to sleep with a notice.
    pub open spec fn rest(self, notice: NoticeView) -> StepView {
        StepView { notice: Some(notice), action: ActionView::Sleep(self.period_ms) }
    }

    /// Whether `event` reports on what the watcher is waiting for.
    pub open spec fn expects(self, event: EventView) -> bool {
        match (self.stage, event) {
            (StageView::Created, EventView::Started) => true,
            (StageView::Sleeping, EventView::Woke) => true,
            (StageView::Hashing, EventView::Hashed(_)) => true,
            (StageView::Hashing, EventView::HashFailed) => true,
            (StageView::Loading { .. }, EventView::Loaded(_)) => true,
            (StageView::Loading { .. }, EventView::LoadFailed(_)) => true,
            (StageView::Notifying { .. }, EventView::Handled) => true,
            _ => false,
        }
    }

    /// The watcher after `event`, and its answer.
    ///
    /// A failure sends the watcher back to sleep with what it knew before.
    /// So does a fingerprint that equals the last one. A new fingerprint
    /// becomes the last one only when the handler has returned.
    pub open spec fn next(self, event: EventView) -> (WatcherView, StepView)
        recommends
            self.expects(event),
    {
        match (self.stage, event) {
            (StageView::Created, EventView::Started) => (
                self.at(StageView::Sleeping),
                StepView { notice: None, action: ActionView::Sleep(self.period_ms) },
            ),
            (StageView::Sleeping, EventView::Woke) => (
                self.at(StageView::Hashing),
                StepView { notice: None, action: ActionView::Hash },
            ),
            (StageView::Hashing, EventView::HashFailed) => (
                self.at(StageView::Sleeping),
                self.rest(NoticeView::HashFailed),
            ),
            (StageView::Hashing, EventView::Hashed(fingerprint)) => if fingerprint
                == self.last_hash {
                (self.at(StageView::Sleeping), self.rest(NoticeView::Unchanged))
            } else {
                (
                    self.at(StageView::Loading { fingerprint }),
                    StepView { notice: None, action: ActionView::Load },
                )
            },
            (StageView::Loading { .. }, EventView::LoadFailed(cause)) => (
                self.at(StageView::Sleeping),
                self.rest(NoticeView::LoadFailed(cause)),
            ),
            (StageView::Loading { fingerprint }, EventView::Loaded(content)) => (
                self.at(StageView::Notifying { fingerprint }),
                StepView { notice: None, action: ActionView::Invoke(content) },
            ),
            (StageView::Notifying { fingerprint }, EventView::Handled) => (
                WatcherView { last_hash: fingerprint, stage: StageView::Sleeping, ..self },
                self.rest(NoticeView::Updated(fingerprint)),
            ),
            _ => arbitrary(),
        }
    }
}

impl Notice {
    /// How much the notice matters to whoever reads the log.
    pub fn severity(&self) -> (severity: Severity)
        ensures
            severity == self@.severity(),
    {
        match self {
            Notice::HashFailed => Severity::Error,
            Notice::LoadFailed(_) => Severity::Error,
            Notice::Updated(_) => Severity::Debug,
            Notice::Unchanged => Severity::Trace,
        }
    }
}

/// Makes a watcher that looks at its file every `period_ms` milliseconds.
///
/// The watcher has handed on nothing yet, and waits for [`Event::Started`].
pub fn file_watch(period_ms: u64) -> (watcher: Watcher)
    ensures
        watcher@ == WatcherView::fresh(period_ms),
{
    Watcher { last_hash: String::new(), period_ms, stage: Stage::Created }
}

impl Watcher {
    /// The fingerprint of the content that the handler saw last.
    pub fn last_hash(&self) -> (fingerprint: &str)
        ensures
            fingerprint@ == self@.last_hash,
    {
        self.last_hash.as_str()
    }

    /// The time between two looks at the file, in milliseconds.
    pub fn period_ms(&self) -> (period_ms: u64)
        ensures
            period_ms == self@.period_ms,
    {
        self.period_ms
    }

    /// Takes in what was done for the watcher, and says what to do next.
    ///
    /// Where `event` does not report on what the watcher is waiting for,
    /// there is no answer and the watcher stays as it was.
    pub fn step(&mut self, event: Event) -> (answer: Option<Step>)
        ensures
            match answer {
                Some(step) => old(self)@.expects(event@) && (final(self)@, step@) == old(
                    self,
                )@.next(event@),
                None => !old(self)@.expects(event@) && final(self)@ == old(self)@,
            },
    {
        let mut stage = Stage::Sleeping;
        core::mem::swap(&mut self.stage, &mut stage);
        match (stage, event) {
            (Stage::Created, Event::Started) => {
                self.stage = Stage::Sleeping;
                Some(Step { notice: None, action: Action::Sleep(self.period_ms) })
            },
            (Stage::Sleeping, Event::Woke) => {
                self.stage = Stage::Hashing;
                Some(Step { notice: None, action: Action::Hash })
            },
            (Stage::Hashing, Event::HashFailed) => {
                self.stage = Stage::Sleeping;
                Some(
                    Step {
                        notice: Some(Notice::HashFailed),
                        action: Action::Sleep(self.period_ms),
                    },
                )
            },
            (Stage::Hashing, Event::Hashed(fingerprint)) => {
                if fingerprint == self.last_hash {
                    self.stage = Stage::Sleeping;
                    Some(
                        Step {
                            notice: Some(Notice::Unchanged),
                            action: Action::Sleep(self.period_ms),
                        },
                    )
                } else {
                    self.stage = Stage::Loading { fingerprint };
                    Some(Step { notice: None, action: Action::Load })
                }
            },
            (Stage::Loading { fingerprint: _ }, Event::LoadFailed(cause)) => {
                self.stage = Stage::Sleeping;
                Some(
                    Step {
                        notice: Some(Notice::LoadFailed(cause)),
                        action: Action::Sleep(self.period_ms),
                    },
                )
            },
            (Stage::Loading { fingerprint }, Event::Loaded(content)) => {
                self.stage = Stage::Notifying { fingerprint };
                Some(Step { notice: None, action: Action::Invoke(content) })
            },
            (Stage::Notifying { fingerprint }, Event::Handled) => {
                self.last_hash = fingerprint.clone();
                self.stage = Stage::Sleeping;
                Some(
                    Step {
                        notice: Some(Notice::Updated(fingerprint)),
                        action: Action::Sleep(self.period_ms),
                    },
                )
            },
            (stage, _) => {
                self.stage = stage;
                None
            },
        }
    }
}

} // verus!
