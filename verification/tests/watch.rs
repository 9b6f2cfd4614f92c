use watchlog::file_watch;
use watchlog::watch::{Action, Event, Notice, Severity, Step, Watcher};

/// What the file answers during one period.
struct Seen {
    hashed: Option<String>,
    loaded: Result<String, String>,
}

fn readable(content: &str) -> Seen {
    Seen { hashed: Some(sha256::digest(content)), loaded: Ok(content.to_string()) }
}

fn missing() -> Seen {
    Seen { hashed: None, loaded: Err("No such file or directory".to_string()) }
}

fn quiet(action: Action) -> Option<Step> {
    Some(Step { notice: None, action })
}

fn resting(notice: Notice, period_ms: u64) -> Option<Step> {
    Some(Step { notice: Some(notice), action: Action::Sleep(period_ms) })
}

fn started(period_ms: u64) -> Watcher {
    let mut watcher = file_watch(period_ms);
    assert_eq!(watcher.step(Event::Started), quiet(Action::Sleep(period_ms)));
    watcher
}

/// Serves a sleeping watcher until it sleeps again, as the loop around it
/// does; gives the contents that the handler got and the notices.
fn serve(watcher: &mut Watcher, seen: &Seen) -> (Vec<String>, Vec<Notice>) {
    let mut handed = Vec::new();
    let mut notices = Vec::new();
    let mut event = Event::Woke;
    loop {
        let step = watcher.step(event).expect("the event answers the action before it");
        notices.extend(step.notice);
        event = match step.action {
            Action::Sleep(_) => return (handed, notices),
            Action::Hash => match &seen.hashed {
                Some(fingerprint) => Event::Hashed(fingerprint.clone()),
                None => Event::HashFailed,
            },
            Action::Load => match &seen.loaded {
                Ok(content) => Event::Loaded(content.clone()),
                Err(cause) => Event::LoadFailed(cause.clone()),
            },
            Action::Invoke(content) => {
                handed.push(content);
                Event::Handled
            }
        };
    }
}

#[test]
fn new_watcher_has_seen_nothing() {
    let watcher = file_watch(250);
    assert_eq!(watcher.last_hash(), "");
    assert_eq!(watcher.period_ms(), 250);
}

#[test]
fn started_watcher_sleeps_for_its_period() {
    let mut watcher = file_watch(250);
    assert_eq!(watcher.step(Event::Started), quiet(Action::Sleep(250)));
    assert_eq!(watcher.last_hash(), "");
}

#[test]
fn woken_watcher_asks_for_the_fingerprint() {
    let mut watcher = started(50);
    assert_eq!(watcher.step(Event::Woke), quiet(Action::Hash));
}

#[test]
fn new_fingerprint_is_followed_up_to_the_handler() {
    let mut watcher = started(50);
    assert_eq!(watcher.step(Event::Woke), quiet(Action::Hash));
    assert_eq!(watcher.step(Event::Hashed("abc".to_string())), quiet(Action::Load));
    assert_eq!(watcher.last_hash(), "");
    assert_eq!(
        watcher.step(Event::Loaded("content".to_string())),
        quiet(Action::Invoke("content".to_string()))
    );
    assert_eq!(watcher.last_hash(), "");
    assert_eq!(watcher.step(Event::Handled), resting(Notice::Updated("abc".to_string()), 50));
    assert_eq!(watcher.last_hash(), "abc");
}

#[test]
fn known_fingerprint_sends_the_watcher_back_to_sleep() {
    let mut watcher = started(50);
    serve(&mut watcher, &Seen { hashed: Some("abc".to_string()), loaded: Ok("one".to_string()) });
    assert_eq!(watcher.step(Event::Woke), quiet(Action::Hash));
    assert_eq!(watcher.step(Event::Hashed("abc".to_string())), resting(Notice::Unchanged, 50));
    assert_eq!(watcher.last_hash(), "abc");
    assert_eq!(watcher.step(Event::Woke), quiet(Action::Hash));
}

#[test]
fn empty_fingerprint_is_what_a_new_watcher_holds() {
    let mut watcher = started(50);
    assert_eq!(watcher.step(Event::Woke), quiet(Action::Hash));
    assert_eq!(watcher.step(Event::Hashed(String::new())), resting(Notice::Unchanged, 50));
}

#[test]
fn failed_fingerprint_is_reported_and_changes_nothing() {
    let mut watcher = started(50);
    serve(&mut watcher, &Seen { hashed: Some("abc".to_string()), loaded: Ok("one".to_string()) });
    assert_eq!(watcher.step(Event::Woke), quiet(Action::Hash));
    assert_eq!(watcher.step(Event::HashFailed), resting(Notice::HashFailed, 50));
    assert_eq!(watcher.last_hash(), "abc");
    assert_eq!(watcher.step(Event::Woke), quiet(Action::Hash));
}

#[test]
fn failed_read_is_reported_and_keeps_the_old_fingerprint() {
    let mut watcher = started(50);
    serve(&mut watcher, &Seen { hashed: Some("abc".to_string()), loaded: Ok("one".to_string()) });
    assert_eq!(watcher.step(Event::Woke), quiet(Action::Hash));
    assert_eq!(watcher.step(Event::Hashed("def".to_string())), quiet(Action::Load));
    assert_eq!(
        watcher.step(Event::LoadFailed("denied".to_string())),
        resting(Notice::LoadFailed("denied".to_string()), 50)
    );
    assert_eq!(watcher.last_hash(), "abc");

    // The same fingerprint still counts as a change in the next period.
    let (handed, notices) =
        serve(&mut watcher, &Seen { hashed: Some("def".to_string()), loaded: Ok("two".to_string()) });
    assert_eq!(handed, vec!["two".to_string()]);
    assert_eq!(notices, vec![Notice::Updated("def".to_string())]);
    assert_eq!(watcher.last_hash(), "def");
}

#[test]
fn event_out_of_turn_gets_no_answer_and_changes_nothing() {
    let mut watcher = file_watch(50);
    assert_eq!(watcher.step(Event::Woke), None);
    assert_eq!(watcher.step(Event::Handled), None);
    assert_eq!(watcher.step(Event::Hashed("abc".to_string())), None);
    assert_eq!(watcher.step(Event::Started), quiet(Action::Sleep(50)));

    assert_eq!(watcher.step(Event::Started), None);
    assert_eq!(watcher.step(Event::HashFailed), None);
    assert_eq!(watcher.step(Event::Loaded("content".to_string())), None);
    assert_eq!(watcher.step(Event::Woke), quiet(Action::Hash));

    assert_eq!(watcher.step(Event::Woke), None);
    assert_eq!(watcher.step(Event::LoadFailed("denied".to_string())), None);
    assert_eq!(watcher.step(Event::Hashed("abc".to_string())), quiet(Action::Load));

    assert_eq!(watcher.step(Event::Hashed("def".to_string())), None);
    assert_eq!(watcher.step(Event::Handled), None);
    assert_eq!(
        watcher.step(Event::Loaded("content".to_string())),
        quiet(Action::Invoke("content".to_string()))
    );

    assert_eq!(watcher.step(Event::Loaded("other".to_string())), None);
    assert_eq!(watcher.step(Event::Woke), None);
    assert_eq!(watcher.last_hash(), "");
    assert_eq!(watcher.step(Event::Handled), resting(Notice::Updated("abc".to_string()), 50));
    assert_eq!(watcher.last_hash(), "abc");
}

#[test]
fn first_look_hands_the_content_on() {
    let mut watcher = started(50);
    let (handed, notices) = serve(&mut watcher, &readable("x\ny\n"));
    assert_eq!(handed, vec!["x\ny\n".to_string()]);
    assert_eq!(notices, vec![Notice::Updated(sha256::digest("x\ny\n"))]);
    assert_eq!(watcher.last_hash(), sha256::digest("x\ny\n"));
    assert_eq!(watcher.last_hash().len(), 64);
}

#[test]
fn rewritten_file_is_handed_on_exactly_once() {
    let mut watcher = started(50);
    serve(&mut watcher, &readable("old"));
    let mut handed = Vec::new();
    for _ in 0..5 {
        handed.extend(serve(&mut watcher, &readable("new")).0);
    }
    assert_eq!(handed, vec!["new".to_string()]);
    assert_eq!(watcher.last_hash(), sha256::digest("new"));
}

#[test]
fn every_change_that_a_period_sees_is_handed_on() {
    let mut watcher = started(50);
    let mut handed = Vec::new();
    for content in ["a", "a", "b", "b", "b", "a", "c"] {
        handed.extend(serve(&mut watcher, &readable(content)).0);
    }
    assert_eq!(handed, vec!["a", "b", "a", "c"]);
}

#[test]
fn untouched_file_is_handed_on_no_more_after_the_first_look() {
    let mut watcher = started(50);
    assert_eq!(serve(&mut watcher, &readable("same")).0.len(), 1);
    for _ in 0..100 {
        let (handed, notices) = serve(&mut watcher, &readable("same"));
        assert!(handed.is_empty());
        assert_eq!(notices, vec![Notice::Unchanged]);
    }
    assert_eq!(watcher.last_hash(), sha256::digest("same"));
}

#[test]
fn missing_file_is_reported_each_period_and_picked_up_when_it_is_back() {
    let mut watcher = started(50);
    serve(&mut watcher, &readable("before"));
    for _ in 0..3 {
        let (handed, notices) = serve(&mut watcher, &missing());
        assert!(handed.is_empty());
        assert_eq!(notices, vec![Notice::HashFailed]);
        assert_eq!(notices[0].severity(), Severity::Error);
        assert_eq!(watcher.last_hash(), sha256::digest("before"));
    }
    let (handed, notices) = serve(&mut watcher, &readable("after"));
    assert_eq!(handed, vec!["after".to_string()]);
    assert_eq!(notices, vec![Notice::Updated(sha256::digest("after"))]);
}

#[test]
fn file_that_comes_back_unchanged_is_not_handed_on_again() {
    let mut watcher = started(50);
    serve(&mut watcher, &readable("same"));
    serve(&mut watcher, &missing());
    let (handed, notices) = serve(&mut watcher, &readable("same"));
    assert!(handed.is_empty());
    assert_eq!(notices, vec![Notice::Unchanged]);
}

#[test]
fn file_deleted_before_the_first_look_and_recreated_before_the_second() {
    // The file holds "x\ny\n" when the watcher is made, is deleted before
    // the first period ends and holds "z\n" when the second one ends.
    let mut watcher = started(50);

    let (handed, notices) = serve(&mut watcher, &missing());
    assert!(handed.is_empty());
    assert_eq!(notices, vec![Notice::HashFailed]);
    assert_eq!(notices[0].severity(), Severity::Error);

    let (handed, notices) = serve(&mut watcher, &readable("z\n"));
    assert_eq!(handed, vec!["z\n".to_string()]);
    assert_eq!(notices.len(), 1);
    assert_eq!(notices[0].severity(), Severity::Debug);

    let (handed, _) = serve(&mut watcher, &readable("z\n"));
    assert!(handed.is_empty());
}

#[test]
fn each_notice_has_its_severity() {
    assert_eq!(Notice::HashFailed.severity(), Severity::Error);
    assert_eq!(Notice::LoadFailed("denied".to_string()).severity(), Severity::Error);
    assert_eq!(Notice::Updated("abc".to_string()).severity(), Severity::Debug);
    assert_eq!(Notice::Unchanged.severity(), Severity::Trace);
}

#[test]
fn watchers_do_not_share_what_they_have_seen() {
    let mut one = started(50);
    let mut other = started(70);
    assert_eq!(serve(&mut one, &readable("content")).0.len(), 1);
    assert_eq!(serve(&mut other, &readable("content")).0.len(), 1);
    assert_eq!(serve(&mut one, &readable("content")).0.len(), 0);
    assert_eq!(other.period_ms(), 70);
}
