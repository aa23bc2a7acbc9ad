use sftp_tube::listing::Entry;
use sftp_tube::throw::{Throw, ThrowAction, ThrowEvent, ThrowState};

fn file(name: &str) -> Entry {
    Entry::local(name.to_string(), true)
}

fn folder(name: &str) -> Entry {
    Entry::local(name.to_string(), false)
}

fn upload(index: usize, remote: &str) -> ThrowAction {
    ThrowAction::Upload { index, remote: remote.to_string() }
}

#[test]
fn throw_begins_by_listing_the_upload_folder() {
    let (throw, action) = Throw::start("srv/tmp/alice");
    assert_eq!(action, ThrowAction::List { dir: "To Upload".to_string() });
    assert_eq!(throw.state(), ThrowState::Listing);
    assert!(!throw.is_finished());
}

#[test]
fn throw_on_empty_folder_reports_emptiness_and_uploads_nothing() {
    let (throw, _) = Throw::start("srv/tmp/alice");
    let (throw, action) = throw.step(ThrowEvent::Listed(vec![]));
    assert_eq!(action, ThrowAction::Finish { empty: true });
    assert!(throw.is_finished());
}

#[test]
fn throw_uploads_each_regular_file_in_order() {
    let (throw, _) = Throw::start("srv/tmp/alice");
    let listing = vec![folder("sub"), file("a.txt"), folder("other"), file("b c.bin"), file("d")];
    let (throw, action) = throw.step(ThrowEvent::Listed(listing));
    assert_eq!(action, upload(1, "srv/tmp/alice/a.txt"));
    assert_eq!(throw.state(), ThrowState::Uploading(1));
    let (throw, action) = throw.step(ThrowEvent::Done);
    assert_eq!(action, upload(3, "srv/tmp/alice/b c.bin"));
    assert_eq!(throw.state(), ThrowState::Uploading(3));
    let (throw, action) = throw.step(ThrowEvent::Done);
    assert_eq!(action, upload(4, "srv/tmp/alice/d"));
    let (throw, action) = throw.step(ThrowEvent::Done);
    assert_eq!(action, ThrowAction::Finish { empty: false });
    assert_eq!(throw.state(), ThrowState::Finished);
}

#[test]
fn throw_skips_a_folder_that_holds_only_folders() {
    let (throw, _) = Throw::start("r");
    let (throw, action) = throw.step(ThrowEvent::Listed(vec![folder("x"), folder("y")]));
    assert_eq!(action, ThrowAction::Finish { empty: false });
    assert!(throw.is_finished());
}

#[test]
fn throw_stops_at_the_first_failure() {
    let (throw, _) = Throw::start("r");
    let (throw, action) = throw.step(ThrowEvent::Listed(vec![file("a"), file("b"), file("c")]));
    assert_eq!(action, upload(0, "r/a"));
    let (throw, action) = throw.step(ThrowEvent::Done);
    assert_eq!(action, upload(1, "r/b"));
    let (throw, action) = throw.step(ThrowEvent::Failed);
    assert_eq!(action, ThrowAction::Abort);
    assert!(throw.is_finished());
    let (throw, action) = throw.step(ThrowEvent::Done);
    assert_eq!(action, ThrowAction::Abort);
    assert!(throw.is_finished());
}

#[test]
fn throw_sends_what_stands_before_an_unreadable_entry_and_then_fails() {
    let (throw, _) = Throw::start("r");
    let read = vec![file("a"), folder("sub"), file("b")];
    let (throw, action) = throw.step(ThrowEvent::ListedInPart(read));
    assert_eq!(action, upload(0, "r/a"));
    let (throw, action) = throw.step(ThrowEvent::Done);
    assert_eq!(action, upload(2, "r/b"));
    let (throw, action) = throw.step(ThrowEvent::Done);
    assert_eq!(action, ThrowAction::Abort);
    assert!(throw.is_finished());
}

#[test]
fn throw_fails_at_once_where_the_first_entry_is_unreadable() {
    let (throw, _) = Throw::start("r");
    let (throw, action) = throw.step(ThrowEvent::ListedInPart(vec![]));
    assert_eq!(action, ThrowAction::Abort);
    assert!(throw.is_finished());

    let (throw, _) = Throw::start("r");
    let (throw, action) = throw.step(ThrowEvent::ListedInPart(vec![folder("x")]));
    assert_eq!(action, ThrowAction::Abort);
    assert!(throw.is_finished());
}

#[test]
fn throw_fails_where_the_folder_cannot_be_listed() {
    let (throw, _) = Throw::start("r");
    let (throw, action) = throw.step(ThrowEvent::Failed);
    assert_eq!(action, ThrowAction::Abort);
    assert!(throw.is_finished());
}

#[test]
fn throw_stops_on_a_report_that_answers_nothing() {
    let (throw, _) = Throw::start("r");
    let (throw, action) = throw.step(ThrowEvent::Done);
    assert_eq!(action, ThrowAction::Abort);
    assert!(throw.is_finished());

    let (throw, _) = Throw::start("r");
    let (throw, _) = throw.step(ThrowEvent::Listed(vec![file("a"), file("b")]));
    let (throw, action) = throw.step(ThrowEvent::Listed(vec![file("z")]));
    assert_eq!(action, ThrowAction::Abort);
    assert!(throw.is_finished());
}

#[test]
fn throw_sends_the_regular_files_and_nothing_else() {
    let names = ["a", "b", "c", "d", "e", "f"];
    for mask in 0..64u32 {
        let listing: Vec<Entry> = names
            .iter()
            .enumerate()
            .map(|(i, n)| Entry::local(n.to_string(), mask & (1 << i) != 0))
            .collect();
        let mut expected: Vec<ThrowAction> = Vec::new();
        for (i, n) in names.iter().enumerate() {
            if mask & (1 << i) != 0 {
                expected.push(upload(i, &format!("home/{}", n)));
            }
        }
        expected.push(ThrowAction::Finish { empty: false });
        let (throw, _) = Throw::start("home");
        let (mut throw, mut action) = throw.step(ThrowEvent::Listed(listing));
        let mut actions = Vec::new();
        loop {
            let over = matches!(action, ThrowAction::Finish { .. } | ThrowAction::Abort);
            actions.push(action);
            if over {
                break;
            }
            (throw, action) = throw.step(ThrowEvent::Done);
        }
        assert_eq!(actions, expected);
        assert!(throw.is_finished());
    }
}
