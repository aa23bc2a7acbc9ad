use sftp_tube::clipboard::{ClipAction, ClipEvent, ClipState, Clipboard, Note};
use std::collections::BTreeMap;

const PATH: &str = "srv/tmp/alice/clip.txt";

fn ask(note: Note) -> ClipAction {
    ClipAction::AskCommand { note }
}

fn write(text: &str) -> ClipAction {
    ClipAction::Write { path: PATH.to_string(), text: text.to_string() }
}

fn fetch() -> ClipAction {
    ClipAction::Fetch { path: PATH.to_string() }
}

fn show(text: &str) -> ClipAction {
    ClipAction::Show { text: text.to_string() }
}

fn delete() -> ClipAction {
    ClipAction::Delete { path: PATH.to_string() }
}

// Plays a session: the user enters `inputs`, one line at each prompt, and
// the server keeps its files in `files`. Returns all that was asked.
fn play(
    files: &mut BTreeMap<String, String>,
    inputs: &[&str],
    clipboard_works: bool,
) -> Vec<ClipAction> {
    let mut inputs = inputs.iter();
    let mut asked = Vec::new();
    let (mut session, mut action) = Clipboard::start("srv/tmp/alice", "clip.txt");
    loop {
        let event = match &action {
            ClipAction::AskCommand { .. } | ClipAction::AskText => match inputs.next() {
                Some(line) => Some(ClipEvent::Line(line.to_string())),
                None => None,
            },
            ClipAction::Write { path, text } => {
                files.insert(path.clone(), text.clone());
                Some(ClipEvent::Done)
            }
            ClipAction::Fetch { path } => match files.get(path) {
                Some(text) => Some(ClipEvent::Contents(text.clone())),
                None => Some(ClipEvent::Absent),
            },
            ClipAction::Show { .. } => {
                Some(if clipboard_works { ClipEvent::Done } else { ClipEvent::Failed })
            }
            ClipAction::Delete { path } => {
                files.remove(path);
                Some(ClipEvent::Done)
            }
            ClipAction::Finish | ClipAction::Abort => None,
        };
        asked.push(action);
        match event {
            Some(event) => (session, action) = session.step(event),
            None => return asked,
        }
    }
}

#[test]
fn clipboard_file_is_in_the_user_folder() {
    let (session, _) = Clipboard::start("srv/tmp/alice", "clip.txt");
    let (_, action) = session.step(ClipEvent::Line("from".to_string()));
    assert_eq!(action, ClipAction::Fetch { path: "srv/tmp/alice/clip.txt".to_string() });
}

#[test]
fn clipboard_begins_with_a_plain_prompt() {
    let (session, action) = Clipboard::start("srv/tmp/alice", "clip.txt");
    assert_eq!(action, ask(Note::Plain));
    assert_eq!(session.state(), ClipState::Prompting);
}

#[test]
fn clipboard_round_trip() {
    for works in [true, false] {
        let mut files = BTreeMap::new();
        let asked = play(&mut files, &["to\n", "hello world\n", "from\n", "from\n"], works);
        assert_eq!(
            asked,
            vec![
                ask(Note::Plain),
                ClipAction::AskText,
                write("hello world"),
                ask(Note::Plain),
                fetch(),
                show("hello world"),
                delete(),
                ask(Note::Plain),
                fetch(),
                ask(Note::Empty),
            ]
        );
        assert!(files.is_empty());
    }
}

#[test]
fn clipboard_overwrite() {
    let mut files = BTreeMap::new();
    files.insert("other".to_string(), "kept".to_string());
    let asked = play(&mut files, &["T", "first", "t", "second", "F"], true);
    assert_eq!(
        asked,
        vec![
            ask(Note::Plain),
            ClipAction::AskText,
            write("first"),
            ask(Note::Plain),
            ClipAction::AskText,
            write("second"),
            ask(Note::Plain),
            fetch(),
            show("second"),
            delete(),
            ask(Note::Plain),
        ]
    );
    assert_eq!(files.len(), 1);
    assert_eq!(files.get("other"), Some(&"kept".to_string()));
}

#[test]
fn clipboard_holds_the_text_between_to_and_from() {
    let mut files = BTreeMap::new();
    play(&mut files, &["to", "  some text \r\n"], true);
    assert_eq!(files.get(PATH), Some(&"some text".to_string()));
    let asked = play(&mut files, &["from"], true);
    assert_eq!(asked, vec![ask(Note::Plain), fetch(), show("some text"), delete(), ask(Note::Plain)]);
    assert!(files.is_empty());
}

#[test]
fn clipboard_from_empty_reports_nothing_to_retrieve() {
    let mut files = BTreeMap::new();
    let asked = play(&mut files, &["f"], true);
    assert_eq!(asked, vec![ask(Note::Plain), fetch(), ask(Note::Empty)]);
    assert!(files.is_empty());
}

#[test]
fn clipboard_shows_what_the_file_holds_as_it_is() {
    let mut files = BTreeMap::new();
    files.insert(PATH.to_string(), "  two\nlines \n".to_string());
    let asked = play(&mut files, &["from"], true);
    assert_eq!(asked[2], show("  two\nlines \n"));
}

#[test]
fn clipboard_rejects_other_input_and_asks_again() {
    let mut files = BTreeMap::new();
    let asked = play(&mut files, &["x", "", "1", "exit"], true);
    assert_eq!(
        asked,
        vec![
            ask(Note::Plain),
            ask(Note::Rejected),
            ask(Note::Rejected),
            ask(Note::Rejected),
            ClipAction::Finish
        ]
    );
}

#[test]
fn clipboard_exits_on_the_users_choice() {
    for choice in ["e", "E", "exit\n", " EXIT ", "Exit"] {
        let (session, _) = Clipboard::start("a", "b");
        let (session, action) = session.step(ClipEvent::Line(choice.to_string()));
        assert_eq!(action, ClipAction::Finish, "{:?}", choice);
        assert_eq!(session.state(), ClipState::Finished);
    }
}

#[test]
fn clipboard_stores_an_empty_line_as_empty_text() {
    let mut files = BTreeMap::new();
    let asked = play(&mut files, &["to", "   \n"], true);
    assert_eq!(asked[2], write(""));
    assert_eq!(files.get(PATH), Some(&String::new()));
}

#[test]
fn clipboard_ends_where_writing_fails() {
    let (session, _) = Clipboard::start("srv/tmp/alice", "clip.txt");
    let (session, _) = session.step(ClipEvent::Line("to".to_string()));
    assert_eq!(session.state(), ClipState::AwaitingText);
    let (session, action) = session.step(ClipEvent::Line("text".to_string()));
    assert_eq!(action, write("text"));
    assert_eq!(session.state(), ClipState::Writing);
    let (session, action) = session.step(ClipEvent::Failed);
    assert_eq!(action, ClipAction::Abort);
    assert_eq!(session.state(), ClipState::Finished);
}

#[test]
fn clipboard_ends_where_reading_fails() {
    let (session, _) = Clipboard::start("srv/tmp/alice", "clip.txt");
    let (session, action) = session.step(ClipEvent::Line("from".to_string()));
    assert_eq!(action, fetch());
    assert_eq!(session.state(), ClipState::Fetching);
    let (session, action) = session.step(ClipEvent::Failed);
    assert_eq!(action, ClipAction::Abort);
    assert_eq!(session.state(), ClipState::Finished);
}

#[test]
fn clipboard_ends_where_deleting_fails() {
    let (session, _) = Clipboard::start("srv/tmp/alice", "clip.txt");
    let (session, _) = session.step(ClipEvent::Line("from".to_string()));
    let (session, action) = session.step(ClipEvent::Contents("text".to_string()));
    assert_eq!(action, show("text"));
    assert_eq!(session.state(), ClipState::Showing);
    let (session, action) = session.step(ClipEvent::Failed);
    assert_eq!(action, delete());
    assert_eq!(session.state(), ClipState::Deleting);
    let (session, action) = session.step(ClipEvent::Failed);
    assert_eq!(action, ClipAction::Abort);
    assert_eq!(session.state(), ClipState::Finished);
}

#[test]
fn clipboard_ends_where_the_console_cannot_be_read() {
    let (session, _) = Clipboard::start("a", "b");
    let (session, action) = session.step(ClipEvent::Failed);
    assert_eq!(action, ClipAction::Abort);
    assert_eq!(session.state(), ClipState::Finished);

    let (session, _) = Clipboard::start("a", "b");
    let (session, _) = session.step(ClipEvent::Line("t".to_string()));
    let (session, action) = session.step(ClipEvent::Failed);
    assert_eq!(action, ClipAction::Abort);
    assert_eq!(session.state(), ClipState::Finished);
}

#[test]
fn clipboard_ends_on_a_report_that_answers_nothing() {
    let (session, _) = Clipboard::start("a", "b");
    let (session, action) = session.step(ClipEvent::Done);
    assert_eq!(action, ClipAction::Abort);
    let (session, action) = session.step(ClipEvent::Line("to".to_string()));
    assert_eq!(action, ClipAction::Abort);
    assert_eq!(session.state(), ClipState::Finished);

    let (session, _) = Clipboard::start("a", "b");
    let (session, _) = session.step(ClipEvent::Line("from".to_string()));
    let (_, action) = session.step(ClipEvent::Line("from".to_string()));
    assert_eq!(action, ClipAction::Abort);
}
