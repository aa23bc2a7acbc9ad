//! The remote clipboard: one file on the server that holds at most one line
//! of text.
//!
//! `to` writes a line into the file and so replaces what was there; `from`
//! reads the file, shows the text and deletes the file. The caller prompts,
//! talks to the server and to the local clipboard; this module says what is
//! to be done next.

use crate::command::{clip_command, parse_clip_command, ClipCommand};
use crate::layout::{join, under};
use crate::text::{trim, trimmed};
use vstd::prelude::*;

verus! {

/// How far a session at the clipboard has come.
#[derive(Debug, Clone, Copy, PartialEq, Eq)]
pub enum ClipState {
    /// The user's choice is awaited.
    Prompting,
    /// The line of text to be stored is awaited.
    AwaitingText,
    /// The outcome of writing the remote file is awaited.
    Writing,
    /// The content of the remote file is awaited.
    Fetching,
    /// The outcome of showing the text is awaited.
    Showing,
    /// The outcome of deleting the remote file is awaited.
    Deleting,
    /// Nothing more is to be done.
    Finished,
}

/// What the user is told together with the next prompt.
#[derive(Debug, Clone, Copy, PartialEq, Eq)]
pub enum Note {
    /// Nothing.
    Plain,
    /// The last input was no valid choice.
    Rejected,
    /// The remote clipboard holds nothing to retrieve.
    Empty,
}

/// What the caller reports.
#[derive(Debug)]
pub enum ClipEvent {
    /// The user entered this line.
    Line(String),
    /// The remote file was read and holds this text.
    Contents(String),
    /// The remote file could not be opened.
    Absent,
    /// What was asked for is complete.
    Done,
    /// What was asked for could not be done.
    Failed,
}

/// A `ClipEvent` over sequences.
pub enum ClipEventView {
    Line(Seq<char>),
    Contents(Seq<char>),
    Absent,
    Done,
    Failed,
}

impl View for ClipEvent {
    type V = ClipEventView;

    open spec fn view(&self) -> ClipEventView {
        match self {
            ClipEvent::Line(l) => ClipEventView::Line(l@),
            ClipEvent::Contents(t) => ClipEventView::Contents(t@),
            ClipEvent::Absent => ClipEventView::Absent,
            ClipEvent::Done => ClipEventView::Done,
            ClipEvent::Failed => ClipEventView::Failed,
        }
    }
}

/// What the caller is to do next.
#[derive(Debug, PartialEq, Eq)]
pub enum ClipAction {
    /// Tell the user what `note` says and ask for a choice.
    AskCommand { note: Note },
    /// Ask the user for the line of text to store.
    AskText,
    /// Create or truncate the remote file `path` and write `text` into it.
    Write { path: String, text: String },
    /// Open the remote file `path` and read all of it as text.
    Fetch { path: String },
    /// Show `text` to the user and try to put it into the local clipboard.
    Show { text: String },
    /// Delete the remote file `path`.
    Delete { path: String },
    /// End with success.
    Finish,
    /// End with the failure that was reported.
    Abort,
}

/// A `ClipAction` over sequences.
pub enum ClipActionView {
    AskCommand { note: Note },
    AskText,
    Write { path: Seq<char>, text: Seq<char> },
    Fetch { path: Seq<char> },
    Show { text: Seq<char> },
    Delete { path: Seq<char> },
    Finish,
    Abort,
}

impl View for ClipAction {
    type V = ClipActionView;

    open spec fn view(&self) -> ClipActionView {
        match self {
            ClipAction::AskCommand { note } => ClipActionView::AskCommand { note: *note },
            ClipAction::AskText => ClipActionView::AskText,
            ClipAction::Write { path, text } => ClipActionView::Write { path: path@, text: text@ },
            ClipAction::Fetch { path } => ClipActionView::Fetch { path: path@ },
            ClipAction::Show { text } => ClipActionView::Show { text: text@ },
            ClipAction::Delete { path } => ClipActionView::Delete { path: path@ },
            ClipAction::Finish => ClipActionView::Finish,
            ClipAction::Abort => ClipActionView::Abort,
        }
    }
}

/// A session at the clipboard.
pub struct Clipboard {
    path: String,
    state: ClipState,
}

/// A `Clipboard` over sequences.
pub struct ClipView {
    /// The remote file that serves as the clipboard.
    pub path: Seq<char>,
    pub state: ClipState,
}

impl ClipView {
    /// A session at its start, for the clipboard file `name` in the user's
    /// folder `folder`, and the first thing to do: to ask for a choice.
    pub open spec fn begin(folder: Seq<char>, name: Seq<char>) -> (ClipView, ClipActionView) {
        (
            ClipView { path: under(folder, name), state: ClipState::Prompting },
            ClipActionView::AskCommand { note: Note::Plain },
        )
    }

    /// The same session in the state `state`.
    pub open spec fn at(self, state: ClipState) -> ClipView {
        ClipView { state, ..self }
    }

    /// The session after `event`, and what is to be done then.
    ///
    /// A line that the user enters is trimmed before it is read as a choice
    /// or taken as the text to store. A file that cannot be opened counts as
    /// an empty clipboard. The text that was read is shown; whether or not
    /// it reached the local clipboard, the remote file is deleted next. Any
    /// other failure ends the session, and so does a report that answers
    /// nothing that was asked.
    pub open spec fn next(self, event: ClipEventView) -> (ClipView, ClipActionView) {
        match (self.state, event) {
            (ClipState::Prompting, ClipEventView::Line(l)) => match clip_command(trimmed(l)) {
                ClipCommand::To => (self.at(ClipState::AwaitingText), ClipActionView::AskText),
                ClipCommand::From => (
                    self.at(ClipState::Fetching),
                    ClipActionView::Fetch { path: self.path },
                ),
                ClipCommand::Exit => (self.at(ClipState::Finished), ClipActionView::Finish),
                ClipCommand::Invalid => (
                    self.at(ClipState::Prompting),
                    ClipActionView::AskCommand { note: Note::Rejected },
                ),
            },
            (ClipState::AwaitingText, ClipEventView::Line(l)) => (
                self.at(ClipState::Writing),
                ClipActionView::Write { path: self.path, text: trimmed(l) },
            ),
            (ClipState::Writing, ClipEventView::Done) => (
                self.at(ClipState::Prompting),
                ClipActionView::AskCommand { note: Note::Plain },
            ),
            (ClipState::Fetching, ClipEventView::Absent) => (
                self.at(ClipState::Prompting),
                ClipActionView::AskCommand { note: Note::Empty },
            ),
            (ClipState::Fetching, ClipEventView::Contents(t)) => (
                self.at(ClipState::Showing),
                ClipActionView::Show { text: t },
            ),
            (ClipState::Showing, ClipEventView::Done) => (
                self.at(ClipState::Deleting),
                ClipActionView::Delete { path: self.path },
            ),
            (ClipState::Showing, ClipEventView::Failed) => (
                self.at(ClipState::Deleting),
                ClipActionView::Delete { path: self.path },
            ),
            (ClipState::Deleting, ClipEventView::Done) => (
                self.at(ClipState::Prompting),
                ClipActionView::AskCommand { note: Note::Plain },
            ),
            _ => (self.at(ClipState::Finished), ClipActionView::Abort),
        }
    }
}

/// How a server that holds `files`, and a local clipboard that works or
/// does not, answer an action; and what the server holds then. A file that is
/// written holds the text that was written and nothing else; a file that is
/// read gives what it holds; a file that is deleted is gone.
pub open spec fn serve(
    action: ClipActionView,
    files: Map<Seq<char>, Seq<char>>,
    clipboard_works: bool,
) -> (ClipEventView, Map<Seq<char>, Seq<char>>) {
    match action {
        ClipActionView::Write { path, text } => (ClipEventView::Done, files.insert(path, text)),
        ClipActionView::Fetch { path } => if files.dom().contains(path) {
            (ClipEventView::Contents(files[path]), files)
        } else {
            (ClipEventView::Absent, files)
        },
        ClipActionView::Show { .. } => (
            if clipboard_works {
                ClipEventView::Done
            } else {
                ClipEventView::Failed
            },
            files,
        ),
        ClipActionView::Delete { path } => (ClipEventView::Done, files.remove(path)),
        _ => (ClipEventView::Done, files),
    }
}

/// How many answers of the server a session can still take, at most, before
/// it needs the user again.
pub open spec fn rank(state: ClipState) -> nat {
    match state {
        ClipState::Fetching => 4,
        ClipState::Showing => 3,
        ClipState::Deleting => 2,
        ClipState::Writing => 2,
        ClipState::Prompting => 1,
        ClipState::AwaitingText => 1,
        ClipState::Finished => 0,
    }
}

/// 0 for an action that ends the session, 1 for any other.
pub open spec fn weight(action: ClipActionView) -> nat {
    match action {
        ClipActionView::Finish => 0,
        ClipActionView::Abort => 0,
        _ => 1,
    }
}

/// A session played through: the user enters the lines `inputs`, one at each
/// prompt, and server and local clipboard answer as `serve` says. Returns
/// all that the caller was asked to do, from `action` on, and what the
/// server holds at the end. The session stops where it ends or where a
/// prompt finds no line left.
pub open spec fn drive(
    m: ClipView,
    action: ClipActionView,
    files: Map<Seq<char>, Seq<char>>,
    inputs: Seq<Seq<char>>,
    clipboard_works: bool,
) -> (Seq<ClipActionView>, Map<Seq<char>, Seq<char>>)
    decreases inputs.len(), rank(m.state), weight(action),
{
    if action is Finish || action is Abort {
        (seq![action], files)
    } else if action is AskCommand || action is AskText {
        if inputs.len() == 0 {
            (seq![action], files)
        } else {
            let then = m.next(ClipEventView::Line(inputs.first()));
            let rest = drive(then.0, then.1, files, inputs.drop_first(), clipboard_works);
            (seq![action] + rest.0, rest.1)
        }
    } else {
        let answer = serve(action, files, clipboard_works);
        let then = m.next(answer.0);
        let rest = drive(then.0, then.1, answer.1, inputs, clipboard_works);
        (seq![action] + rest.0, rest.1)
    }
}

/// A session at the clipboard file `name` in the folder `folder`, played
/// through from its start with the lines `inputs` against a server that
/// holds `files`.
pub open spec fn play(
    folder: Seq<char>,
    name: Seq<char>,
    files: Map<Seq<char>, Seq<char>>,
    inputs: Seq<Seq<char>>,
    clipboard_works: bool,
) -> (Seq<ClipActionView>, Map<Seq<char>, Seq<char>>) {
    drive(
        ClipView::begin(folder, name).0,
        ClipView::begin(folder, name).1,
        files,
        inputs,
        clipboard_works,
    )
}

/// A text that is put into the clipboard and then taken out comes back as
/// it was stored, and the clipboard is empty afterwards: taking out once
/// more finds nothing and changes nothing.
///
/// `to` and `from` are any lines that read as the two choices, `line` is
/// the line that the user enters as the text. The text that is stored is
/// that line without the white space at its ends, so a text that neither
/// begins nor ends with white space comes back exactly as it was entered.
pub proof fn lemma_round_trip(
    folder: Seq<char>,
    name: Seq<char>,
    files: Map<Seq<char>, Seq<char>>,
    to: Seq<char>,
    line: Seq<char>,
    from: Seq<char>,
    clipboard_works: bool,
)
    requires
        clip_command(trimmed(to)) == ClipCommand::To,
        clip_command(trimmed(from)) == ClipCommand::From,
    ensures
        play(folder, name, files, seq![to, line, from, from], clipboard_works) == (
            seq![
                ClipActionView::AskCommand { note: Note::Plain },
                ClipActionView::AskText,
                ClipActionView::Write { path: under(folder, name), text: trimmed(line) },
                ClipActionView::AskCommand { note: Note::Plain },
                ClipActionView::Fetch { path: under(folder, name) },
                ClipActionView::Show { text: trimmed(line) },
                ClipActionView::Delete { path: under(folder, name) },
                ClipActionView::AskCommand { note: Note::Plain },
                ClipActionView::Fetch { path: under(folder, name) },
                ClipActionView::AskCommand { note: Note::Empty },
            ],
            files.remove(under(folder, name)),
        ),
{
    let path = under(folder, name);
    let inputs = seq![to, line, from, from];
    let i1 = inputs.drop_first();
    let i2 = i1.drop_first();
    let i3 = i2.drop_first();
    let i4 = i3.drop_first();
    assert(i1 =~= seq![line, from, from]);
    assert(i2 =~= seq![from, from]);
    assert(i3 =~= seq![from]);
    assert(i4 =~= Seq::empty());
    let m = ClipView { path, state: ClipState::Prompting };
    let stored = files.insert(path, trimmed(line));
    let cleared = files.remove(path);
    assert(stored.remove(path) =~= cleared);
    let ask = ClipActionView::AskCommand { note: Note::Plain };
    let end = drive(m, ClipActionView::AskCommand { note: Note::Empty }, cleared, i4, clipboard_works);
    assert(end == (seq![ClipActionView::AskCommand { note: Note::Empty }], cleared));
    let d9 = drive(
        m.at(ClipState::Fetching),
        ClipActionView::Fetch { path },
        cleared,
        i4,
        clipboard_works,
    );
    assert(d9 == (seq![ClipActionView::Fetch { path }] + end.0, cleared));
    let d8 = drive(m, ask, cleared, i3, clipboard_works);
    assert(d8 == (seq![ask] + d9.0, cleared));
    let d7 = drive(
        m.at(ClipState::Deleting),
        ClipActionView::Delete { path },
        stored,
        i3,
        clipboard_works,
    );
    assert(d7 == (seq![ClipActionView::Delete { path }] + d8.0, cleared));
    let d6 = drive(
        m.at(ClipState::Showing),
        ClipActionView::Show { text: trimmed(line) },
        stored,
        i3,
        clipboard_works,
    );
    assert(d6 == (seq![ClipActionView::Show { text: trimmed(line) }] + d7.0, cleared));
    let d5 = drive(
        m.at(ClipState::Fetching),
        ClipActionView::Fetch { path },
        stored,
        i3,
        clipboard_works,
    );
    assert(d5 == (seq![ClipActionView::Fetch { path }] + d6.0, cleared));
    let d4 = drive(m, ask, stored, i2, clipboard_works);
    assert(d4 == (seq![ask] + d5.0, cleared));
    let d3 = drive(
        m.at(ClipState::Writing),
        ClipActionView::Write { path, text: trimmed(line) },
        files,
        i2,
        clipboard_works,
    );
    assert(d3 == (seq![ClipActionView::Write { path, text: trimmed(line) }] + d4.0, cleared));
    let d2 = drive(m.at(ClipState::AwaitingText), ClipActionView::AskText, files, i1, clipboard_works);
    assert(d2 == (seq![ClipActionView::AskText] + d3.0, cleared));
    let d1 = drive(m, ask, files, inputs, clipboard_works);
    assert(d1 == (seq![ask] + d2.0, cleared));
    assert(d1.0 =~= seq![
        ClipActionView::AskCommand { note: Note::Plain },
        ClipActionView::AskText,
        ClipActionView::Write { path: under(folder, name), text: trimmed(line) },
        ClipActionView::AskCommand { note: Note::Plain },
        ClipActionView::Fetch { path: under(folder, name) },
        ClipActionView::Show { text: trimmed(line) },
        ClipActionView::Delete { path: under(folder, name) },
        ClipActionView::AskCommand { note: Note::Plain },
        ClipActionView::Fetch { path: under(folder, name) },
        ClipActionView::AskCommand { note: Note::Empty },
    ]);
}

/// A text that is put into the clipboard replaces the one that was put
/// there before: taking out gives the second text, and the first is gone.
pub proof fn lemma_overwrite(
    folder: Seq<char>,
    name: Seq<char>,
    files: Map<Seq<char>, Seq<char>>,
    to: Seq<char>,
    line1: Seq<char>,
    line2: Seq<char>,
    from: Seq<char>,
    clipboard_works: bool,
)
    requires
        clip_command(trimmed(to)) == ClipCommand::To,
        clip_command(trimmed(from)) == ClipCommand::From,
    ensures
        play(folder, name, files, seq![to, line1, to, line2, from], clipboard_works) == (
            seq![
                ClipActionView::AskCommand { note: Note::Plain },
                ClipActionView::AskText,
                ClipActionView::Write { path: under(folder, name), text: trimmed(line1) },
                ClipActionView::AskCommand { note: Note::Plain },
                ClipActionView::AskText,
                ClipActionView::Write { path: under(folder, name), text: trimmed(line2) },
                ClipActionView::AskCommand { note: Note::Plain },
                ClipActionView::Fetch { path: under(folder, name) },
                ClipActionView::Show { text: trimmed(line2) },
                ClipActionView::Delete { path: under(folder, name) },
                ClipActionView::AskCommand { note: Note::Plain },
            ],
            files.remove(under(folder, name)),
        ),
{
    let path = under(folder, name);
    let inputs = seq![to, line1, to, line2, from];
    let i1 = inputs.drop_first();
    let i2 = i1.drop_first();
    let i3 = i2.drop_first();
    let i4 = i3.drop_first();
    let i5 = i4.drop_first();
    assert(i1 =~= seq![line1, to, line2, from]);
    assert(i2 =~= seq![to, line2, from]);
    assert(i3 =~= seq![line2, from]);
    assert(i4 =~= seq![from]);
    assert(i5 =~= Seq::empty());
    let m = ClipView { path, state: ClipState::Prompting };
    let first = files.insert(path, trimmed(line1));
    let second = first.insert(path, trimmed(line2));
    let cleared = files.remove(path);
    assert(second.remove(path) =~= cleared);
    assert(second[path] == trimmed(line2));
    let ask = ClipActionView::AskCommand { note: Note::Plain };
    let w = clipboard_works;
    let d11 = drive(m, ask, cleared, i5, w);
    assert(d11 == (seq![ask], cleared));
    let d10 = drive(m.at(ClipState::Deleting), ClipActionView::Delete { path }, second, i5, w);
    assert(d10 == (seq![ClipActionView::Delete { path }] + d11.0, cleared));
    let d9 = drive(
        m.at(ClipState::Showing),
        ClipActionView::Show { text: trimmed(line2) },
        second,
        i5,
        w,
    );
    assert(d9 == (seq![ClipActionView::Show { text: trimmed(line2) }] + d10.0, cleared));
    let d8 = drive(m.at(ClipState::Fetching), ClipActionView::Fetch { path }, second, i5, w);
    assert(d8 == (seq![ClipActionView::Fetch { path }] + d9.0, cleared));
    let d7 = drive(m, ask, second, i4, w);
    assert(d7 == (seq![ask] + d8.0, cleared));
    let d6 = drive(
        m.at(ClipState::Writing),
        ClipActionView::Write { path, text: trimmed(line2) },
        first,
        i4,
        w,
    );
    assert(d6 == (seq![ClipActionView::Write { path, text: trimmed(line2) }] + d7.0, cleared));
    let d5 = drive(m.at(ClipState::AwaitingText), ClipActionView::AskText, first, i3, w);
    assert(d5 == (seq![ClipActionView::AskText] + d6.0, cleared));
    let d4 = drive(m, ask, first, i2, w);
    assert(d4 == (seq![ask] + d5.0, cleared));
    let d3 = drive(
        m.at(ClipState::Writing),
        ClipActionView::Write { path, text: trimmed(line1) },
        files,
        i2,
        w,
    );
    assert(d3 == (seq![ClipActionView::Write { path, text: trimmed(line1) }] + d4.0, cleared));
    let d2 = drive(m.at(ClipState::AwaitingText), ClipActionView::AskText, files, i1, w);
    assert(d2 == (seq![ClipActionView::AskText] + d3.0, cleared));
    let d1 = drive(m, ask, files, inputs, w);
    assert(d1 == (seq![ask] + d2.0, cleared));
    assert(d1.0 =~= seq![
        ClipActionView::AskCommand { note: Note::Plain },
        ClipActionView::AskText,
        ClipActionView::Write { path: under(folder, name), text: trimmed(line1) },
        ClipActionView::AskCommand { note: Note::Plain },
        ClipActionView::AskText,
        ClipActionView::Write { path: under(folder, name), text: trimmed(line2) },
        ClipActionView::AskCommand { note: Note::Plain },
        ClipActionView::Fetch { path: under(folder, name) },
        ClipActionView::Show { text: trimmed(line2) },
        ClipActionView::Delete { path: under(folder, name) },
        ClipActionView::AskCommand { note: Note::Plain },
    ]);
}

/// Taking out of an empty clipboard says that there is nothing, and asks
/// nothing more of the server.
pub proof fn lemma_from_empty(
    folder: Seq<char>,
    name: Seq<char>,
    files: Map<Seq<char>, Seq<char>>,
    from: Seq<char>,
    clipboard_works: bool,
)
    requires
        clip_command(trimmed(from)) == ClipCommand::From,
        !files.dom().contains(under(folder, name)),
    ensures
        play(folder, name, files, seq![from], clipboard_works) == (
            seq![
                ClipActionView::AskCommand { note: Note::Plain },
                ClipActionView::Fetch { path: under(folder, name) },
                ClipActionView::AskCommand { note: Note::Empty },
            ],
            files,
        ),
{
    let path = under(folder, name);
    let inputs = seq![from];
    assert(inputs.drop_first() =~= Seq::empty());
    let m = ClipView { path, state: ClipState::Prompting };
    let none = Seq::<Seq<char>>::empty();
    let w = clipboard_works;
    let d3 = drive(m, ClipActionView::AskCommand { note: Note::Empty }, files, none, w);
    assert(d3 == (seq![ClipActionView::AskCommand { note: Note::Empty }], files));
    let d2 = drive(m.at(ClipState::Fetching), ClipActionView::Fetch { path }, files, none, w);
    assert(d2 == (seq![ClipActionView::Fetch { path }] + d3.0, files));
    let d1 = drive(m, ClipActionView::AskCommand { note: Note::Plain }, files, inputs, w);
    assert(d1 == (seq![ClipActionView::AskCommand { note: Note::Plain }] + d2.0, files));
    assert(d1.0 =~= seq![
        ClipActionView::AskCommand { note: Note::Plain },
        ClipActionView::Fetch { path: under(folder, name) },
        ClipActionView::AskCommand { note: Note::Empty },
    ]);
}

impl View for Clipboard {
    type V = ClipView;

    closed spec fn view(&self) -> ClipView {
        ClipView { path: self.path@, state: self.state }
    }
}

impl Clipboard {
    /// Begins a session at the clipboard file `name` in the user's folder
    /// `folder`.
    pub fn start(folder: &str, name: &str) -> (r: (Clipboard, ClipAction))
        ensures
            (r.0@, r.1@) == ClipView::begin(folder@, name@),
    {
        (
            Clipboard { path: join(folder, name), state: ClipState::Prompting },
            ClipAction::AskCommand { note: Note::Plain },
        )
    }

    /// How far the session has come.
    pub fn state(&self) -> (r: ClipState)
        ensures
            r == self@.state,
    {
        self.state
    }

    fn at(self, state: ClipState) -> (r: Clipboard)
        ensures
            r@ == self@.at(state),
    {
        Clipboard { path: self.path, state }
    }

    /// Takes the caller's report and says what is to be done next.
    pub fn step(self, event: ClipEvent) -> (r: (Clipboard, ClipAction))
        ensures
            (r.0@, r.1@) == self@.next(event@),
    {
        match (self.state, event) {
            (ClipState::Prompting, ClipEvent::Line(l)) => {
                let choice = trim(l.as_str());
                match parse_clip_command(choice.as_str()) {
                    ClipCommand::To => (self.at(ClipState::AwaitingText), ClipAction::AskText),
                    ClipCommand::From => {
                        let path = self.path.clone();
                        (self.at(ClipState::Fetching), ClipAction::Fetch { path })
                    },
                    ClipCommand::Exit => (self.at(ClipState::Finished), ClipAction::Finish),
                    ClipCommand::Invalid => (
                        self.at(ClipState::Prompting),
                        ClipAction::AskCommand { note: Note::Rejected },
                    ),
                }
            },
            (ClipState::AwaitingText, ClipEvent::Line(l)) => {
                let path = self.path.clone();
                let text = trim(l.as_str());
                (self.at(ClipState::Writing), ClipAction::Write { path, text })
            },
            (ClipState::Writing, ClipEvent::Done) => (
                self.at(ClipState::Prompting),
                ClipAction::AskCommand { note: Note::Plain },
            ),
            (ClipState::Fetching, ClipEvent::Absent) => (
                self.at(ClipState::Prompting),
                ClipAction::AskCommand { note: Note::Empty },
            ),
            (ClipState::Fetching, ClipEvent::Contents(t)) => (
                self.at(ClipState::Showing),
                ClipAction::Show { text: t },
            ),
            (ClipState::Showing, ClipEvent::Done) => {
                let path = self.path.clone();
                (self.at(ClipState::Deleting), ClipAction::Delete { path })
            },
            (ClipState::Showing, ClipEvent::Failed) => {
                let path = self.path.clone();
                (self.at(ClipState::Deleting), ClipAction::Delete { path })
            },
            (ClipState::Deleting, ClipEvent::Done) => (
                self.at(ClipState::Prompting),
                ClipAction::AskCommand { note: Note::Plain },
            ),
            _ => (self.at(ClipState::Finished), ClipAction::Abort),
        }
    }
}

} // verus!
