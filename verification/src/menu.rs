//! The main menu: which operation runs next, and when the program ends.
//!
//! Before each operation the session is picked up again. An operation that
//! fails, or a session that cannot be picked up, is reported and the menu
//! comes back; only the user's choice to leave ends the program, or a
//! console that can no longer be read.

use crate::command::{main_command, parse_main_command, MainCommand};
use crate::text::{trim, trimmed};
use vstd::prelude::*;

verus! {

/// The three operations of the menu.
#[derive(Debug, Clone, Copy, PartialEq, Eq)]
pub enum Operation {
    Clipboard,
    Throw,
    Catch,
}

/// Where the menu stands.
#[derive(Debug, Clone, Copy, PartialEq, Eq)]
pub enum MenuState {
    /// The user's choice is awaited.
    Prompting,
    /// The session is being picked up again for this operation.
    Resuming(Operation),
    /// This operation is running.
    Running(Operation),
    /// The program is over.
    Finished,
}

/// What the user is told together with the menu.
#[derive(Debug, Clone, Copy, PartialEq, Eq)]
pub enum MenuNote {
    /// Nothing.
    Plain,
    /// The last input was no valid choice.
    Rejected,
    /// The operation that was chosen did not succeed.
    OperationFailed,
}

/// What the caller reports.
#[derive(Debug)]
pub enum MenuEvent {
    /// The user entered this line.
    Line(String),
    /// What was asked for is complete.
    Done,
    /// What was asked for could not be done.
    Failed,
}

/// A `MenuEvent` over sequences.
pub enum MenuEventView {
    Line(Seq<char>),
    Done,
    Failed,
}

impl View for MenuEvent {
    type V = MenuEventView;

    open spec fn view(&self) -> MenuEventView {
        match self {
            MenuEvent::Line(l) => MenuEventView::Line(l@),
            MenuEvent::Done => MenuEventView::Done,
            MenuEvent::Failed => MenuEventView::Failed,
        }
    }
}

/// What the caller is to do next.
#[derive(Debug, Clone, Copy, PartialEq, Eq)]
pub enum MenuAction {
    /// Tell the user what `note` says, show the menu and ask for a choice.
    Ask { note: MenuNote },
    /// Pick the session up again.
    Resume,
    /// Run this operation.
    Run(Operation),
    /// Leave the program with success.
    Exit,
    /// Leave the program with the failure that was reported.
    Abort,
}

/// The menu at its start, and the first thing to do.
pub open spec fn menu_begin() -> (MenuState, MenuAction) {
    (MenuState::Prompting, MenuAction::Ask { note: MenuNote::Plain })
}

/// The operation that a choice asks for, if it asks for one.
pub open spec fn operation_of(command: MainCommand) -> Option<Operation> {
    match command {
        MainCommand::Clipboard => Some(Operation::Clipboard),
        MainCommand::Throw => Some(Operation::Throw),
        MainCommand::Catch => Some(Operation::Catch),
        _ => None,
    }
}

/// The menu after `event`, and what is to be done then.
///
/// A line that the user enters is trimmed and read as a choice. A choice of
/// an operation has the session picked up first and the operation run if
/// that succeeded. However an operation went, the menu comes back.
pub open spec fn menu_next(state: MenuState, event: MenuEventView) -> (MenuState, MenuAction) {
    match (state, event) {
        (MenuState::Prompting, MenuEventView::Line(l)) => match main_command(trimmed(l)) {
            MainCommand::Exit => (MenuState::Finished, MenuAction::Exit),
            MainCommand::Invalid => (
                MenuState::Prompting,
                MenuAction::Ask { note: MenuNote::Rejected },
            ),
            command => (MenuState::Resuming(operation_of(command).unwrap()), MenuAction::Resume),
        },
        (MenuState::Resuming(op), MenuEventView::Done) => (
            MenuState::Running(op),
            MenuAction::Run(op),
        ),
        (MenuState::Resuming(_), MenuEventView::Failed) => (
            MenuState::Prompting,
            MenuAction::Ask { note: MenuNote::OperationFailed },
        ),
        (MenuState::Running(_), MenuEventView::Done) => (
            MenuState::Prompting,
            MenuAction::Ask { note: MenuNote::Plain },
        ),
        (MenuState::Running(_), MenuEventView::Failed) => (
            MenuState::Prompting,
            MenuAction::Ask { note: MenuNote::OperationFailed },
        ),
        _ => (MenuState::Finished, MenuAction::Abort),
    }
}

/// What the caller is asked to do, one action for each of `events`.
pub open spec fn menu_run(state: MenuState, events: Seq<MenuEventView>) -> Seq<MenuAction>
    decreases events.len(),
{
    if events.len() == 0 {
        Seq::empty()
    } else {
        seq![menu_next(state, events.first()).1] + menu_run(
            menu_next(state, events.first()).0,
            events.drop_first(),
        )
    }
}

/// A course has one action for each event.
pub proof fn lemma_menu_run_len(state: MenuState, events: Seq<MenuEventView>)
    ensures
        menu_run(state, events).len() == events.len(),
    decreases events.len(),
{
    if events.len() > 0 {
        lemma_menu_run_len(menu_next(state, events.first()).0, events.drop_first());
    }
}

/// No failure of an operation, and no failure to pick the session up, ends
/// the program: the menu comes back and says that the operation failed.
pub proof fn lemma_failure_returns_to_menu(op: Operation)
    ensures
        menu_next(MenuState::Resuming(op), MenuEventView::Failed) == (
            MenuState::Prompting,
            MenuAction::Ask { note: MenuNote::OperationFailed },
        ),
        menu_next(MenuState::Running(op), MenuEventView::Failed) == (
            MenuState::Prompting,
            MenuAction::Ask { note: MenuNote::OperationFailed },
        ),
{
}

/// The program leaves with success only on the user's choice to leave.
pub proof fn lemma_exit_is_chosen(state: MenuState, event: MenuEventView)
    requires
        menu_next(state, event).1 is Exit,
    ensures
        state is Prompting,
        event matches MenuEventView::Line(l) && main_command(trimmed(l)) == MainCommand::Exit,
{
}

/// An operation runs only in answer to the report that the session was
/// picked up for it.
proof fn lemma_run_answers_resume(state: MenuState, events: Seq<MenuEventView>, k: int)
    requires
        0 <= k < events.len(),
        menu_run(state, events)[k] is Run,
    ensures
        events[k] == MenuEventView::Done,
        k == 0 ==> state is Resuming,
        k > 0 ==> menu_run(state, events)[k - 1] is Resume,
    decreases events.len(),
{
    let first = menu_next(state, events.first());
    let rest = events.drop_first();
    lemma_menu_run_len(first.0, rest);
    if k > 0 {
        assert(menu_run(state, events)[k] == menu_run(first.0, rest)[k - 1]);
        assert(events[k] == rest[k - 1]);
        lemma_run_answers_resume(first.0, rest, k - 1);
        if k > 1 {
            assert(menu_run(state, events)[k - 1] == menu_run(first.0, rest)[k - 2]);
        }
    }
}

/// In every course that the menu can take, each run of an operation follows
/// at once on picking the session up, and only if that succeeded.
pub proof fn lemma_resumes_before_each_operation(events: Seq<MenuEventView>, k: int)
    requires
        0 <= k < events.len(),
        menu_run(menu_begin().0, events)[k] is Run,
    ensures
        k > 0,
        events[k] == MenuEventView::Done,
        menu_run(menu_begin().0, events)[k - 1] is Resume,
{
    lemma_run_answers_resume(menu_begin().0, events, k);
}

/// Begins the menu.
pub fn begin() -> (r: (MenuState, MenuAction))
    ensures
        r == menu_begin(),
{
    (MenuState::Prompting, MenuAction::Ask { note: MenuNote::Plain })
}

/// Takes the caller's report and says what is to be done next.
pub fn step(state: MenuState, event: MenuEvent) -> (r: (MenuState, MenuAction))
    ensures
        r == menu_next(state, event@),
{
    match (state, event) {
        (MenuState::Prompting, MenuEvent::Line(l)) => {
            let choice = trim(l.as_str());
            match parse_main_command(choice.as_str()) {
                MainCommand::Clipboard => (
                    MenuState::Resuming(Operation::Clipboard),
                    MenuAction::Resume,
                ),
                MainCommand::Throw => (MenuState::Resuming(Operation::Throw), MenuAction::Resume),
                MainCommand::Catch => (MenuState::Resuming(Operation::Catch), MenuAction::Resume),
                MainCommand::Exit => (MenuState::Finished, MenuAction::Exit),
                MainCommand::Invalid => (
                    MenuState::Prompting,
                    MenuAction::Ask { note: MenuNote::Rejected },
                ),
            }
        },
        (MenuState::Resuming(op), MenuEvent::Done) => (MenuState::Running(op), MenuAction::Run(op)),
        (MenuState::Resuming(_), MenuEvent::Failed) => (
            MenuState::Prompting,
            MenuAction::Ask { note: MenuNote::OperationFailed },
        ),
        (MenuState::Running(_), MenuEvent::Done) => (
            MenuState::Prompting,
            MenuAction::Ask { note: MenuNote::Plain },
        ),
        (MenuState::Running(_), MenuEvent::Failed) => (
            MenuState::Prompting,
            MenuAction::Ask { note: MenuNote::OperationFailed },
        ),
        _ => (MenuState::Finished, MenuAction::Abort),
    }
}

} // verus!
