//! Making sure that the user's remote folder is there.
//!
//! Two folders are asked for, one after the other: the scratch folder that
//! all users share and, in it, the folder of the user. Whether the server
//! creates a folder or refuses, the next step is the same: a folder that is
//! already there is no obstacle.

use crate::config::{Config, ConfigView};
use crate::layout::{shared_dir, shared_path, user_dir, user_path, DIR_MODE};
use vstd::prelude::*;

verus! {

/// How far the bootstrap has come.
#[derive(Debug, Clone, Copy, PartialEq, Eq)]
pub enum BootState {
    /// The answer on the shared scratch folder is awaited.
    Shared,
    /// The answer on the user's folder is awaited.
    User,
    /// Nothing more is to be done.
    Finished,
}

/// What the caller is to do next.
#[derive(Debug, PartialEq, Eq)]
pub enum BootAction {
    /// Ask the server to create the folder `path` with the permissions `mode`.
    Mkdir { path: String, mode: i32 },
    /// End: `folder` is the user's folder, the base of all that follows.
    Done { folder: String },
}

/// A `BootAction` over sequences.
pub enum BootActionView {
    Mkdir { path: Seq<char>, mode: i32 },
    Done { folder: Seq<char> },
}

impl View for BootAction {
    type V = BootActionView;

    open spec fn view(&self) -> BootActionView {
        match self {
            BootAction::Mkdir { path, mode } => BootActionView::Mkdir { path: path@, mode: *mode },
            BootAction::Done { folder } => BootActionView::Done { folder: folder@ },
        }
    }
}

/// A bootstrap in progress.
pub struct Bootstrap {
    folder: String,
    state: BootState,
}

/// A `Bootstrap` over sequences.
pub struct BootView {
    /// The user's folder.
    pub folder: Seq<char>,
    pub state: BootState,
}

impl BootView {
    /// The bootstrap for `user` at its start, and the first thing to do: to
    /// ask for the shared scratch folder.
    pub open spec fn begin(c: ConfigView, user: Seq<char>) -> (BootView, BootActionView) {
        (
            BootView { folder: user_path(c, user), state: BootState::Shared },
            BootActionView::Mkdir { path: shared_path(c), mode: DIR_MODE },
        )
    }

    /// The bootstrap after the server's answer, and what is to be done then.
    /// The answer itself changes nothing.
    pub open spec fn next(self, created: bool) -> (BootView, BootActionView) {
        match self.state {
            BootState::Shared => (
                BootView { state: BootState::User, ..self },
                BootActionView::Mkdir { path: self.folder, mode: DIR_MODE },
            ),
            _ => (
                BootView { state: BootState::Finished, ..self },
                BootActionView::Done { folder: self.folder },
            ),
        }
    }
}

/// How a server that holds the folders `dirs` answers an action, and the
/// folders that it holds then. Asked for a folder that it lacks it creates
/// the folder and reports success; asked for one that it has it refuses and
/// changes nothing.
pub open spec fn serve(action: BootActionView, dirs: Set<Seq<char>>) -> (bool, Set<Seq<char>>) {
    match action {
        BootActionView::Mkdir { path, .. } => (!dirs.contains(path), dirs.insert(path)),
        BootActionView::Done { .. } => (true, dirs),
    }
}

/// A whole bootstrap for `user` against a server that holds the folders
/// `dirs`: how it ends, and the folders that the server holds then.
pub open spec fn settle(c: ConfigView, user: Seq<char>, dirs: Set<Seq<char>>) -> (
    BootActionView,
    Set<Seq<char>>,
) {
    let first = BootView::begin(c, user);
    let answer1 = serve(first.1, dirs);
    let second = first.0.next(answer1.0);
    let answer2 = serve(second.1, answer1.1);
    (second.0.next(answer2.0).1, answer2.1)
}

/// Whatever the server answers, both folders are asked for, the shared one
/// first, and the bootstrap ends with the user's folder: no answer is taken
/// for an error.
pub proof fn lemma_answers_change_nothing(
    c: ConfigView,
    user: Seq<char>,
    created1: bool,
    created2: bool,
)
    ensures
        BootView::begin(c, user).1 == (BootActionView::Mkdir {
            path: shared_path(c),
            mode: DIR_MODE,
        }),
        BootView::begin(c, user).0.next(created1).1 == (BootActionView::Mkdir {
            path: user_path(c, user),
            mode: DIR_MODE,
        }),
        BootView::begin(c, user).0.next(created1).0.next(created2).1 == (BootActionView::Done {
            folder: user_path(c, user),
        }),
{
}

/// Bootstrapping twice in a row for the same user is the same as doing it
/// once: the second time ends as the first did, with the same folder, and
/// leaves the server's folders as they were.
pub proof fn lemma_bootstrap_twice(c: ConfigView, user: Seq<char>, dirs: Set<Seq<char>>)
    ensures
        settle(c, user, dirs).0 == (BootActionView::Done { folder: user_path(c, user) }),
        settle(c, user, dirs).1 == dirs.insert(shared_path(c)).insert(user_path(c, user)),
        settle(c, user, settle(c, user, dirs).1) == settle(c, user, dirs),
{
    let once = dirs.insert(shared_path(c)).insert(user_path(c, user));
    assert(once.insert(shared_path(c)).insert(user_path(c, user)) =~= once);
}

impl View for Bootstrap {
    type V = BootView;

    closed spec fn view(&self) -> BootView {
        BootView { folder: self.folder@, state: self.state }
    }
}

impl Bootstrap {
    /// Begins the bootstrap for the user `username`.
    pub fn start(config: &Config, username: &str) -> (r: (Bootstrap, BootAction))
        ensures
            (r.0@, r.1@) == BootView::begin(config@, username@),
    {
        (
            Bootstrap { folder: user_dir(config, username), state: BootState::Shared },
            BootAction::Mkdir { path: shared_dir(config), mode: DIR_MODE },
        )
    }

    /// Takes the server's answer and says what is to be done next.
    pub fn step(self, created: bool) -> (r: (Bootstrap, BootAction))
        ensures
            (r.0@, r.1@) == self@.next(created),
    {
        match self.state {
            BootState::Shared => {
                let path = self.folder.clone();
                (
                    Bootstrap { folder: self.folder, state: BootState::User },
                    BootAction::Mkdir { path, mode: DIR_MODE },
                )
            },
            _ => {
                let folder = self.folder.clone();
                (
                    Bootstrap { folder: self.folder, state: BootState::Finished },
                    BootAction::Done { folder },
                )
            },
        }
    }
}

} // verus!
