//! Picking a session up again before an operation.
//!
//! A server may drop a session that sat idle. Before each operation the
//! caller asks the session whether it is still authenticated and hands the
//! answer to `begin`. A live session is left alone. A lapsed one is
//! authenticated again, once, and then given a new file-transfer channel.

use vstd::prelude::*;

verus! {

/// How far a resumption has come.
#[derive(Debug, Clone, Copy, PartialEq, Eq)]
pub enum ResumeState {
    /// The outcome of the authentication is awaited.
    Authenticating,
    /// The outcome of opening the file-transfer channel is awaited.
    Opening,
    /// Nothing more is to be done.
    Finished,
}

/// What the caller is to do next.
#[derive(Debug, Clone, Copy, PartialEq, Eq)]
pub enum ResumeAction {
    /// Authenticate the session with the user's name and password.
    Authenticate,
    /// Open a file-transfer channel on the session.
    OpenChannel,
    /// End, and keep the channel that was in use.
    Keep,
    /// End, and use the channel that was just opened.
    Replace,
    /// End with the failure that was reported.
    Abort,
}

impl ResumeAction {
    /// Whether the action goes to the server.
    pub open spec fn is_network_call(self) -> bool {
        self is Authenticate || self is OpenChannel
    }
}

/// The first thing to do for a session that reports `authenticated`.
pub open spec fn resume_begin(authenticated: bool) -> (ResumeState, ResumeAction) {
    if authenticated {
        (ResumeState::Finished, ResumeAction::Keep)
    } else {
        (ResumeState::Authenticating, ResumeAction::Authenticate)
    }
}

/// The resumption after the report `ok` on what was asked, and what is to be
/// done then.
pub open spec fn resume_next(state: ResumeState, ok: bool) -> (ResumeState, ResumeAction) {
    match state {
        ResumeState::Authenticating => if ok {
            (ResumeState::Opening, ResumeAction::OpenChannel)
        } else {
            (ResumeState::Finished, ResumeAction::Abort)
        },
        ResumeState::Opening => if ok {
            (ResumeState::Finished, ResumeAction::Replace)
        } else {
            (ResumeState::Finished, ResumeAction::Abort)
        },
        ResumeState::Finished => (ResumeState::Finished, ResumeAction::Abort),
    }
}

/// What the caller is asked to do, one action for each report of `oks`.
pub open spec fn resume_run(state: ResumeState, oks: Seq<bool>) -> Seq<ResumeAction>
    decreases oks.len(),
{
    if oks.len() == 0 {
        Seq::empty()
    } else {
        seq![resume_next(state, oks.first()).1] + resume_run(
            resume_next(state, oks.first()).0,
            oks.drop_first(),
        )
    }
}

/// All that the caller is asked to do for a session that reports
/// `authenticated` and then answers with `oks`.
pub open spec fn resume_course(authenticated: bool, oks: Seq<bool>) -> Seq<ResumeAction> {
    seq![resume_begin(authenticated).1] + resume_run(resume_begin(authenticated).0, oks)
}

/// A course has one action for each report.
pub proof fn lemma_resume_run_len(state: ResumeState, oks: Seq<bool>)
    ensures
        resume_run(state, oks).len() == oks.len(),
    decreases oks.len(),
{
    if oks.len() > 0 {
        lemma_resume_run_len(resume_next(state, oks.first()).0, oks.drop_first());
    }
}

/// No step asks for an authentication, and only the step that follows a
/// successful authentication asks for a channel.
proof fn lemma_resume_run_calls(state: ResumeState, oks: Seq<bool>, k: int)
    requires
        0 <= k < oks.len(),
    ensures
        !(resume_run(state, oks)[k] is Authenticate),
        resume_run(state, oks)[k] is OpenChannel ==> k == 0 && state is Authenticating,
        state is Finished ==> resume_run(state, oks)[k] is Abort,
    decreases oks.len(),
{
    lemma_resume_run_len(resume_next(state, oks.first()).0, oks.drop_first());
    if k > 0 {
        lemma_resume_run_calls(resume_next(state, oks.first()).0, oks.drop_first(), k - 1);
    }
}

/// A session that is still authenticated is left alone: whatever is reported
/// afterwards, nothing is ever asked of the server, and the channel in use is
/// kept.
pub proof fn lemma_live_session_is_kept(oks: Seq<bool>, k: int)
    requires
        0 <= k <= oks.len(),
    ensures
        resume_course(true, oks)[0] == ResumeAction::Keep,
        !resume_course(true, oks)[k].is_network_call(),
{
    lemma_resume_run_len(ResumeState::Finished, oks);
    if k > 0 {
        lemma_resume_run_calls(ResumeState::Finished, oks, k - 1);
    }
}

/// A session that is no longer authenticated is authenticated exactly once,
/// as the first thing, whatever is reported afterwards.
pub proof fn lemma_lapsed_session_authenticates_once(oks: Seq<bool>, k: int)
    requires
        0 <= k <= oks.len(),
    ensures
        resume_course(false, oks)[k] is Authenticate <==> k == 0,
{
    lemma_resume_run_len(ResumeState::Authenticating, oks);
    if k > 0 {
        lemma_resume_run_calls(ResumeState::Authenticating, oks, k - 1);
    }
}

/// Where the authentication and the opening of the channel both succeed, a
/// lapsed session ends with a new channel; where either fails, it ends with
/// that failure.
pub proof fn lemma_lapsed_session_outcome(auth_ok: bool, open_ok: bool)
    ensures
        resume_course(false, seq![auth_ok, open_ok]) == if auth_ok && open_ok {
            seq![ResumeAction::Authenticate, ResumeAction::OpenChannel, ResumeAction::Replace]
        } else if auth_ok {
            seq![ResumeAction::Authenticate, ResumeAction::OpenChannel, ResumeAction::Abort]
        } else {
            seq![ResumeAction::Authenticate, ResumeAction::Abort, ResumeAction::Abort]
        },
{
    let oks = seq![auth_ok, open_ok];
    let s1 = resume_next(ResumeState::Authenticating, auth_ok).0;
    let s2 = resume_next(s1, open_ok).0;
    assert(oks.drop_first() =~= seq![open_ok]);
    assert(oks.drop_first().drop_first() =~= Seq::<bool>::empty());
    assert(resume_run(s2, Seq::<bool>::empty()) =~= Seq::<ResumeAction>::empty());
    assert(resume_run(s1, seq![open_ok]) =~= seq![resume_next(s1, open_ok).1]);
    assert(resume_run(ResumeState::Authenticating, oks) =~= seq![
        resume_next(ResumeState::Authenticating, auth_ok).1,
        resume_next(s1, open_ok).1,
    ]);
}

/// Begins a resumption for a session that reports `authenticated`.
pub fn begin(authenticated: bool) -> (r: (ResumeState, ResumeAction))
    ensures
        r == resume_begin(authenticated),
{
    if authenticated {
        (ResumeState::Finished, ResumeAction::Keep)
    } else {
        (ResumeState::Authenticating, ResumeAction::Authenticate)
    }
}

/// Takes the report `ok` on what was asked and says what is to be done next.
pub fn step(state: ResumeState, ok: bool) -> (r: (ResumeState, ResumeAction))
    ensures
        r == resume_next(state, ok),
{
    match state {
        ResumeState::Authenticating => if ok {
            (ResumeState::Opening, ResumeAction::OpenChannel)
        } else {
            (ResumeState::Finished, ResumeAction::Abort)
        },
        ResumeState::Opening => if ok {
            (ResumeState::Finished, ResumeAction::Replace)
        } else {
            (ResumeState::Finished, ResumeAction::Abort)
        },
        ResumeState::Finished => (ResumeState::Finished, ResumeAction::Abort),
    }
}

} // verus!
