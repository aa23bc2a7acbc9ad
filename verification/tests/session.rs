use sftp_tube::session::{begin, step, ResumeAction, ResumeState};

// Picks a session up against a server on which authentication and channel
// opening go as given; returns what was asked of the server and the end.
fn resume(authenticated: bool, auth_ok: bool, open_ok: bool) -> (Vec<ResumeAction>, ResumeAction) {
    let mut calls = Vec::new();
    let (mut state, mut action) = begin(authenticated);
    loop {
        let ok = match action {
            ResumeAction::Authenticate => auth_ok,
            ResumeAction::OpenChannel => open_ok,
            _ => {
                assert_eq!(state, ResumeState::Finished);
                return (calls, action);
            }
        };
        calls.push(action);
        (state, action) = step(state, ok);
    }
}

#[test]
fn live_session_needs_no_network_call() {
    assert_eq!(begin(true), (ResumeState::Finished, ResumeAction::Keep));
    for auth_ok in [false, true] {
        for open_ok in [false, true] {
            assert_eq!(resume(true, auth_ok, open_ok), (vec![], ResumeAction::Keep));
        }
    }
}

#[test]
fn lapsed_session_is_authenticated_once_and_gets_a_new_channel() {
    assert_eq!(begin(false), (ResumeState::Authenticating, ResumeAction::Authenticate));
    assert_eq!(
        resume(false, true, true),
        (vec![ResumeAction::Authenticate, ResumeAction::OpenChannel], ResumeAction::Replace)
    );
}

#[test]
fn failed_authentication_ends_the_resumption() {
    assert_eq!(resume(false, false, true), (vec![ResumeAction::Authenticate], ResumeAction::Abort));
    assert_eq!(resume(false, false, false), (vec![ResumeAction::Authenticate], ResumeAction::Abort));
}

#[test]
fn failed_channel_ends_the_resumption() {
    assert_eq!(
        resume(false, true, false),
        (vec![ResumeAction::Authenticate, ResumeAction::OpenChannel], ResumeAction::Abort)
    );
}

#[test]
fn resumption_steps_one_by_one() {
    assert_eq!(
        step(ResumeState::Authenticating, true),
        (ResumeState::Opening, ResumeAction::OpenChannel)
    );
    assert_eq!(step(ResumeState::Authenticating, false), (ResumeState::Finished, ResumeAction::Abort));
    assert_eq!(step(ResumeState::Opening, true), (ResumeState::Finished, ResumeAction::Replace));
    assert_eq!(step(ResumeState::Opening, false), (ResumeState::Finished, ResumeAction::Abort));
    assert_eq!(step(ResumeState::Finished, true), (ResumeState::Finished, ResumeAction::Abort));
    assert_eq!(step(ResumeState::Finished, false), (ResumeState::Finished, ResumeAction::Abort));
}
