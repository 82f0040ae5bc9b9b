use vstd::prelude::*;

verus! {

/// Where one listening session stands.
#[derive(Debug, Clone, Copy, PartialEq, Eq, Structural)]
pub enum SessionState {
    /// The interceptor is being installed.
    Installing,
    /// The interceptor with this handle is installed and its messages pumped.
    Active(isize),
    /// The interceptor could not be installed; nothing was published.
    Failed,
    /// The session is over and its interceptor removed.
    Uninstalled,
}

/// What happened to a session.
#[derive(Debug, Clone, Copy, PartialEq, Eq, Structural)]
pub enum SessionEvent {
    /// The platform answered the request to install the interceptor: the
    /// handle, or none. A zero handle is no interceptor.
    InstallAnswered(Option<isize>),
    /// The message loop ended; `still_installed` tells whether the session's
    /// interceptor had not been removed already.
    MessageLoopEnded { still_installed: bool },
}

/// What the session's thread is to do next.
#[derive(Debug, Clone, Copy, PartialEq, Eq, Structural)]
pub enum SessionAction {
    /// Publish a record for this handle and pump messages.
    Publish(isize),
    /// Report that the chord could not be installed, and end.
    ReportFailure,
    /// Remove the interceptor with this handle, and end.
    Unhook(isize),
    /// Nothing to do.
    Nothing,
}

/// The session's next state and action.
pub open spec fn session_next(state: SessionState, event: SessionEvent) -> (SessionState, SessionAction) {
    match (state, event) {
        (SessionState::Installing, SessionEvent::InstallAnswered(Some(h))) =>
            if h != 0 {
                (SessionState::Active(h), SessionAction::Publish(h))
            } else {
                (SessionState::Failed, SessionAction::ReportFailure)
            },
        (SessionState::Installing, SessionEvent::InstallAnswered(None)) =>
            (SessionState::Failed, SessionAction::ReportFailure),
        (SessionState::Active(h), SessionEvent::MessageLoopEnded { still_installed }) =>
            (SessionState::Uninstalled, if still_installed { SessionAction::Unhook(h) } else { SessionAction::Nothing }),
        _ => (state, SessionAction::Nothing),
    }
}

/// Moves a session on by one event.
pub fn session_step(state: SessionState, event: SessionEvent) -> (r: (SessionState, SessionAction))
    ensures
        r == session_next(state, event),
{
    match (state, event) {
        (SessionState::Installing, SessionEvent::InstallAnswered(Some(h))) => {
            if h != 0 {
                (SessionState::Active(h), SessionAction::Publish(h))
            } else {
                (SessionState::Failed, SessionAction::ReportFailure)
            }
        },
        (SessionState::Installing, SessionEvent::InstallAnswered(None)) => {
            (SessionState::Failed, SessionAction::ReportFailure)
        },
        (SessionState::Active(h), SessionEvent::MessageLoopEnded { still_installed }) => {
            if still_installed {
                (SessionState::Uninstalled, SessionAction::Unhook(h))
            } else {
                (SessionState::Uninstalled, SessionAction::Nothing)
            }
        },
        _ => (state, SessionAction::Nothing),
    }
}

/// An interceptor is removed at most once: a session that has removed its
/// interceptor, or never had one, asks for no removal whatever comes next.
pub proof fn lemma_unhook_at_most_once(state: SessionState, event: SessionEvent)
    requires
        !(state is Active),
    ensures
        !(session_next(state, event).1 is Unhook),
{
}

} // verus!
