//! The decisions of the task that owns the one live connection: which work a
//! command calls for in each state, and which state follows its outcome.

use vstd::prelude::*;

verus! {

/// The state of the owned connection.
#[derive(Clone, Copy, Debug, PartialEq, Eq, Structural)]
pub enum SessionState {
    Disconnected,
    Connected,
    Capturing,
}

/// A command, as far as the decisions need it.
#[derive(Clone, Copy, Debug, PartialEq, Eq, Structural)]
pub enum Request {
    Connect,
    Disconnect,
    StartCapture,
    StopCapture,
}

/// The work that a command calls for.
#[derive(Clone, Copy, Debug, PartialEq, Eq, Structural)]
pub enum Action {
    /// Nothing to do; the command succeeds.
    Accept,
    /// The command is refused: it needs the state named here.
    Reject(SessionState),
    /// Resolve the address and open a connection.
    Establish,
    /// Start capturing on the connection.
    BeginCapture,
    /// Stop capturing.
    EndCapture,
    /// Drop the connection, stopping a capture first when `stop_capture` holds.
    Release { stop_capture: bool },
}

/// The work that `request` calls for in `state`. A second `Connect` while a
/// connection is open is refused rather than replacing it.
pub open spec fn action_of(state: SessionState, request: Request) -> Action {
    match request {
        Request::Connect => match state {
            SessionState::Disconnected => Action::Establish,
            _ => Action::Reject(SessionState::Disconnected),
        },
        Request::Disconnect => match state {
            SessionState::Disconnected => Action::Accept,
            SessionState::Connected => Action::Release { stop_capture: false },
            SessionState::Capturing => Action::Release { stop_capture: true },
        },
        Request::StartCapture => match state {
            SessionState::Connected => Action::BeginCapture,
            _ => Action::Reject(SessionState::Connected),
        },
        Request::StopCapture => match state {
            SessionState::Capturing => Action::EndCapture,
            _ => Action::Reject(SessionState::Capturing),
        },
    }
}

/// The state after `action`, taken in `state`, succeeded or failed. A
/// capture always ends, and a connection is always released.
pub open spec fn next_state(state: SessionState, action: Action, succeeded: bool) -> SessionState {
    match action {
        Action::Accept => state,
        Action::Reject(_) => state,
        Action::Establish => if succeeded {
            SessionState::Connected
        } else {
            SessionState::Disconnected
        },
        Action::BeginCapture => if succeeded {
            SessionState::Capturing
        } else {
            SessionState::Connected
        },
        Action::EndCapture => SessionState::Connected,
        Action::Release { .. } => SessionState::Disconnected,
    }
}

/// Whether the reply to a command whose work was `action` reports success.
/// Releasing a connection cannot fail.
pub open spec fn reply_succeeds(action: Action, succeeded: bool) -> bool {
    match action {
        Action::Accept => true,
        Action::Reject(_) => false,
        Action::Release { .. } => true,
        _ => succeeded,
    }
}

/// The work that `request` calls for in `state`.
pub fn action_for(state: SessionState, request: Request) -> (r: Action)
    ensures
        r == action_of(state, request),
{
    match request {
        Request::Connect => match state {
            SessionState::Disconnected => Action::Establish,
            _ => Action::Reject(SessionState::Disconnected),
        },
        Request::Disconnect => match state {
            SessionState::Disconnected => Action::Accept,
            SessionState::Connected => Action::Release { stop_capture: false },
            SessionState::Capturing => Action::Release { stop_capture: true },
        },
        Request::StartCapture => match state {
            SessionState::Connected => Action::BeginCapture,
            _ => Action::Reject(SessionState::Connected),
        },
        Request::StopCapture => match state {
            SessionState::Capturing => Action::EndCapture,
            _ => Action::Reject(SessionState::Capturing),
        },
    }
}

/// The state after `action`, taken in `state`, succeeded or failed.
pub fn state_after(state: SessionState, action: Action, succeeded: bool) -> (r: SessionState)
    ensures
        r == next_state(state, action, succeeded),
{
    match action {
        Action::Accept => state,
        Action::Reject(_) => state,
        Action::Establish => if succeeded {
            SessionState::Connected
        } else {
            SessionState::Disconnected
        },
        Action::BeginCapture => if succeeded {
            SessionState::Capturing
        } else {
            SessionState::Connected
        },
        Action::EndCapture => SessionState::Connected,
        Action::Release { .. } => SessionState::Disconnected,
    }
}

/// Whether the reply to a command whose work was `action` reports success.
pub fn reply_ok(action: Action, succeeded: bool) -> (r: bool)
    ensures
        r == reply_succeeds(action, succeeded),
{
    match action {
        Action::Accept => true,
        Action::Reject(_) => false,
        Action::Release { .. } => true,
        _ => succeeded,
    }
}

/// The name of `state`.
pub open spec fn state_name(state: SessionState) -> Seq<char> {
    match state {
        SessionState::Disconnected => "Disconnected"@,
        SessionState::Connected => "Connected"@,
        SessionState::Capturing => "Capturing"@,
    }
}

/// The message for a command refused because it needs `required`.
pub fn invalid_state_message(required: SessionState) -> (r: String)
    ensures
        r@ == "Invalid state: the command needs the state "@ + state_name(required),
{
    let mut r = String::from_str("Invalid state: the command needs the state ");
    match required {
        SessionState::Disconnected => r.append("Disconnected"),
        SessionState::Connected => r.append("Connected"),
        SessionState::Capturing => r.append("Capturing"),
    }
    r
}

/// The connection's state, kept by the one task that owns the connection.
#[derive(Debug)]
pub struct Session {
    state: SessionState,
}

impl Session {
    pub closed spec fn view_state(&self) -> SessionState {
        self.state
    }

    /// A session with no connection.
    pub fn new() -> (r: Session)
        ensures
            r.view_state() == SessionState::Disconnected,
    {
        Session { state: SessionState::Disconnected }
    }

    pub fn state(&self) -> (r: SessionState)
        ensures
            r == self.view_state(),
    {
        self.state
    }

    /// The work that `request` calls for now.
    pub fn begin(&self, request: Request) -> (r: Action)
        ensures
            r == action_of(self.view_state(), request),
    {
        action_for(self.state, request)
    }

    /// Records the outcome of `action`, begun in the current state.
    pub fn finish(&mut self, action: Action, succeeded: bool)
        ensures
            final(self).view_state() == next_state(old(self).view_state(), action, succeeded),
    {
        self.state = state_after(self.state, action, succeeded);
    }
}

/// Starting a capture needs an open connection; a capture started on one
/// ends back on it, whether stopping succeeds or not; and disconnecting
/// while capturing succeeds and leaves no connection.
pub proof fn lemma_capture_lifecycle(stop_succeeded: bool, release_succeeded: bool)
    ensures
        action_of(SessionState::Disconnected, Request::StartCapture) == Action::Reject(
            SessionState::Connected,
        ),
        !reply_succeeds(action_of(SessionState::Disconnected, Request::StartCapture), true),
        next_state(
            SessionState::Disconnected,
            action_of(SessionState::Disconnected, Request::StartCapture),
            true,
        ) == SessionState::Disconnected,
        ({
            let start = action_of(SessionState::Connected, Request::StartCapture);
            let capturing = next_state(SessionState::Connected, start, true);
            let stop = action_of(capturing, Request::StopCapture);
            &&& reply_succeeds(start, true)
            &&& capturing == SessionState::Capturing
            &&& next_state(capturing, stop, stop_succeeded) == SessionState::Connected
        }),
        ({
            let release = action_of(SessionState::Capturing, Request::Disconnect);
            &&& release == Action::Release { stop_capture: true }
            &&& reply_succeeds(release, release_succeeded)
            &&& next_state(SessionState::Capturing, release, release_succeeded)
                == SessionState::Disconnected
        }),
{
}

/// Two `Disconnect` commands in a row both succeed, from any state and
/// whatever the work of the first reported.
pub proof fn lemma_disconnect_twice(state: SessionState, first_ok: bool, second_ok: bool)
    ensures
        ({
            let first = action_of(state, Request::Disconnect);
            let after = next_state(state, first, first_ok);
            let second = action_of(after, Request::Disconnect);
            &&& reply_succeeds(first, first_ok)
            &&& reply_succeeds(second, second_ok)
            &&& next_state(after, second, second_ok) == SessionState::Disconnected
        }),
{
}

} // verus!
