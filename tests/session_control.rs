use simple_sql_profiler::config::{plan_connection, ConnectionConfig, EncryptionPolicy};
use simple_sql_profiler::session::{
    action_for, invalid_state_message, reply_ok, state_after, Action, Request, Session, SessionState,
};

/// Runs one command through `session` with the given outcome of its work,
/// returning whether the reply reports success.
fn run(session: &mut Session, request: Request, work_ok: bool) -> bool {
    let action = session.begin(request);
    session.finish(action, work_ok);
    reply_ok(action, work_ok)
}

#[test]
fn new_session_is_disconnected() {
    assert_eq!(Session::new().state(), SessionState::Disconnected);
}

#[test]
fn start_capture_needs_a_connection() {
    let mut s = Session::new();
    assert_eq!(
        s.begin(Request::StartCapture),
        Action::Reject(SessionState::Connected)
    );
    assert!(!run(&mut s, Request::StartCapture, true));
    assert_eq!(s.state(), SessionState::Disconnected);
}

#[test]
fn stop_capture_needs_a_capture() {
    assert_eq!(
        action_for(SessionState::Connected, Request::StopCapture),
        Action::Reject(SessionState::Capturing)
    );
    assert_eq!(
        action_for(SessionState::Disconnected, Request::StopCapture),
        Action::Reject(SessionState::Capturing)
    );
}

#[test]
fn start_then_stop_returns_to_connected() {
    let mut s = Session::new();
    assert!(run(&mut s, Request::Connect, true));
    assert!(run(&mut s, Request::StartCapture, true));
    assert_eq!(s.state(), SessionState::Capturing);
    assert!(run(&mut s, Request::StopCapture, true));
    assert_eq!(s.state(), SessionState::Connected);
}

#[test]
fn failed_stop_still_returns_to_connected() {
    assert_eq!(
        state_after(SessionState::Capturing, Action::EndCapture, false),
        SessionState::Connected
    );
    assert!(!reply_ok(Action::EndCapture, false));
}

#[test]
fn failed_start_stays_connected() {
    let mut s = Session::new();
    run(&mut s, Request::Connect, true);
    assert!(!run(&mut s, Request::StartCapture, false));
    assert_eq!(s.state(), SessionState::Connected);
}

#[test]
fn disconnect_while_capturing_stops_and_releases() {
    let mut s = Session::new();
    run(&mut s, Request::Connect, true);
    run(&mut s, Request::StartCapture, true);
    assert_eq!(
        s.begin(Request::Disconnect),
        Action::Release { stop_capture: true }
    );
    assert!(run(&mut s, Request::Disconnect, false));
    assert_eq!(s.state(), SessionState::Disconnected);
}

#[test]
fn disconnect_twice_succeeds_both_times() {
    let mut s = Session::new();
    run(&mut s, Request::Connect, true);
    assert!(run(&mut s, Request::Disconnect, true));
    assert!(run(&mut s, Request::Disconnect, true));
    assert_eq!(s.state(), SessionState::Disconnected);
    assert_eq!(s.begin(Request::Disconnect), Action::Accept);
}

#[test]
fn failed_connect_stays_disconnected() {
    let mut s = Session::new();
    assert!(!run(&mut s, Request::Connect, false));
    assert_eq!(s.state(), SessionState::Disconnected);
    assert_eq!(s.begin(Request::Connect), Action::Establish);
}

#[test]
fn second_connect_is_refused() {
    let mut s = Session::new();
    run(&mut s, Request::Connect, true);
    assert_eq!(
        s.begin(Request::Connect),
        Action::Reject(SessionState::Disconnected)
    );
    assert!(!run(&mut s, Request::Connect, true));
    assert_eq!(s.state(), SessionState::Connected);
}

#[test]
fn named_instance_scenario_reaches_capturing() {
    let config = ConnectionConfig {
        server_name: "db01\\SQLEXPRESS".to_string(),
        authentication: "sql".to_string(),
        username: "u".to_string(),
        password: "p".to_string(),
        database: String::new(),
        encrypt: "strict".to_string(),
        trust_cert: false,
    };
    let plan = plan_connection(&config).expect("plan");
    assert_eq!(plan.address.host, "db01");
    assert_eq!(plan.address.port, 1434);
    assert_eq!(plan.address.instance, Some("SQLEXPRESS".to_string()));
    assert_eq!(plan.encryption, EncryptionPolicy::Required);

    let mut s = Session::new();
    let action = s.begin(Request::Connect);
    assert_eq!(action, Action::Establish);
    s.finish(action, true);
    assert_eq!(s.state(), SessionState::Connected);
    assert!(run(&mut s, Request::StartCapture, true));
    assert_eq!(s.state(), SessionState::Capturing);
}

#[test]
fn invalid_state_message_names_required_state() {
    assert_eq!(
        invalid_state_message(SessionState::Connected),
        "Invalid state: the command needs the state Connected"
    );
    assert_eq!(
        invalid_state_message(SessionState::Capturing),
        "Invalid state: the command needs the state Capturing"
    );
    assert_eq!(
        invalid_state_message(SessionState::Disconnected),
        "Invalid state: the command needs the state Disconnected"
    );
}
