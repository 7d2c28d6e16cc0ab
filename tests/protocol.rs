use relay::protocol::{
    call_tool_request, classify_line, describe_failure, extract_result, initialize_request,
    initialized_notification, list_tools_request, scan_events, scan_lines, domain_result, error_text,
    DomainRequest, ExchangeError, InspectionSession, LineKind, ReadEvent, ResponseScanner,
    ScanStep, SessionAction, SessionPhase, ATTEMPT_BUDGET,
};

fn noisy_stream(k: usize) -> Vec<String> {
    let mut lines: Vec<String> = (0..k).map(|i| format!("starting up, step {}", i)).collect();
    lines.push("{\"jsonrpc\":\"2.0\",\"id\":1,\"result\":{}}".to_string());
    lines
}

#[test]
fn nineteen_noise_lines_then_response_succeeds() {
    assert_eq!(scan_lines(&noisy_stream(19), ATTEMPT_BUDGET), Ok(19));
}

#[test]
fn twenty_one_noise_lines_time_out() {
    assert_eq!(scan_lines(&noisy_stream(21), ATTEMPT_BUDGET), Err(ExchangeError::Timeout));
}

#[test]
fn twenty_noise_lines_exhaust_the_budget() {
    assert_eq!(scan_lines(&noisy_stream(20), ATTEMPT_BUDGET), Err(ExchangeError::Timeout));
}

#[test]
fn json_without_marker_is_noise() {
    let lines = vec![
        "{\"level\":\"info\",\"msg\":\"ready\"}".to_string(),
        "   ".to_string(),
        "{\"jsonrpc\":\"2.0\",\"id\":2,\"result\":{\"tools\":[]}}".to_string(),
    ];
    assert_eq!(scan_lines(&lines, ATTEMPT_BUDGET), Ok(2));
}

#[test]
fn stream_ending_early_is_reported() {
    let lines = vec!["hello".to_string()];
    assert_eq!(scan_lines(&lines, ATTEMPT_BUDGET), Err(ExchangeError::StreamClosed));
    assert_eq!(scan_lines(&Vec::new(), ATTEMPT_BUDGET), Err(ExchangeError::StreamClosed));
}

#[test]
fn classification() {
    assert_eq!(classify_line(""), LineKind::Blank);
    assert_eq!(classify_line(" \t "), LineKind::Blank);
    assert_eq!(classify_line("not json"), LineKind::Noise);
    assert_eq!(classify_line("{\"id\":1}"), LineKind::Noise);
    assert_eq!(classify_line("[1,2]"), LineKind::Noise);
    assert_eq!(classify_line("{\"jsonrpc\":\"2.0\"}"), LineKind::Response);
}

#[test]
fn io_failure_ends_scan_at_once() {
    let events = vec![ReadEvent::Line(LineKind::Noise), ReadEvent::IoFailure, ReadEvent::Line(LineKind::Response)];
    assert_eq!(scan_events(&events, 20, false), Some(Err(ExchangeError::Io)));
}

#[test]
fn wait_elapsed_depends_on_policy() {
    let events = vec![ReadEvent::WaitElapsed, ReadEvent::Line(LineKind::Response)];
    assert_eq!(scan_events(&events, 20, false), Some(Err(ExchangeError::Timeout)));
    assert_eq!(scan_events(&events, 20, true), Some(Ok(0)));
    let slow = vec![ReadEvent::WaitElapsed; 50];
    assert_eq!(scan_events(&slow, 20, true), None);
    let late = vec![ReadEvent::WaitElapsed, ReadEvent::DeadlinePassed, ReadEvent::Line(LineKind::Response)];
    assert_eq!(scan_events(&late, 20, true), Some(Err(ExchangeError::Timeout)));
    let waiting = vec![ReadEvent::Line(LineKind::Blank)];
    assert_eq!(scan_events(&waiting, 20, false), None);
}

#[test]
fn scanner_steps() {
    let mut s = ResponseScanner::new(2, false);
    assert_eq!(s.step(ReadEvent::Line(LineKind::Noise)), ScanStep::ReadNext);
    assert_eq!(s.step(ReadEvent::Line(LineKind::Blank)), ScanStep::Failed(ExchangeError::Timeout));
}

#[test]
fn request_texts() {
    assert_eq!(
        initialize_request("Relay-Inspector"),
        "{\"id\":1,\"jsonrpc\":\"2.0\",\"method\":\"initialize\",\"params\":{\"capabilities\":{},\"clientInfo\":{\"name\":\"Relay-Inspector\",\"version\":\"1.0.0\"},\"protocolVersion\":\"2024-11-05\"}}"
    );
    assert_eq!(initialized_notification(), "{\"jsonrpc\":\"2.0\",\"method\":\"notifications/initialized\"}");
    assert_eq!(list_tools_request(), "{\"id\":2,\"jsonrpc\":\"2.0\",\"method\":\"tools/list\",\"params\":{}}");
    assert_eq!(
        call_tool_request("echo \"x\"", "{\"text\":\"hi\"}"),
        "{\"id\":2,\"jsonrpc\":\"2.0\",\"method\":\"tools/call\",\"params\":{\"arguments\":{\"text\":\"hi\"},\"name\":\"echo \\\"x\\\"\"}}"
    );
}

#[test]
fn session_runs_all_phases() {
    let mut s = InspectionSession::list_tools("Relay-Inspector");
    assert_eq!(s.phase(), SessionPhase::Spawned);
    assert_eq!(s.begin(), SessionAction::Send(initialize_request("Relay-Inspector")));
    assert_eq!(s.phase(), SessionPhase::Initializing);
    assert_eq!(s.advance(Ok(())), SessionAction::Await(15));
    assert_eq!(s.advance(Ok(())), SessionAction::Send(initialized_notification()));
    assert_eq!(s.phase(), SessionPhase::Initialized);
    assert_eq!(s.advance(Ok(())), SessionAction::Send(list_tools_request()));
    assert_eq!(s.phase(), SessionPhase::Busy(DomainRequest::ListTools));
    assert_eq!(s.advance(Ok(())), SessionAction::Await(10));
    assert_eq!(s.advance(Ok(())), SessionAction::Close(None));
    assert!(s.is_closed());
}

#[test]
fn session_failure_closes() {
    let mut s = InspectionSession::call_tool("Relay-Inspector", "echo", "{}");
    s.begin();
    assert_eq!(s.advance(Err(ExchangeError::StreamClosed)), SessionAction::Close(Some(ExchangeError::StreamClosed)));
    assert!(s.is_closed());
    assert_eq!(s.phase(), SessionPhase::Closed);
}

#[test]
fn call_session_waits_longer() {
    let mut s = InspectionSession::call_tool("c", "echo", "{}");
    s.begin();
    s.advance(Ok(()));
    s.advance(Ok(()));
    s.advance(Ok(()));
    assert_eq!(s.advance(Ok(())), SessionAction::Await(30));
}

#[test]
fn failure_messages() {
    assert_eq!(describe_failure(ExchangeError::StreamClosed, "tools/list"), "Server closed connection during tools/list");
    assert_eq!(describe_failure(ExchangeError::Timeout, "initialization"), "Timeout waiting for response during initialization");
    assert_eq!(describe_failure(ExchangeError::Io, "tools/call"), "IO error during tools/call");
}

#[test]
fn result_extraction() {
    let with = "{\"jsonrpc\":\"2.0\",\"result\":{\"tools\":[{\"name\":\"a\"}]}}";
    assert_eq!(extract_result(with, DomainRequest::ListTools), "{\"tools\":[{\"name\":\"a\"}]}");
    let without = "{\"jsonrpc\":\"2.0\"}";
    assert_eq!(extract_result(without, DomainRequest::ListTools), "{\"tools\":[]}");
    assert_eq!(extract_result(without, DomainRequest::CallTool), "{\"content\":[]}");
    let err = "{\"jsonrpc\":\"2.0\",\"error\":{\"code\":-1}}";
    assert_eq!(domain_result(err, DomainRequest::CallTool), Err(ExchangeError::Protocol));
    assert_eq!(domain_result(with, DomainRequest::ListTools), Ok("{\"tools\":[{\"name\":\"a\"}]}".to_string()));
    assert_eq!(describe_failure(ExchangeError::Protocol, "tools/call"), "Server returned an error during tools/call");
}

#[test]
fn failure_context_follows_the_phase() {
    let mut s = InspectionSession::call_tool("c", "echo", "{}");
    assert_eq!(s.context(), "initialization");
    s.begin();
    s.advance(Ok(()));
    assert_eq!(s.context(), "initialization");
    s.advance(Ok(()));
    assert_eq!(s.context(), "tools/call");
}

#[test]
fn error_objects_are_reported_as_text() {
    let err = "{\"jsonrpc\":\"2.0\",\"error\":{\"code\":-1}}";
    assert_eq!(error_text(err), Some("{\"code\":-1}".to_string()));
    assert_eq!(error_text("{\"jsonrpc\":\"2.0\",\"result\":{}}"), None);
    assert_eq!(error_text("not json"), None);
}
