//! Lifecycle, prober, proxy, error, and shutdown behaviour on
//! concrete values.

use ragkit_bridge::errors::BackendError;
use ragkit_bridge::lifecycle::{
    allocate_port, kind_for_mode, port_or_error, BackendHandle, LaunchMode, ProcessKind,
};
use ragkit_bridge::probe::{run_probe, ProbeDecision, ProbeState};
use ragkit_bridge::proxy::{
    classify_exchange, endpoint_with_params, health_from_json, is_success_status, port_for_call,
    QueryParam,
};
use ragkit_bridge::shutdown::{shutdown_plan, ShutdownAction};
use ragkit_bridge::text::dec_u16;

fn text(bytes: &[u8]) -> String {
    String::from_utf8_lossy(bytes).into_owned()
}

#[test]
fn port_classification_is_exact() {
    assert_eq!(port_or_error(Some(5)), Ok(5));
    assert!(matches!(
        port_or_error(None),
        Err(BackendError::ResourceExhausted)
    ));
}

#[test]
fn allocated_port_or_exhaustion() {
    // The picker probes the real machine: either outcome is legal,
    // but the failure must be the exhaustion error and nothing else.
    match allocate_port() {
        Ok(_) => {}
        Err(e) => assert!(matches!(e, BackendError::ResourceExhausted)),
    }
}

#[test]
fn port_is_not_reassigned_between_launch_and_shutdown() {
    let mut h = BackendHandle::new();
    assert!(h.port.is_none() && h.process.is_none());
    h.record_port(4711);
    h.record_process(ProcessKind::DirectChild);
    assert_eq!(h.port, Some(4711));
    // reads and the process-clearing half of shutdown leave it alone
    let _ = port_for_call(&h);
    let taken = h.take_process();
    assert_eq!(taken, Some(ProcessKind::DirectChild));
    assert_eq!(h.port, Some(4711));
    // only the shutdown step that clears the port frees the slot
    h.clear_port();
    assert!(h.port.is_none());
    h.record_port(4712);
    assert_eq!(h.port, Some(4712));
}

#[test]
fn launch_modes_map_to_process_kinds() {
    assert_eq!(kind_for_mode(LaunchMode::Development), ProcessKind::DirectChild);
    assert_eq!(kind_for_mode(LaunchMode::Production), ProcessKind::ManagedSidecar);
    assert!(ProcessKind::DirectChild.needs_wait());
    assert!(!ProcessKind::ManagedSidecar.needs_wait());
}

#[test]
fn probe_succeeds_once_the_backend_answers() {
    // the fake server starts answering 2xx from attempt five
    let mut outcomes = vec![false, false, false, false, true];
    outcomes.resize(30, false);
    let (result, elapsed_ms) = run_probe(&outcomes, 30, 1000);
    assert_eq!(result, Ok(5));
    assert_eq!(elapsed_ms, 4000);
    assert!(elapsed_ms <= 30 * 1000);
}

#[test]
fn probe_times_out_after_thirty_silent_attempts() {
    let outcomes = vec![false; 30];
    let (result, elapsed_ms) = run_probe(&outcomes, 30, 1000);
    assert!(matches!(result, Err(BackendError::StartupTimeout)));
    assert_eq!(elapsed_ms, 30_000);
}

#[test]
fn probe_state_steps() {
    let mut s = ProbeState::standard();
    assert_eq!(s.step(false), ProbeDecision::Retry);
    assert_eq!(s.elapsed_ms(), 1000);
    assert_eq!(s.step(true), ProbeDecision::Ready);
    let mut tiny = ProbeState::new(1, 250);
    assert_eq!(tiny.step(false), ProbeDecision::TimedOut);
    assert_eq!(tiny.elapsed_ms(), 250);
}

#[test]
fn status_classes() {
    assert!(is_success_status(200));
    assert!(is_success_status(204));
    assert!(is_success_status(299));
    assert!(!is_success_status(199));
    assert!(!is_success_status(300));
    assert!(!is_success_status(404));
    assert!(!is_success_status(500));
}

#[test]
fn call_before_startup_is_not_ready() {
    let h = BackendHandle::new();
    let r = port_for_call(&h);
    assert!(matches!(r, Err(BackendError::NotReady)));
    assert_eq!(text(&BackendError::NotReady.message()), "Backend not ready");
}

#[test]
fn upstream_error_carries_status_and_body() {
    let r = classify_exchange(Ok((404, b"not found".to_vec())));
    let e = r.unwrap_err();
    match &e {
        BackendError::Upstream { status, body } => {
            assert_eq!(*status, 404);
            assert_eq!(body, b"not found");
        }
        other => panic!("expected an upstream error, got {:?} message", text(&other.message())),
    }
    let message = text(&e.message());
    assert!(message.contains("404"));
    assert!(message.contains("not found"));
    assert_eq!(message, "Request failed with status 404: not found");
}

#[test]
fn transport_failure_is_reported_not_thrown() {
    let r = classify_exchange(Err(b"connection refused".to_vec()));
    match r {
        Err(BackendError::Transport(m)) => assert_eq!(text(&m), "connection refused"),
        other => panic!("expected a transport error, got {:?}", other.is_ok()),
    }
}

#[test]
fn successful_exchange_returns_body_verbatim() {
    let r = classify_exchange(Ok((200, b"{\"answer\":42}".to_vec())));
    assert_eq!(r.unwrap(), b"{\"answer\":42}");
}

#[test]
fn error_messages_render() {
    assert_eq!(text(&BackendError::ResourceExhausted.message()), "No free port found");
    assert_eq!(
        text(&BackendError::StartupTimeout.message()),
        "Backend failed to start in time"
    );
    assert_eq!(
        text(&BackendError::LaunchFailure(b"exec format error".to_vec()).message()),
        "Failed to spawn backend: exec format error"
    );
    assert_eq!(
        text(&BackendError::Transport(b"timed out".to_vec()).message()),
        "timed out"
    );
}

#[test]
fn decimal_rendering() {
    assert_eq!(dec_u16(0), b"0");
    assert_eq!(dec_u16(7), b"7");
    assert_eq!(dec_u16(8080), b"8080");
    assert_eq!(dec_u16(65535), b"65535");
}

#[test]
fn health_response_shape() {
    let r = health_from_json(b"{\"ok\":true,\"version\":\"1.2.0\"}");
    assert!(r.ok);
    assert_eq!(r.version.as_deref(), Some("1.2.0"));

    let r = health_from_json(b"{\"ok\":false}");
    assert!(!r.ok);
    assert!(r.version.is_none());

    // a body that does not parse reports not-ready, nothing more
    let r = health_from_json(b"garbage");
    assert!(!r.ok);
    assert!(r.version.is_none());
}

#[test]
fn endpoint_query_assembly() {
    let base = b"/api/embedding/test-connection";
    let none: Vec<QueryParam> = vec![
        QueryParam { name: b"provider".to_vec(), value: None },
        QueryParam { name: b"model".to_vec(), value: None },
    ];
    assert_eq!(endpoint_with_params(base, &none), base.to_vec());

    let one = vec![
        QueryParam { name: b"provider".to_vec(), value: Some(b"openai".to_vec()) },
        QueryParam { name: b"model".to_vec(), value: None },
    ];
    assert_eq!(
        text(&endpoint_with_params(base, &one)),
        "/api/embedding/test-connection?provider=openai"
    );

    let both = vec![
        QueryParam { name: b"provider".to_vec(), value: Some(b"openai".to_vec()) },
        QueryParam { name: b"model".to_vec(), value: Some(b"small".to_vec()) },
    ];
    assert_eq!(
        text(&endpoint_with_params(base, &both)),
        "/api/embedding/test-connection?provider=openai&model=small"
    );
}

#[test]
fn shutdown_with_no_backend_plans_only_the_sweep() {
    let mut h = BackendHandle::new();
    let plan = shutdown_plan(&mut h);
    assert_eq!(plan, vec![ShutdownAction::Sweep]);
    assert!(h.port.is_none() && h.process.is_none());
}

#[test]
fn shutdown_orders_graceful_before_kill_and_always_sweeps() {
    let mut h = BackendHandle::new();
    h.record_port(9000);
    h.record_process(ProcessKind::ManagedSidecar);
    let plan = shutdown_plan(&mut h);
    assert_eq!(
        plan,
        vec![
            ShutdownAction::Graceful { port: 9000 },
            ShutdownAction::Kill { kind: ProcessKind::ManagedSidecar },
            ShutdownAction::Sweep,
        ]
    );
    // the record is cleared, so a second shutdown is a no-op sweep
    let again = shutdown_plan(&mut h);
    assert_eq!(again, vec![ShutdownAction::Sweep]);
}

#[test]
fn shutdown_kills_even_when_no_port_was_recorded() {
    // a spawn that was recorded before the graceful signal had a
    // port to reach still gets killed
    let mut h = BackendHandle::new();
    h.record_process(ProcessKind::DirectChild);
    let plan = shutdown_plan(&mut h);
    assert_eq!(
        plan,
        vec![
            ShutdownAction::Kill { kind: ProcessKind::DirectChild },
            ShutdownAction::Sweep,
        ]
    );
}
