//! The per-request lifecycle: header-buffer isolation, bounded body
//! capture, dispatch outcomes with the fail-closed timeout, end-phase
//! decisions, and the evaluation sequence handed to the engine.

use haproxy_modsecurity::descriptor::{capture_body, RequestAttributes, RequestDescriptor};
use haproxy_modsecurity::engine::{evaluation_steps, EngineStep};
use haproxy_modsecurity::filter::{ModSecurityWAF, SubmissionMode};
use haproxy_modsecurity::intervention::{FilterDecision, Intervention};

fn fresh_state(args: &[&str]) -> ModSecurityWAF {
    let args: Vec<String> = args.iter().map(|s| s.to_string()).collect();
    ModSecurityWAF::new(&args)
}

fn attrs(url: &str, method: &str, version: Option<&str>) -> RequestAttributes {
    RequestAttributes {
        url: url.to_string(),
        server_addr: "backend".to_string(),
        client_ip: "203.0.113.7".to_string(),
        client_port: 4242,
        method: method.to_string(),
        id: "req-1".to_string(),
        version: version.map(|v| v.to_string()),
    }
}

#[test]
fn header_buffer_holds_only_the_current_request() {
    let mut state = fresh_state(&[]);
    let a = vec![("Cookie".to_string(), vec!["secret-from-a".to_string()])];
    let b = vec![("Host".to_string(), vec!["b.example".to_string()])];
    state.begin_request_headers(a);
    state.begin_request_headers(b.clone());
    assert_eq!(state.current_headers, b);
    for (_, values) in &state.current_headers {
        for v in values {
            assert_ne!(v, "secret-from-a");
        }
    }
}

#[test]
fn body_capture_is_bounded() {
    let long: Vec<u8> = (0..20u8).collect();
    let capped = capture_body(long.clone(), 10);
    assert_eq!(capped, long[..10].to_vec());
    let short: Vec<u8> = vec![1, 2, 3];
    assert_eq!(capture_body(short.clone(), 10), short);
    let exact: Vec<u8> = (0..10u8).collect();
    assert_eq!(capture_body(exact.clone(), 10), exact);
}

#[test]
fn configured_cap_truncates_captured_body() {
    let mut state = fresh_state(&["max_body_size:10"]);
    state.begin_request_headers(Vec::new());
    let body: Vec<u8> = (0..20u8).collect();
    let d = state.build_descriptor(attrs("/upload", "POST", Some("1.1")), Some(body.clone()));
    assert_eq!(d.body, body[..10].to_vec());
}

#[test]
fn missing_version_defaults_and_missing_body_is_empty() {
    let mut state = fresh_state(&[]);
    state.begin_request_headers(Vec::new());
    let d = state.build_descriptor(attrs("/x", "GET", None), None);
    assert_eq!(d.version, "1.1");
    assert!(d.body.is_empty());
}

#[test]
fn timely_disruptive_decision_blocks() {
    let mut state = fresh_state(&["blocking"]);
    let it = Intervention {
        status: 403,
        pause: false,
        url: String::new(),
        log: "xss matched".to_string(),
        disruptive: true,
    };
    state.apply_blocking_result(Some(it.clone()));
    assert_eq!(state.intervention, Some(it));
    assert_eq!(state.http_end(), FilterDecision::Block);
}

#[test]
fn timely_clean_decision_continues() {
    let mut state = fresh_state(&["blocking"]);
    let it = Intervention {
        status: 200,
        pause: false,
        url: String::new(),
        log: String::new(),
        disruptive: false,
    };
    state.apply_blocking_result(Some(it));
    assert_eq!(state.http_end(), FilterDecision::Continue);
}

#[test]
fn status_403_blocks_even_when_not_disruptive() {
    let mut state = fresh_state(&["blocking"]);
    let it = Intervention {
        status: 403,
        pause: false,
        url: String::new(),
        log: String::new(),
        disruptive: false,
    };
    state.apply_blocking_result(Some(it));
    assert_eq!(state.http_end(), FilterDecision::Block);
}

#[test]
fn timeout_installs_fail_closed_block() {
    let mut state = fresh_state(&["blocking"]);
    // The worker's real decision would have been clean, but it missed the
    // timeout: the wait resolves with no value and the sentinel wins.
    let late_real_decision = Intervention {
        status: 200,
        pause: false,
        url: String::new(),
        log: String::new(),
        disruptive: false,
    };
    state.apply_blocking_result(None);
    let installed = state.intervention.clone().unwrap();
    assert_eq!(installed.status, 403);
    assert!(installed.disruptive);
    assert_eq!(state.http_end(), FilterDecision::Block);
    // The late decision has no consumer; the installed sentinel stands.
    assert_ne!(state.intervention, Some(late_real_decision));
}

#[test]
fn fail_closed_sentinel_fields() {
    let s = Intervention::fail_closed();
    assert_eq!(s.status, 403);
    assert!(s.disruptive);
    assert!(!s.pause);
    assert_eq!(s.url, "");
    assert_eq!(s.log, "");
}

#[test]
fn non_blocking_mode_sets_no_intervention() {
    let mut state = fresh_state(&[]);
    assert_eq!(state.submission_mode(), SubmissionMode::Detached);
    state.begin_request_headers(vec![("Host".to_string(), vec!["h".to_string()])]);
    let (_steps, mode) = state.http_payload(attrs("/health", "GET", Some("1.1")), None, true);
    assert_eq!(mode, SubmissionMode::Detached);
    // No wait is resolved in detached mode, so the request cycle ends with
    // no intervention recorded and the proxy is told to continue.
    assert!(state.intervention.is_none());
    assert_eq!(state.http_end(), FilterDecision::Continue);
}

#[test]
fn payload_phase_leaves_state_untouched() {
    let mut state = fresh_state(&["blocking", "max_body_size:10"]);
    state.begin_request_headers(vec![("Host".to_string(), vec!["h".to_string()])]);
    let headers_before = state.current_headers.clone();
    let body: Vec<u8> = (0..20u8).collect();
    let (steps, mode) =
        state.http_payload(attrs("/upload", "POST", Some("1.1")), Some(body.clone()), true);
    assert_eq!(mode, SubmissionMode::Awaited);
    assert!(state.intervention.is_none());
    assert_eq!(state.current_headers, headers_before);
    // The derived sequence carries the body already cut to the cap.
    assert!(steps.contains(&EngineStep::Body { body: body[..10].to_vec() }));
}

#[test]
fn no_intervention_means_continue() {
    let state = fresh_state(&["blocking"]);
    assert_eq!(state.http_end(), FilterDecision::Continue);
}

fn xss_descriptor(state: &ModSecurityWAF, client_ip: &str) -> RequestDescriptor {
    RequestDescriptor {
        uri: "/admin?x=<script>alert(1)</script>".to_string(),
        method: "GET".to_string(),
        version: "1.1".to_string(),
        headers: state.current_headers.clone(),
        body: b"x=1".to_vec(),
        client_ip: client_ip.to_string(),
        client_port: 4242,
        server_addr: "backend".to_string(),
        id: "req-1".to_string(),
    }
}

#[test]
fn evaluation_sequence_is_exact() {
    let mut state = fresh_state(&["blocking"]);
    state.begin_request_headers(vec![
        ("Host".to_string(), vec!["example.test".to_string()]),
        ("Accept".to_string(), vec!["text/html".to_string(), "text/plain".to_string()]),
    ]);
    let d = xss_descriptor(&state, "203.0.113.7");
    let steps = evaluation_steps(d, true);
    let expected = vec![
        EngineStep::Begin { id: "req-1".to_string() },
        EngineStep::Connection {
            client_ip: "203.0.113.7".to_string(),
            client_port: 4242,
            server_addr: "backend".to_string(),
            server_port: 80,
        },
        EngineStep::Uri {
            uri: "/admin?x=<script>alert(1)</script>".to_string(),
            method: "GET".to_string(),
            version: "1.1".to_string(),
        },
        EngineStep::Header { name: "Host".to_string(), value: "example.test".to_string() },
        EngineStep::Header { name: "Accept".to_string(), value: "text/html".to_string() },
        EngineStep::Header { name: "Accept".to_string(), value: "text/plain".to_string() },
        EngineStep::Body { body: b"x=1".to_vec() },
        EngineStep::ProcessHeaders,
        EngineStep::ProcessBody,
        EngineStep::QueryIntervention,
        EngineStep::Logging,
    ];
    assert_eq!(steps, expected);
}

#[test]
fn invalid_client_ip_registers_unspecified_address() {
    let mut state = fresh_state(&[]);
    state.begin_request_headers(Vec::new());
    let d = RequestDescriptor {
        uri: "/".to_string(),
        method: "GET".to_string(),
        version: "1.1".to_string(),
        headers: Vec::new(),
        body: Vec::new(),
        client_ip: "not-an-ip".to_string(),
        client_port: 7,
        server_addr: "backend".to_string(),
        id: "req-2".to_string(),
    };
    let steps = evaluation_steps(d, false);
    assert_eq!(
        steps[1],
        EngineStep::Connection {
            client_ip: "0.0.0.0".to_string(),
            client_port: 7,
            server_addr: "backend".to_string(),
            server_port: 80,
        }
    );
    // Evaluation still completes: the decision query and logging phases
    // close the sequence.
    assert_eq!(steps[steps.len() - 2], EngineStep::QueryIntervention);
    assert_eq!(steps[steps.len() - 1], EngineStep::Logging);
}

#[test]
fn identical_descriptors_induce_identical_sequences() {
    let mut state = fresh_state(&["blocking"]);
    state.begin_request_headers(vec![("Host".to_string(), vec!["example.test".to_string()])]);
    let d1 = xss_descriptor(&state, "203.0.113.7");
    let d2 = xss_descriptor(&state, "203.0.113.7");
    assert_eq!(evaluation_steps(d1, true), evaluation_steps(d2, true));
}
