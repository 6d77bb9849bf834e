use sqs_worker::backoff::{Backoff, INITIAL_DELAY_MS, MAX_DELAY_MS};
use sqs_worker::dispatch::{Action, Dispatch, Event, InboundMessage, Outcome};
use sqs_worker::job::{CommandSpec, JobRequest};
use sqs_worker::registry::{Registry, RegistryError};
use sqs_worker::wire::encode_job;

fn strings(v: &[&str]) -> Vec<String> {
    v.iter().map(|s| s.to_string()).collect()
}

fn ping_registry() -> Registry {
    let ping = CommandSpec::new(
        "ping".to_string(),
        "/bin/echo".to_string(),
        strings(&["-n", "hello"]),
    );
    let missing = CommandSpec::new(
        "ghost".to_string(),
        "/no/such/program".to_string(),
        strings(&["--go"]),
    );
    match Registry::new(vec![ping, missing]) {
        Ok(r) => r,
        Err(_) => panic!("names are distinct"),
    }
}

fn message(receipt: Option<&str>, body: Option<&str>) -> InboundMessage {
    InboundMessage {
        receipt_handle: receipt.map(|s| s.to_string()),
        body: body.map(|s| s.to_string()),
    }
}

// What the driving program does with a body: decode the JSON wire form.
fn decode(body: &str) -> Option<JobRequest> {
    let v: serde_json::Value = serde_json::from_str(body).ok()?;
    let name = v.get("name")?.as_str()?.to_string();
    let mut args = Vec::new();
    for a in v.get("args")?.as_array()? {
        args.push(a.as_str()?.to_string());
    }
    Some(JobRequest::new(name, args))
}

// Starts a message with a receipt and body, acknowledges the delete, and
// returns the machine waiting for the decoded job.
fn delete_then_decode(body: &str) -> Dispatch {
    let (d, a) = Dispatch::start(&message(Some("receipt-1"), Some(body)));
    match a {
        Action::Delete { receipt_handle } => assert_eq!(receipt_handle, "receipt-1"),
        _ => panic!("the first action must be the delete"),
    }
    let reg = ping_registry();
    let url = "dlq".to_string();
    let (d, a) = d.step(&reg, &url, Event::Deleted { ok: true });
    match a {
        Action::Decode { body: b } => assert_eq!(b, body),
        _ => panic!("decode expected after the delete"),
    }
    d
}

#[test]
fn filter_keeps_whitelisted_in_request_order() {
    let spec = CommandSpec::new(
        "ping".to_string(),
        "/bin/echo".to_string(),
        strings(&["hello", "-n"]),
    );
    let got = spec.filter_args(&strings(&["-x", "-n", "hello", "-n", "--evil", "hello"]));
    assert_eq!(got, strings(&["-n", "hello", "-n", "hello"]));
}

#[test]
fn filter_of_nothing_allowed_is_empty() {
    let spec = CommandSpec::new("a".to_string(), "/bin/true".to_string(), Vec::new());
    assert!(spec.filter_args(&strings(&["-a", "-b"])).is_empty());
    let spec = CommandSpec::new("a".to_string(), "/bin/true".to_string(), strings(&["-a"]));
    assert!(spec.filter_args(&Vec::new()).is_empty());
}

#[test]
fn filter_matches_exactly() {
    let spec = CommandSpec::new("a".to_string(), "/bin/true".to_string(), strings(&["-n"]));
    assert!(spec.allows(&"-n".to_string()));
    assert!(!spec.allows(&"-N".to_string()));
    assert!(!spec.allows(&"-n ".to_string()));
    assert_eq!(spec.filter_args(&strings(&["-N", "-n", "-nn"])), strings(&["-n"]));
}

#[test]
fn ping_runs_echo_with_whitelisted_args() {
    let body = r#"{"name":"ping","args":["-n","hello","-x"]}"#;
    let d = delete_then_decode(body);
    let reg = ping_registry();
    let url = "dlq".to_string();
    let (d, a) = d.step(&reg, &url, Event::Decoded { job: decode(body) });
    match a {
        Action::Run { program, args } => {
            assert_eq!(program, "/bin/echo");
            assert_eq!(args, strings(&["-n", "hello"]));
        }
        _ => panic!("the program must be run"),
    }
    let (d, a) = d.step(&reg, &url, Event::Spawned { ok: true });
    assert!(matches!(a, Action::Finish { outcome: Outcome::Executed }));
    assert!(d.is_done());
}

#[test]
fn unknown_command_is_dropped_silently() {
    let body = r#"{"name":"pong","args":["-n"]}"#;
    let d = delete_then_decode(body);
    let reg = ping_registry();
    let url = "dlq".to_string();
    let (d, a) = d.step(&reg, &url, Event::Decoded { job: decode(body) });
    assert!(matches!(a, Action::Finish { outcome: Outcome::UnknownCommand }));
    assert!(d.is_done());
    assert!(!d.accepts(&Event::Spawned { ok: false }));
    assert!(!d.accepts(&Event::Sent { ok: true }));
}

#[test]
fn lookup_is_case_sensitive() {
    let reg = ping_registry();
    assert!(reg.find(&"PING".to_string()).is_none());
    assert!(reg.find(&"ping ".to_string()).is_none());
    match reg.find(&"ping".to_string()) {
        Some(c) => assert_eq!(c.program, "/bin/echo"),
        None => panic!("ping is registered"),
    }
    assert_eq!(reg.commands().len(), 2);
}

#[test]
fn spawn_failure_reports_unfiltered_job() {
    let body = r#"{"name":"ghost","args":["--go","--evil"]}"#;
    let d = delete_then_decode(body);
    let reg = ping_registry();
    let url = "https://queue.example/dead-letter".to_string();
    let (d, a) = d.step(&reg, &url, Event::Decoded { job: decode(body) });
    match a {
        Action::Run { program, args } => {
            assert_eq!(program, "/no/such/program");
            assert_eq!(args, strings(&["--go"]));
        }
        _ => panic!("the program must be tried"),
    }
    let (d, a) = d.step(&reg, &url, Event::Spawned { ok: false });
    let report = match a {
        Action::Report { queue_url, body } => {
            assert_eq!(queue_url, url);
            body
        }
        _ => panic!("a spawn failure must be reported"),
    };
    let back = decode(&report).expect("the report is a job request");
    assert_eq!(back.name, "ghost");
    assert_eq!(back.args, strings(&["--go", "--evil"]));
    let (d2, a) = d.step(&reg, &url, Event::Sent { ok: true });
    assert!(matches!(a, Action::Finish { outcome: Outcome::Reported }));
    assert!(d2.is_done());
}

#[test]
fn lost_report_ends_the_message() {
    let body = r#"{"name":"ghost","args":[]}"#;
    let d = delete_then_decode(body);
    let reg = ping_registry();
    let url = "dlq".to_string();
    let (d, _) = d.step(&reg, &url, Event::Decoded { job: decode(body) });
    let (d, _) = d.step(&reg, &url, Event::Spawned { ok: false });
    let (d, a) = d.step(&reg, &url, Event::Sent { ok: false });
    assert!(matches!(a, Action::Finish { outcome: Outcome::ReportLost }));
    assert!(d.is_done());
}

#[test]
fn malformed_body_is_dropped_without_report() {
    let body = "this is not json";
    assert!(decode(body).is_none());
    let d = delete_then_decode(body);
    let reg = ping_registry();
    let url = "dlq".to_string();
    assert!(d.accepts(&Event::Decoded { job: None }));
    let (d, a) = d.step(&reg, &url, Event::Decoded { job: decode(body) });
    assert!(matches!(a, Action::Finish { outcome: Outcome::Malformed }));
    assert!(d.is_done());
}

#[test]
fn missing_body_is_malformed_after_delete() {
    let (d, a) = Dispatch::start(&message(Some("r"), None));
    assert!(matches!(a, Action::Delete { .. }));
    let reg = ping_registry();
    let url = "dlq".to_string();
    let (d, a) = d.step(&reg, &url, Event::Deleted { ok: true });
    assert!(matches!(a, Action::Finish { outcome: Outcome::Malformed }));
    assert!(d.is_done());
}

#[test]
fn missing_receipt_is_not_deleted_nor_run() {
    let (d, a) = Dispatch::start(&message(None, Some(r#"{"name":"ping","args":[]}"#)));
    assert!(matches!(a, Action::Finish { outcome: Outcome::MissingReceipt }));
    assert!(d.is_done());
    assert!(!d.accepts(&Event::Deleted { ok: true }));
}

#[test]
fn failed_delete_still_processes_the_payload() {
    let body = r#"{"name":"ping","args":["hello"]}"#;
    let (d, _) = Dispatch::start(&message(Some("r"), Some(body)));
    let reg = ping_registry();
    let url = "dlq".to_string();
    let (d, a) = d.step(&reg, &url, Event::Deleted { ok: false });
    assert!(matches!(a, Action::Decode { .. }));
    assert!(!d.accepts(&Event::Deleted { ok: true }));
    let (_, a) = d.step(&reg, &url, Event::Decoded { job: decode(body) });
    match a {
        Action::Run { args, .. } => assert_eq!(args, strings(&["hello"])),
        _ => panic!("the payload must still run"),
    }
}

#[test]
fn delete_happens_once_whatever_the_outcome() {
    for spawned in [true, false] {
        let body = r#"{"name":"ghost","args":[]}"#;
        let reg = ping_registry();
        let url = "dlq".to_string();
        let (d, a) = Dispatch::start(&message(Some("r"), Some(body)));
        let mut deletes = usize::from(matches!(a, Action::Delete { .. }));
        let (d, a) = d.step(&reg, &url, Event::Deleted { ok: true });
        deletes += usize::from(matches!(a, Action::Delete { .. }));
        let (d, a) = d.step(&reg, &url, Event::Decoded { job: decode(body) });
        deletes += usize::from(matches!(a, Action::Delete { .. }));
        let (d, a) = d.step(&reg, &url, Event::Spawned { ok: spawned });
        deletes += usize::from(matches!(a, Action::Delete { .. }));
        if !d.is_done() {
            let (_, a) = d.step(&reg, &url, Event::Sent { ok: true });
            deletes += usize::from(matches!(a, Action::Delete { .. }));
        }
        assert_eq!(deletes, 1);
    }
}

#[test]
fn encode_writes_the_wire_form() {
    let job = JobRequest::new("ping".to_string(), strings(&["-n", "hello"]));
    assert_eq!(encode_job(&job), r#"{"name":"ping","args":["-n","hello"]}"#);
    let empty = JobRequest::new("x".to_string(), Vec::new());
    assert_eq!(encode_job(&empty), r#"{"name":"x","args":[]}"#);
}

#[test]
fn encode_escapes_strings() {
    let job = JobRequest::new("a\"b".to_string(), strings(&["c\\d", "e\nf"]));
    assert_eq!(encode_job(&job), r#"{"name":"a\"b","args":["c\\d","e\nf"]}"#);
}

#[test]
fn encode_then_decode_round_trips() {
    let cases = vec![
        JobRequest::new("ping".to_string(), strings(&["-n", "hello", "-n"])),
        JobRequest::new(String::new(), Vec::new()),
        JobRequest::new("\u{e9}t\u{e9}".to_string(), strings(&["\"", "\\", "\t", "\u{1F600}", ""])),
    ];
    for job in cases {
        let back = decode(&encode_job(&job)).expect("the wire form decodes");
        assert_eq!(back.name, job.name);
        assert_eq!(back.args, job.args);
    }
}

#[test]
fn registry_refuses_duplicate_names() {
    let a = CommandSpec::new("a".to_string(), "/bin/a".to_string(), Vec::new());
    let b = CommandSpec::new("b".to_string(), "/bin/b".to_string(), Vec::new());
    let a2 = CommandSpec::new("a".to_string(), "/bin/a2".to_string(), Vec::new());
    match Registry::new(vec![a, b, a2]) {
        Err(RegistryError::DuplicateName(n)) => assert_eq!(n, "a"),
        Ok(_) => panic!("duplicate names must be refused"),
    }
    assert!(Registry::new(Vec::new()).is_ok());
}

#[test]
fn backoff_doubles_up_to_the_ceiling_and_resets() {
    let mut b = Backoff::new();
    assert_eq!(b.current_ms(), INITIAL_DELAY_MS);
    assert_eq!(b.on_failure(), 500);
    assert_eq!(b.on_failure(), 1000);
    assert_eq!(b.on_failure(), 2000);
    for _ in 0..20 {
        b.on_failure();
    }
    assert_eq!(b.current_ms(), MAX_DELAY_MS);
    assert_eq!(b.on_failure(), 60000);
    b.on_success();
    assert_eq!(b.on_failure(), 500);
}
