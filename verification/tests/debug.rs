use pyra_core::correlate::{correlate_step, select_response};
use pyra_core::tools::parse_ruff_diagnostics;
use pyra_core::protocol::{
    classify, parse_event, parse_stack_frames, AdapterEvent, Breakpoint, JValue, MessageKind,
};
use pyra_core::session::{
    connect_with_retries, event_loop_step, missing_debugpy_error, missing_interpreter_error,
    scopes_from_response, stack_trace_from_response, start_request_plan, variables_from_response,
    venv_python_path, DebugError, DebugSession, Notification, SessionSlot,
};

fn obj(fields: Vec<(&str, JValue)>) -> JValue {
    JValue::Obj(fields.into_iter().map(|(k, v)| (k.to_string(), v)).collect())
}

fn s(text: &str) -> JValue {
    JValue::Str(text.to_string())
}

fn event(name: &str, body: JValue) -> JValue {
    obj(vec![("type", s("event")), ("event", s(name)), ("body", body)])
}

fn response(body: JValue) -> JValue {
    obj(vec![("type", s("response")), ("body", body)])
}

#[test]
fn sequence_numbers_start_at_one_and_never_skip() {
    let mut session = DebugSession::new(4711);
    let mut texts = Vec::new();
    for _ in 0..5 {
        let frame = session.build_request("continue", &b"{}".to_vec());
        texts.push(String::from_utf8(frame).unwrap());
    }
    for (k, text) in texts.iter().enumerate() {
        assert!(text.contains(&format!("{{\"seq\":{},", k + 1)));
    }
    assert_eq!(session.seq, 6);
}

#[test]
fn classify_reads_the_type_tag() {
    assert_eq!(classify(&response(JValue::Null)), MessageKind::Response);
    assert_eq!(classify(&event("stopped", JValue::Null)), MessageKind::Event);
    assert_eq!(classify(&obj(vec![("type", s("welcome"))])), MessageKind::Other);
    assert_eq!(classify(&JValue::Null), MessageKind::Other);
}

#[test]
fn events_are_never_mistaken_for_the_response() {
    let msgs = vec![
        event("output", obj(vec![("output", s("x"))])),
        event("stopped", JValue::Null),
        response(obj(vec![("ok", JValue::Bool(true))])),
        event("continued", JValue::Null),
    ];
    assert_eq!(select_response(&msgs), Some(2));
}

#[test]
fn unknown_message_kinds_are_returned_as_is() {
    let odd = obj(vec![("type", s("telemetry"))]);
    assert!(correlate_step(odd).is_some());
    assert!(correlate_step(event("output", JValue::Null)).is_none());
}

#[test]
fn stopped_event_carries_reason_and_thread() {
    let ev = parse_event(&event(
        "stopped",
        obj(vec![("reason", s("breakpoint")), ("threadId", JValue::UInt(3))]),
    ));
    match ev {
        AdapterEvent::Stopped { reason, thread_id } => {
            assert_eq!(reason, "breakpoint");
            assert_eq!(thread_id, 3);
        }
        other => panic!("wrong event: {:?}", other),
    }
}

#[test]
fn stopped_event_defaults_tolerantly() {
    let ev = parse_event(&event("stopped", JValue::Null));
    match ev {
        AdapterEvent::Stopped { reason, thread_id } => {
            assert_eq!(reason, "unknown");
            assert_eq!(thread_id, 0);
        }
        other => panic!("wrong event: {:?}", other),
    }
}

#[test]
fn unrecognized_event_names_are_kept_verbatim() {
    let ev = parse_event(&event("loadedSource", JValue::Null));
    match ev {
        AdapterEvent::Unknown { name } => assert_eq!(name, "loadedSource"),
        other => panic!("wrong event: {:?}", other),
    }
}

#[test]
fn terminated_event_empties_the_slot_and_later_ops_fail() {
    let mut slot = SessionSlot::new();
    slot.store(DebugSession::new(9000)).expect("empty slot accepts a session");
    let step = event_loop_step(&mut slot, &Ok(event("terminated", JValue::Null)));
    assert!(step.exit);
    assert_eq!(step.notifications.len(), 1);
    assert!(matches!(step.notifications[0], Notification::Terminated));
    match slot.request_continue(1) {
        Err(DebugError::NoActiveSession) => {}
        other => panic!("expected NoActiveSession, got {:?}", other),
    }
}

#[test]
fn exited_event_keeps_the_session_alive() {
    let mut slot = SessionSlot::new();
    slot.store(DebugSession::new(9000)).unwrap();
    let step = event_loop_step(
        &mut slot,
        &Ok(event("exited", obj(vec![("exitCode", JValue::UInt(0))]))),
    );
    assert!(!step.exit);
    assert!(step.notifications.is_empty());
    assert!(slot.request_continue(1).is_ok());
}

#[test]
fn read_failure_terminates_and_notifies() {
    let mut slot = SessionSlot::new();
    slot.store(DebugSession::new(9000)).unwrap();
    let step = event_loop_step(
        &mut slot,
        &Err(DebugError::Framing { error: pyra_core::frame::FramingError::Truncated }),
    );
    assert!(step.exit);
    assert!(matches!(step.notifications[0], Notification::Terminated));
    assert!(matches!(slot.request_continue(1), Err(DebugError::NoActiveSession)));
}

#[test]
fn empty_output_events_are_suppressed() {
    let mut slot = SessionSlot::new();
    slot.store(DebugSession::new(9000)).unwrap();
    let quiet = event_loop_step(
        &mut slot,
        &Ok(event("output", obj(vec![("output", s(""))]))),
    );
    assert!(quiet.notifications.is_empty());
    let loud = event_loop_step(
        &mut slot,
        &Ok(event("output", obj(vec![("category", s("stderr")), ("output", s("boom\n"))]))),
    );
    assert_eq!(loud.notifications.len(), 1);
    match &loud.notifications[0] {
        Notification::Output { category, output } => {
            assert_eq!(category, "stderr");
            assert_eq!(output, "boom\n");
        }
        other => panic!("wrong notification: {:?}", other),
    }
}

#[test]
fn stop_is_idempotent_on_an_empty_slot() {
    let mut slot = SessionSlot::new();
    assert!(slot.stop().is_none());
    assert!(slot.stop().is_none());
    slot.store(DebugSession::new(1)).unwrap();
    assert!(slot.stop().is_some());
    assert!(slot.stop().is_none());
}

#[test]
fn starting_over_a_live_session_is_refused() {
    let mut slot = SessionSlot::new();
    slot.store(DebugSession::new(1)).unwrap();
    match slot.store(DebugSession::new(2)) {
        Err(DebugError::Precondition { guidance }) => {
            assert!(guidance.contains("already active"));
        }
        other => panic!("expected Precondition, got {:?}", other),
    }
}

#[test]
fn retry_succeeds_on_the_sixth_attempt() {
    let outcomes = vec![false, false, false, false, false, true, false, false, false, false];
    assert!(matches!(connect_with_retries(&outcomes, ""), Ok(6)));
}

#[test]
fn retry_gives_up_after_exactly_ten_attempts_with_stderr() {
    let outcomes = vec![false; 10];
    match connect_with_retries(&outcomes, "ECONNREFUSED") {
        Err(DebugError::Connection { attempts, detail }) => {
            assert_eq!(attempts, 10);
            assert_eq!(detail, "ECONNREFUSED");
        }
        other => panic!("expected Connection error, got {:?}", other),
    }
}

#[test]
fn start_plan_runs_the_handshake_in_order() {
    let mut session = DebugSession::new(5678);
    let breakpoints = vec![Breakpoint {
        id: None,
        file: "main.py".to_string(),
        line: 5,
        verified: false,
    }];
    let plan = start_request_plan(&mut session, "main.py", "/proj", &breakpoints);
    let commands: Vec<&str> = plan.iter().map(|p| p.command.as_str()).collect();
    assert_eq!(commands, vec!["initialize", "launch", "setBreakpoints", "configurationDone"]);
    let bp_text = String::from_utf8(plan[2].frame.clone()).unwrap();
    assert!(bp_text.contains("\"seq\":3"));
    assert!(bp_text.contains("\"command\":\"setBreakpoints\""));
    assert!(bp_text.contains("{\"source\":{\"path\":\"main.py\"},\"breakpoints\":[{\"line\":5}]}"));
    let done_text = String::from_utf8(plan[3].frame.clone()).unwrap();
    assert!(done_text.contains("\"seq\":4"));
    assert!(done_text.contains("\"command\":\"configurationDone\""));
}

#[test]
fn start_plan_skips_breakpoints_when_none_are_set() {
    let mut session = DebugSession::new(5678);
    let plan = start_request_plan(&mut session, "run.py", "/proj", &Vec::new());
    let commands: Vec<&str> = plan.iter().map(|p| p.command.as_str()).collect();
    assert_eq!(commands, vec!["initialize", "launch", "configurationDone"]);
}

#[test]
fn stack_frames_parse_with_tolerant_defaults() {
    let resp = response(obj(vec![(
        "stackFrames",
        JValue::Arr(vec![obj(vec![
            ("id", JValue::UInt(1)),
            ("name", s("main")),
            ("source", obj(vec![("path", s("main.py"))])),
            ("line", JValue::UInt(5)),
            // column intentionally missing: the wire default is zero
        ])]),
    )]));
    let frames = parse_stack_frames(&resp).expect("well-formed body");
    assert_eq!(frames.len(), 1);
    assert_eq!(frames[0].id, 1);
    assert_eq!(frames[0].name, "main");
    assert_eq!(frames[0].file, "main.py");
    assert_eq!(frames[0].line, 5);
    assert_eq!(frames[0].column, 0);
}

#[test]
fn malformed_bodies_are_protocol_errors_per_request() {
    let bad = response(JValue::Null);
    match stack_trace_from_response(&bad) {
        Err(DebugError::Protocol { what }) => assert_eq!(what, "stackTrace"),
        other => panic!("expected Protocol, got {:?}", other),
    }
    match scopes_from_response(&bad) {
        Err(DebugError::Protocol { what }) => assert_eq!(what, "scopes"),
        other => panic!("expected Protocol, got {:?}", other),
    }
    match variables_from_response(&bad) {
        Err(DebugError::Protocol { what }) => assert_eq!(what, "variables"),
        other => panic!("expected Protocol, got {:?}", other),
    }
}

#[test]
fn scopes_and_variables_parse_their_records() {
    let resp = response(obj(vec![(
        "scopes",
        JValue::Arr(vec![obj(vec![
            ("name", s("Locals")),
            ("variablesReference", JValue::UInt(12)),
            ("expensive", JValue::Bool(false)),
        ])]),
    )]));
    let scopes = scopes_from_response(&resp).unwrap();
    assert_eq!(scopes[0].name, "Locals");
    assert_eq!(scopes[0].variables_reference, 12);
    assert!(!scopes[0].expensive);

    let resp = response(obj(vec![(
        "variables",
        JValue::Arr(vec![obj(vec![
            ("name", s("x")),
            ("value", s("41")),
            ("type", s("int")),
            ("variablesReference", JValue::UInt(0)),
        ])]),
    )]));
    let vars = variables_from_response(&resp).unwrap();
    assert_eq!(vars[0].name, "x");
    assert_eq!(vars[0].value, "41");
    assert_eq!(vars[0].type_, "int");
}

#[test]
fn request_builders_need_a_live_session() {
    let mut slot = SessionSlot::new();
    assert!(matches!(slot.request_step_over(1), Err(DebugError::NoActiveSession)));
    assert!(matches!(slot.request_step_into(1), Err(DebugError::NoActiveSession)));
    assert!(matches!(slot.request_step_out(1), Err(DebugError::NoActiveSession)));
    assert!(matches!(slot.request_stack_trace(1), Err(DebugError::NoActiveSession)));
    assert!(matches!(slot.request_scopes(1), Err(DebugError::NoActiveSession)));
    assert!(matches!(slot.request_variables(1), Err(DebugError::NoActiveSession)));
    slot.store(DebugSession::new(7)).unwrap();
    let frame = slot.request_step_over(9).unwrap();
    let text = String::from_utf8(frame).unwrap();
    assert!(text.contains("\"command\":\"next\""));
    assert!(text.contains("{\"threadId\":9}"));
}

#[test]
fn interpreter_paths_follow_the_platform_layout() {
    assert_eq!(venv_python_path("/proj", false), "/proj/.venv/bin/python");
    assert_eq!(venv_python_path("C:/proj", true), "C:/proj/.venv/Scripts/python.exe");
}

#[test]
fn precondition_errors_carry_guidance() {
    match missing_interpreter_error("/proj/.venv/bin/python") {
        DebugError::Precondition { guidance } => {
            assert!(guidance.contains("/proj/.venv/bin/python"));
            assert!(guidance.contains("virtual environment"));
        }
        other => panic!("expected Precondition, got {:?}", other),
    }
    match missing_debugpy_error("No module named debugpy") {
        DebugError::Precondition { guidance } => {
            assert!(guidance.contains("debugpy"));
            assert!(guidance.contains("No module named debugpy"));
        }
        other => panic!("expected Precondition, got {:?}", other),
    }
}

#[test]
fn start_plan_groups_breakpoints_by_distinct_file() {
    let mut session = DebugSession::new(5678);
    let breakpoints = vec![
        Breakpoint { id: None, file: "a.py".to_string(), line: 5, verified: false },
        Breakpoint { id: None, file: "b.py".to_string(), line: 3, verified: false },
        Breakpoint { id: None, file: "a.py".to_string(), line: 9, verified: false },
    ];
    let plan = start_request_plan(&mut session, "a.py", "/proj", &breakpoints);
    let commands: Vec<&str> = plan.iter().map(|p| p.command.as_str()).collect();
    assert_eq!(
        commands,
        vec!["initialize", "launch", "setBreakpoints", "setBreakpoints", "configurationDone"]
    );
    let first = String::from_utf8(plan[2].frame.clone()).unwrap();
    assert!(first.contains("\"seq\":3"));
    assert!(first.contains("{\"source\":{\"path\":\"a.py\"},\"breakpoints\":[{\"line\":5},{\"line\":9}]}"));
    let second = String::from_utf8(plan[3].frame.clone()).unwrap();
    assert!(second.contains("\"seq\":4"));
    assert!(second.contains("{\"source\":{\"path\":\"b.py\"},\"breakpoints\":[{\"line\":3}]}"));
    let done = String::from_utf8(plan[4].frame.clone()).unwrap();
    assert!(done.contains("\"seq\":5"));
    assert!(done.contains("\"command\":\"configurationDone\""));
}

#[test]
fn linter_reports_parse_with_defaults_and_skips() {
    let loc = |row: u64, col: u64| obj(vec![("row", JValue::UInt(row)), ("column", JValue::UInt(col))]);
    let report = JValue::Arr(vec![
        obj(vec![
            ("code", s("F401")),
            ("message", s("unused import")),
            ("location", loc(3, 1)),
            ("end_location", loc(3, 8)),
            ("filename", s("lib.py")),
        ]),
        obj(vec![
            ("code", s("E501")),
            ("message", s("line too long")),
            ("location", loc(9, 89)),
        ]),
        obj(vec![("message", s("no code here")), ("location", loc(1, 1))]),
    ]);
    let findings = parse_ruff_diagnostics(&report, "main.py");
    assert_eq!(findings.len(), 2);
    assert_eq!(findings[0].rule, "F401");
    assert_eq!(findings[0].filename, "lib.py");
    assert_eq!((findings[0].end_line, findings[0].end_column), (3, 8));
    assert_eq!(findings[1].rule, "E501");
    assert_eq!(findings[1].filename, "main.py");
    assert_eq!((findings[1].end_line, findings[1].end_column), (9, 90));
    assert_eq!(findings[1].severity, "warning");
    assert!(parse_ruff_diagnostics(&JValue::Null, "main.py").is_empty());
}
