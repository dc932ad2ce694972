//! The import of agent sessions.

use egregore::codex::{
    build_output_summary, emit_cost_usage, emit_interruption_diagnostic,
    emit_unknown_event_diagnostic, import_events, make_edge, output_handle, redact, safe_truncate,
    signed_decimal, surrogate_hash, texts_to_redact, tool_status, ImportCtx, ImportOptions, NoEvents,
    DEFAULT_TIMESTAMP, DOMAIN, IMPORTER_ID, IMPORTER_VERSION, INLINE_PAYLOAD_CEILING,
    SOURCE_FORMAT_VERSION,
};
use egregore::codex_events::{
    check_required, event_lines, extract_cmd_parts, extract_command_from_arguments,
    extract_target_file_from_parts, group_events, is_file_edit_command_parts,
    is_patch_command_parts, is_test_command, lacking_field, parse_output_field, tool_kind_for,
    CodexEvent,
    CodexFunctionCall, CodexFunctionCallOutput, CodexInterrupted, CodexMessage,
    CodexRolloutHeader, CodexSessionHeader, CodexUsage, LackingField, SessionFlavor,
};
use egregore::ir::{EdgeLabel, GraphRecord, NodeKind, NodeRecord, OutputHandle};
use egregore::keys::{hash_text, records_hash};


#[test]
fn extract_command_from_shell_args() {
    let args = r#"{"cmd":["cat","calc.py"]}"#;
    assert_eq!(extract_command_from_arguments(args), "cat calc.py");
}

#[test]
fn extract_command_from_non_shell_args() {
    let args = "some plain string";
    assert_eq!(extract_command_from_arguments(args), "some plain string");
}

#[test]
fn test_command_detection() {
    assert!(is_test_command("cargo test"));
    assert!(is_test_command("cargo test --all"));
    assert!(is_test_command("python -m pytest tests/"));
    assert!(!is_test_command("cat foo.py"));
    assert!(!is_test_command("git apply foo.patch"));
}

#[test]
fn patch_command_detection() {
    let parts: Vec<String> = vec!["git".to_owned(), "apply".to_owned(), "foo.patch".to_owned()];
    assert!(is_patch_command_parts(&parts));
    let parts2: Vec<String> = vec!["patch".to_owned(), "-p1".to_owned()];
    assert!(is_patch_command_parts(&parts2));
    let parts3: Vec<String> = vec!["cat".to_owned(), "foo.py".to_owned()];
    assert!(!is_patch_command_parts(&parts3));
}

#[test]
fn file_edit_command_detection() {
    let sed: Vec<String> = vec![
        "sed".to_owned(),
        "-i".to_owned(),
        "s/a/b/g".to_owned(),
        "file.py".to_owned(),
    ];
    assert!(is_file_edit_command_parts(&sed));
    let tee: Vec<String> = vec!["tee".to_owned(), "-a".to_owned(), "file.py".to_owned()];
    assert!(is_file_edit_command_parts(&tee));
    let cat: Vec<String> = vec!["cat".to_owned(), "file.py".to_owned()];
    assert!(!is_file_edit_command_parts(&cat));
}

#[test]
fn parse_output_field_with_json() {
    let raw = r#"{"exit_code":0,"stdout":"ok\n","stderr":""}"#;
    let p = parse_output_field(raw);
    assert_eq!(p.exit_code, Some(0));
    assert_eq!(p.stdout.as_deref(), Some("ok\n"));
    assert!(p.stderr.is_none());
}

#[test]
fn parse_output_field_plain_text() {
    let raw = "plain output";
    let p = parse_output_field(raw);
    assert_eq!(p.stdout.as_deref(), Some("plain output"));
    assert!(p.exit_code.is_none());
}

#[test]
fn blake3_is_stable() {
    let a = hash_text("hello");
    let b = hash_text("hello");
    assert_eq!(a, b);
    assert_ne!(hash_text("hello"), hash_text("world"));
    assert_eq!(
        a,
        "ea8f163db38682925e4491c5e58d4bb3506ef8c14eb78a86e908c5624a67200f"
    );
}

#[test]
fn group_events_basic_session() {
    let events = vec![
        (
            0,
            CodexEvent::Session(CodexSessionHeader {
                id: Some("sess_1".to_owned()),
                model: Some("o4-mini".to_owned()),
                ..Default::default()
            }),
        ),
        (
            1,
            CodexEvent::Message(CodexMessage {
                role: "user".to_owned(),
                content: vec![],
                id: None,
                status: None,
                usage: None,
            }),
        ),
        (
            2,
            CodexEvent::Message(CodexMessage {
                role: "assistant".to_owned(),
                content: vec![],
                id: Some("msg_1".to_owned()),
                status: Some("completed".to_owned()),
                usage: None,
            }),
        ),
        (
            3,
            CodexEvent::FunctionCall(CodexFunctionCall {
                call_id: "call_1".to_owned(),
                name: "shell".to_owned(),
                arguments: Some(r#"{"cmd":["cat","f.py"]}"#.to_owned()),
                id: None,
                status: None,
            }),
        ),
        (
            4,
            CodexEvent::FunctionCallOutput(CodexFunctionCallOutput {
                call_id: "call_1".to_owned(),
                output: Some(
                    r#"{"exit_code":0,"stdout":"def f():pass","stderr":""}"#.to_owned(),
                ),
            }),
        ),
    ];
    let grouped = group_events(events);
    assert_eq!(grouped.turns.len(), 1);
    assert_eq!(grouped.turns[0].tool_calls.len(), 1);
    assert!(grouped.turns[0].tool_calls[0].1.is_some());
}

fn message(role: &str) -> CodexEvent {
    CodexEvent::Message(CodexMessage {
        role: role.to_owned(),
        content: vec![],
        id: None,
        status: None,
        usage: None,
    })
}

fn call(id: &str, name: &str, arguments: &str) -> CodexEvent {
    CodexEvent::FunctionCall(CodexFunctionCall {
        call_id: id.to_owned(),
        name: name.to_owned(),
        arguments: Some(arguments.to_owned()),
        id: None,
        status: None,
    })
}

fn output(id: &str, text: &str) -> CodexEvent {
    CodexEvent::FunctionCallOutput(CodexFunctionCallOutput {
        call_id: id.to_owned(),
        output: Some(text.to_owned()),
    })
}

fn numbered(events: Vec<CodexEvent>) -> Vec<(usize, CodexEvent)> {
    events.into_iter().enumerate().collect()
}

fn nodes(records: &[GraphRecord]) -> Vec<&NodeRecord> {
    records
        .iter()
        .filter_map(|r| match r {
            GraphRecord::Node(n) => Some(n),
            _ => None,
        })
        .collect()
}

fn kinds(records: &[GraphRecord]) -> Vec<NodeKind> {
    nodes(records).iter().map(|n| n.kind).collect()
}

fn ctx() -> ImportCtx {
    ImportCtx {
        source_artifact_path: "s.jsonl".to_owned(),
        source_artifact_hash: "h".to_owned(),
        session_id: "sess".to_owned(),
        default_timestamp: DEFAULT_TIMESTAMP.to_owned(),
    }
}

fn import(exit_code: i64) -> Vec<GraphRecord> {
    let events = numbered(vec![
        CodexEvent::Session(CodexSessionHeader {
            id: Some("sess_1".to_owned()),
            model: Some("o4-mini".to_owned()),
            ..Default::default()
        }),
        message("user"),
        message("assistant"),
        call("c1", "shell", r#"{"cmd":["cargo","test"]}"#),
        output("c1", &format!(r#"{{"exit_code":{exit_code},"stdout":"ok"}}"#)),
    ]);
    import_events(
        &b"raw".to_vec(),
        "s.jsonl",
        events,
        &ImportOptions::default(),
    )
    .unwrap_or_else(|e| panic!("{e:?}"))
}

#[test]
fn blank_lines_are_not_events() {
    assert_eq!(
        event_lines("a\n\n  \nb\r\n"),
        vec![(0, "a".to_owned()), (3, "b".to_owned())]
    );
    assert!(event_lines("").is_empty());
}

#[test]
fn an_output_waits_for_its_own_call() {
    let grouped = group_events(numbered(vec![
        message("assistant"),
        call("c1", "shell", "{}"),
        output("other", "x"),
        call("c2", "shell", "{}"),
    ]));
    assert_eq!(grouped.turns.len(), 1);
    assert_eq!(grouped.turns[0].tool_calls.len(), 2);
    assert!(grouped.turns[0].tool_calls[0].1.is_none());
    assert!(grouped.turns[0].tool_calls[1].1.is_none());
}

#[test]
fn turns_are_numbered_in_place() {
    let grouped = group_events(numbered(vec![
        message("assistant"),
        message("user"),
        message("assistant"),
        CodexEvent::Unknown,
        CodexEvent::Interrupted(CodexInterrupted::default()),
    ]));
    let places: Vec<u64> = grouped.turns.iter().map(|t| t.turn_index).collect();
    assert_eq!(places, vec![0, 1]);
    assert_eq!(grouped.unknown_indices, vec![3]);
    assert_eq!(grouped.interruptions.len(), 1);
    assert_eq!(grouped.flavor, SessionFlavor::Unknown);
}

#[test]
fn the_last_header_decides_the_flavor() {
    let rollout = CodexRolloutHeader {
        run_id: Some("r".to_owned()),
        ..Default::default()
    };
    let grouped = group_events(numbered(vec![
        CodexEvent::Session(CodexSessionHeader::default()),
        CodexEvent::Rollout(rollout.clone()),
    ]));
    assert_eq!(grouped.flavor, SessionFlavor::Rollout(rollout));
}

#[test]
fn tools_are_told_apart() {
    let parts = |s: &str| -> Vec<String> { s.split(' ').map(str::to_owned).collect() };
    let none: Vec<String> = Vec::new();
    let kinds: Vec<String> = vec![
        tool_kind_for("shell", &parts("git apply x.patch")),
        tool_kind_for("shell", &parts("sed -i s/a/b/ f.py")),
        tool_kind_for("shell", &parts("cargo test")),
        tool_kind_for("shell", &parts("ls")),
        tool_kind_for("browser", &none),
    ];
    assert_eq!(kinds.len(), 5);
    assert_ne!(kinds[0], kinds[3]);
    assert_eq!(
        extract_target_file_from_parts(&parts("sed -i s/a/b/ f.py")).as_deref(),
        Some("f.py")
    );
    assert_eq!(extract_target_file_from_parts(&none), None);
}

#[test]
fn command_parts_are_read_from_the_list() {
    assert_eq!(
        extract_cmd_parts(r#"{"cmd":["git","apply","a.patch"]}"#),
        vec!["git", "apply", "a.patch"]
    );
    assert_eq!(extract_cmd_parts("ls -l"), vec!["ls -l"]);
}

#[test]
fn usage_counts_default_to_nil() {
    let usage = CodexUsage {
        input_tokens: Some(3),
        output_tokens: None,
        total_tokens: Some(7),
    };
    assert_eq!((usage.input(), usage.output(), usage.total()), (3, 0, 7));
}

#[test]
fn texts_are_redacted_by_the_table() {
    let opts = ImportOptions {
        redactions: vec![("secret".to_owned(), "***".to_owned())],
    };
    assert_eq!(redact("secret", &opts), "***");
    assert_eq!(redact("plain", &opts), "plain");
    assert_eq!(redact("secret", &ImportOptions::default()), "secret");
}

#[test]
fn long_texts_are_cut_between_characters() {
    assert_eq!(safe_truncate("abc", 3), "abc");
    assert!(safe_truncate("abcdef", 3).starts_with("abc"));
    let cut = safe_truncate("a\u{e9}b", 2);
    assert!(cut.starts_with('a') && !cut.contains('\u{e9}'));
}

#[test]
fn summaries_hold_both_outputs() {
    let opts = ImportOptions::default();
    let out = Some("one".to_owned());
    let err = Some("two".to_owned());
    let both = build_output_summary(&out, &err, &opts);
    assert!(both.contains("one") && both.contains("two"));
    assert_ne!(both, build_output_summary(&out, &None, &opts));
}

#[test]
fn exit_codes_name_the_status() {
    assert_ne!(tool_status(Some(0)), tool_status(Some(1)));
    assert_ne!(tool_status(None), tool_status(Some(1)));
    assert_eq!(signed_decimal(-12), "-12");
    assert_eq!(signed_decimal(i64::MIN), "-9223372036854775808");
    assert_eq!(signed_decimal(7), "7");
}

#[test]
fn long_contents_are_only_hashed() {
    let short = output_handle("abc");
    assert_eq!(short.inline.as_deref(), Some("abc"));
    assert_eq!(short.hash, hash_text("abc"));
    let long = "x".repeat(INLINE_PAYLOAD_CEILING as usize + 1);
    let handle = output_handle(&long);
    assert!(handle.inline.is_none());
    assert_eq!(handle.hash, hash_text(&long));
    let full = "x".repeat(INLINE_PAYLOAD_CEILING as usize);
    assert!(output_handle(&full).inline.is_some());
}

#[test]
fn surrogate_hashes_differ_by_phase() {
    let c = ctx();
    assert_ne!(
        surrogate_hash(&c, "f.py", "before", "sed"),
        surrogate_hash(&c, "f.py", "after", "sed")
    );
    assert_eq!(surrogate_hash(&c, "f", "p", "c").len(), 64);
}

#[test]
fn every_node_names_its_artifact() {
    for n in nodes(&import(0)) {
        assert_eq!(n.importer_id.as_deref(), Some(IMPORTER_ID));
        assert_eq!(n.importer_version.as_deref(), Some(IMPORTER_VERSION));
        assert_eq!(n.domain.as_deref(), Some(DOMAIN));
        assert_eq!(n.source_artifact_path.as_deref(), Some("s.jsonl"));
        assert_eq!(
            n.source_artifact_hash.as_deref(),
            Some(records_hash(&b"raw".to_vec()).as_str())
        );
    }
    assert_eq!(SOURCE_FORMAT_VERSION, "codex-cli-1.0");
}

#[test]
fn only_passing_tests_verify() {
    assert!(kinds(&import(0)).contains(&NodeKind::Verification));
    assert!(!kinds(&import(1)).contains(&NodeKind::Verification));
}

#[test]
fn same_bytes_give_the_same_records() {
    let (a, b) = (import(0), import(0));
    assert_eq!(a.len(), b.len());
    assert!(a.iter().zip(&b).all(|(x, y)| x.same(y)));
    assert_eq!(kinds(&a)[0], NodeKind::AgentSession);
}

#[test]
fn a_transcript_without_events_is_refused() {
    let import = |events: Vec<CodexEvent>| {
        import_events(
            &b"raw".to_vec(),
            "e.jsonl",
            numbered(events),
            &ImportOptions::default(),
        )
        .map(|r| r.len())
    };
    assert_eq!(import(vec![]), Err(NoEvents));
    assert_eq!(import(vec![CodexEvent::Unknown, CodexEvent::Unknown]), Err(NoEvents));
    assert!(import(vec![CodexEvent::Unknown, message("user")]).is_ok());
    assert_eq!(import(vec![CodexEvent::Other]), Ok(5));
}

#[test]
fn an_event_of_another_kind_becomes_a_diagnostic() {
    let grouped = group_events(numbered(vec![CodexEvent::Other, CodexEvent::Unknown]));
    assert_eq!(grouped.unknown_indices, vec![0, 1]);
    let records = import_events(
        &b"raw".to_vec(),
        "s.jsonl",
        numbered(vec![CodexEvent::Other]),
        &ImportOptions::default(),
    )
    .unwrap_or_else(|e| panic!("{e:?}"));
    assert_eq!(
        kinds(&records),
        vec![NodeKind::AgentSession, NodeKind::AgentRun, NodeKind::Diagnostic]
    );
}

#[test]
fn absent_expected_fields_become_diagnostics() {
    let bare = CodexMessage {
        role: "assistant".to_owned(),
        content: vec![],
        id: None,
        status: None,
        usage: None,
    };
    let silent = CodexFunctionCallOutput {
        call_id: "c2".to_owned(),
        output: None,
    };
    let events = || {
        numbered(vec![
            CodexEvent::Message(bare.clone()),
            call("c1", "shell", "{}"),
            output("c1", r#"{"stdout":"","stderr":"e"}"#),
            call("c2", "shell", "{}"),
            CodexEvent::FunctionCallOutput(silent.clone()),
            output("c3", "plain text"),
        ])
    };
    assert_eq!(
        group_events(events()).gaps,
        vec![(0, "content"), (0, "id"), (0, "status"), (2, "exit_code"), (4, "output")]
    );
    let records = import_events(&b"raw".to_vec(), "s.jsonl", events(), &ImportOptions::default())
        .unwrap_or_else(|e| panic!("{e:?}"));
    let told: Vec<&str> = nodes(&records)
        .into_iter()
        .filter(|n| n.kind == NodeKind::Diagnostic)
        .map(|n| n.summary.as_str())
        .collect();
    assert_eq!(
        told,
        vec![
            "Unrecognized or malformed event at line 5",
            "Missing expected field content at line 0",
            "Missing expected field id at line 0",
            "Missing expected field status at line 0",
            "Missing expected field exit_code at line 2",
            "Missing expected field output at line 4",
        ]
    );
}

#[test]
fn a_required_field_is_asked_for() {
    assert_eq!(lacking_field(r#"{"role":"user"}"#), Some("type"));
    assert_eq!(lacking_field(r#"{"type":"message"}"#), Some("role"));
    assert_eq!(lacking_field(r#"{"type":"message","role":"user"}"#), None);
    assert_eq!(lacking_field(r#"{"type":"function_call","name":"shell"}"#), Some("call_id"));
    assert_eq!(lacking_field(r#"{"type":"function_call","call_id":"c"}"#), Some("name"));
    assert_eq!(lacking_field(r#"{"type":"function_call_output"}"#), Some("call_id"));
    assert_eq!(lacking_field(r#"{"type":"telemetry"}"#), None);
    assert_eq!(lacking_field("not json"), None);
    let lines = event_lines("{\"type\":\"telemetry\"}\nnot json\n{\"type\":\"message\"}\n");
    assert_eq!(check_required(&lines), Err(LackingField { line: 2, field: "role" }));
    assert_eq!(check_required(&lines[..2].to_vec()), Ok(()));
}

#[test]
fn output_is_stored_only_as_it_was_redacted() {
    let events = || {
        numbered(vec![
            message("assistant"),
            call("c1", "shell", r#"{"cmd":["cat","f"]}"#),
            output("c1", r#"{"exit_code":1,"stdout":"HIDDEN-OUT","stderr":"HIDDEN-ERR"}"#),
        ])
    };
    let mut opts = ImportOptions::default();
    let grouped = group_events(events());
    for text in texts_to_redact(&grouped.turns[0].tool_calls[0], &opts) {
        opts.redactions.push((text, "X".to_owned()));
    }
    let records = import_events(&b"raw".to_vec(), "s.jsonl", events(), &opts)
        .unwrap_or_else(|e| panic!("{e:?}"));
    for n in nodes(&records) {
        assert!(!format!("{n:?}").contains("HIDDEN"), "{n:?}");
    }
    let run = nodes(&records)
        .into_iter()
        .find(|n| n.kind == NodeKind::CommandRun)
        .unwrap_or_else(|| panic!("no run"));
    let inline = |h: &Option<OutputHandle>| h.as_ref().and_then(|h| h.inline.clone());
    assert_eq!(inline(&run.stdout_handle).as_deref(), Some("X"));
    assert_eq!(inline(&run.stderr_handle).as_deref(), Some("X"));
}

#[test]
fn what_is_not_understood_becomes_a_diagnostic() {
    let mut out: Vec<GraphRecord> = Vec::new();
    emit_unknown_event_diagnostic(&mut out, 4, "run", &ctx());
    let after_unknown = out.len();
    assert!(after_unknown > 0);
    let stopped = CodexInterrupted {
        reason: Some("user".to_owned()),
        at: Some("2024-01-01T00:00:00Z".to_owned()),
    };
    emit_interruption_diagnostic(&mut out, 0, &stopped, "run", &ctx());
    assert!(out.len() > after_unknown);
    emit_cost_usage(&mut out, 0, "turn", &CodexUsage::default(), &ctx());
    assert!(kinds(&out).contains(&NodeKind::Diagnostic));
    assert_eq!(nodes(&out)[0].session_id.as_deref(), Some("sess"));
}

#[test]
fn all_texts_of_a_call_are_offered_for_redaction() {
    let grouped = group_events(numbered(vec![
        message("assistant"),
        call("c1", "shell", r#"{"cmd":["cat","f"]}"#),
        output("c1", r#"{"exit_code":0,"stdout":"hush"}"#),
    ]));
    let texts = texts_to_redact(&grouped.turns[0].tool_calls[0], &ImportOptions::default());
    assert!(texts.iter().any(|t| t == "cat f"));
}

#[test]
fn edges_of_an_import_have_stable_identifiers() {
    let a = make_edge(EdgeLabel::OwnedByTask, "a", "b", "s");
    let b = make_edge(EdgeLabel::OwnedByTask, "a", "b", "s");
    let c = make_edge(EdgeLabel::OwnedByTask, "a", "c", "s");
    assert_eq!(a.id(), b.id());
    assert_ne!(a.id(), c.id());
}
