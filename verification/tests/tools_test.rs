use lingxiao_core::document_tools::{
    document_error_message, document_error_payload, text_metadata, text_result,
    validate_read_path, DocumentPath, DocumentPlan, DocumentToolError,
    DocumentToolRunner, ToolAction, ToolEvent,
};
use lingxiao_core::json::Json;
use lingxiao_core::mcp_bridge::{
    bridge_result, call_result, mcp_error_message, mcp_error_payload, not_running_error,
    request_line, stop_reason_of, tools_list_request, BridgeAction, BridgeEvent, ExchangeEvent,
    McpBridgeError, McpBridgeRequest, McpBridgeRunner, McpServerStart, StartAction, StartEvent,
};
use lingxiao_core::output::{append_bounded, first_line_or, response_lines, tail_utf8, BoundedOutput};
use lingxiao_core::process::{
    child_kill_outcome, debug_row, exit_code_of, kill_outcome, kill_target, probe_says_alive,
    exit_code_says_alive, gone_poll, kill_command_outcome, kill_command_result, probe_says_running,
    process_key_of, CleanupReport, GonePoll, OwnedProcess, ProcessMark, ProcessRow,
    UnixKillTarget,
};
use lingxiao_core::repl::{
    runtime_candidates, EvalAction, EvalEvent, ReplRunner, ReplEvalError, ReplEvalRequest,
};
use lingxiao_core::sidecar::{
    append_output, choose_frame, find_answer, poll_run, FoundAnswer, FrameChoice, FrameKind,
    PermissionLease, RunAction, RunEvent, RunMark, RunPoll, SidecarErrorCode, SidecarRun,
    SidecarScheduler, SIDE_CAR_OUTPUT_LIMIT,
};
use lingxiao_core::terminal::{
    kill_result, read_result, send_result, shell_command, terminal_read_json, CreateEvent,
    KillEvent, SendEvent, StatusEvent, TerminalCreateOptions, TerminalManager, TerminalMark,
};

fn strings(list: &[&str]) -> Vec<String> {
    list.iter().map(|s| s.to_string()).collect()
}

#[test]
fn test_sidecar_scheduler_creation() {
    let mut scheduler = SidecarScheduler::new();
    let handle = scheduler.register_cancel_token("ct-create");
    assert_eq!(handle.token_id(), "ct-create");
    assert!(!handle.is_cancelled(&scheduler));
    assert!(scheduler.cancel("ct-create"));
    assert!(handle.is_cancelled(&scheduler));
}

#[test]
fn test_tokens_stand_for_the_latest_run() {
    let mut scheduler = SidecarScheduler::new();
    let first = scheduler.register_cancel_token("t");
    let second = scheduler.register_cancel_token("t");
    assert!(scheduler.cancel("t"));
    assert!(!first.is_cancelled(&scheduler));
    assert!(second.is_cancelled(&scheduler));
    assert!(scheduler.unregister_cancel_token("t"));
    assert!(!scheduler.unregister_cancel_token("t"));
    assert!(!scheduler.cancel("t"));
    assert!(second.is_cancelled(&scheduler));
}

#[test]
fn test_permission_lease_scope_and_expiry() {
    let scheduler = SidecarScheduler::new();
    let now = 1_700_000_000_000;
    let scope = strings(&["/", "tmp", "lingxiao_lease_scope"]);
    let lease =
        PermissionLease { scope: scope.clone(), generation: 1, expires_at: now + 10_000 };
    let inside = strings(&["/", "tmp", "lingxiao_lease_scope", "ok.txt"]);
    assert!(scheduler.validate_permission_lease(&lease, &inside, now).is_ok());
    assert!(matches!(
        scheduler.validate_permission_lease(&lease, &strings(&["/", "tmp", "outside.txt"]), now),
        Err(SidecarErrorCode::FileWriteDenied)
    ));
    assert!(scheduler.validate_permission_lease(&lease, &scope, now).is_ok());
    let expired = PermissionLease { expires_at: now - 1, ..lease };
    assert!(matches!(
        scheduler.validate_permission_lease(&expired, &inside, now),
        Err(SidecarErrorCode::PermissionDenied)
    ));
}

#[test]
fn test_permission_lease_scope_uses_path_boundary_not_prefix() {
    let scheduler = SidecarScheduler::new();
    let now = 1_700_000_000_000;
    let lease = PermissionLease {
        scope: strings(&["/", "tmp", "lingxiao_scope_boundary"]),
        generation: 1,
        expires_at: now + 10_000,
    };
    let sibling = strings(&["/", "tmp", "lingxiao_scope_boundary_safe", "escape.txt"]);
    assert!(matches!(
        scheduler.validate_permission_lease(&lease, &sibling, now),
        Err(SidecarErrorCode::FileWriteDenied)
    ));
}

#[test]
fn test_parse_sidecar_frames_skips_progress_heartbeat_and_returns_completed() {
    let stdout = "{\"Progress\":1}\n\n{\"heartbeat\":1}\n  \n{\"Completed\":1}\n";
    let lines = response_lines(stdout);
    assert_eq!(lines, vec!["{\"Progress\":1}", "{\"heartbeat\":1}", "{\"Completed\":1}"]);
    let frames = [FrameKind::Progress, FrameKind::Heartbeat, FrameKind::Completed];
    assert_eq!(choose_frame(&frames), FrameChoice::Answer(2));
}

#[test]
fn test_which_line_is_the_answer() {
    let (completed, error) = (FrameKind::Completed, FrameKind::Error);
    let (last, chunk, bad) = (FrameKind::FinalChunk, FrameKind::Chunk, FrameKind::Malformed);
    assert_eq!(choose_frame(&[last, error, completed]), FrameChoice::Answer(1));
    assert_eq!(choose_frame(&[last, chunk, last]), FrameChoice::Answer(2));
    assert_eq!(choose_frame(&[bad, last, bad]), FrameChoice::Answer(1));
    assert_eq!(choose_frame(&[bad, FrameKind::Progress, bad]), FrameChoice::Unreadable(2));
    assert_eq!(choose_frame(&[FrameKind::Heartbeat, chunk]), FrameChoice::Nothing);
    assert_eq!(choose_frame(&[]), FrameChoice::Nothing);
}

fn running(request: &str, timeout_ms: u64) -> SidecarRun {
    let mut scheduler = SidecarScheduler::new();
    let (handle, mut run) = scheduler.execute(request, "token", timeout_ms);
    assert_eq!(handle.token_id(), "token");
    assert!(scheduler.cancel("token"));
    assert!(handle.is_cancelled(&scheduler));
    assert!(matches!(run.step(RunEvent::Started), RunAction::Send));
    assert!(matches!(run.step(RunEvent::Sent), RunAction::Look));
    run
}

fn collected(out: &str, err: &str) -> RunEvent {
    RunEvent::Collected { stdout: out.as_bytes().to_vec(), stderr: err.as_bytes().to_vec() }
}

#[test]
fn test_stdio_sidecar_completed_roundtrip() {
    let mut run = running("req_echo", 5_000);
    assert!(matches!(
        run.step(RunEvent::Looked { cancelled: false, elapsed_ns: 0 }),
        RunAction::Wait { at_most_ns: 10_000_000 }
    ));
    assert!(matches!(run.step(RunEvent::StillRunning), RunAction::Look));
    assert!(matches!(
        run.step(RunEvent::Exited { success: true, status: "0".into(), code: Some(0) }),
        RunAction::Collect
    ));
    match run.step(collected("hm\n \n{}\r\n", "warned")) {
        RunAction::Read { lines } => assert_eq!(lines, strings(&["hm", "{}"])),
        other => panic!("unexpected {other:?}"),
    }
    assert!(matches!(
        run.step(RunEvent::Lines { frames: vec![FrameKind::Completed] }),
        RunAction::Ignore
    ));
    let frames = vec![FrameKind::Malformed, FrameKind::Completed];
    match run.step(RunEvent::Lines { frames }) {
        RunAction::Finish { answer: Ok(x), mark: RunMark::Completed(Some(0)), forget_token } => {
            assert_eq!(x.response, "{}");
            assert_eq!(x.stdout, "hm\n \n{}\r\n");
            assert_eq!(x.stderr, "warned");
            assert!(forget_token);
        }
        other => panic!("unexpected {other:?}"),
    }
    assert!(matches!(run.step(RunEvent::Started), RunAction::Ignore));
}

#[test]
fn test_stdio_sidecar_timeout_maps_to_error() {
    let mut run = running("req_timeout", 50);
    assert!(matches!(
        run.step(RunEvent::Looked { cancelled: false, elapsed_ns: 50_000_001 }),
        RunAction::Kill
    ));
    match run.step(collected("", "late")) {
        RunAction::Finish { answer: Err(err), mark, forget_token } => {
            assert!(matches!(err.code, SidecarErrorCode::Timeout));
            assert_eq!(err.request_id, "req_timeout");
            assert_eq!(err.message, "sidecar timeout");
            assert_eq!(err.details, Some(b"late".to_vec()));
            assert_eq!(mark.failure_note(), Some("sidecar timeout"));
            assert!(forget_token);
        }
        other => panic!("unexpected {other:?}"),
    }
}

#[test]
fn test_other_ends_of_a_sidecar() {
    let mut run = SidecarRun::new("r", 1);
    match run.step(RunEvent::NotStarted { message: "no such file".into() }) {
        RunAction::Finish { answer: Err(e), mark, forget_token } => {
            assert_eq!(e.code, SidecarErrorCode::TransportError);
            assert_eq!(e.message, "no such file");
            assert_eq!(e.details, None);
            assert_eq!(mark.failure_note(), None);
            assert!(!forget_token);
        }
        other => panic!("unexpected {other:?}"),
    }
    let mut run = running("r", 1);
    run.step(RunEvent::Looked { cancelled: true, elapsed_ns: u128::MAX });
    match run.step(collected("", "")) {
        RunAction::Finish { answer: Err(e), mark, .. } => {
            assert_eq!(e.code, SidecarErrorCode::Cancelled);
            assert_eq!(mark, RunMark::Cancelled);
        }
        other => panic!("unexpected {other:?}"),
    }
    let mut run = running("r", 1);
    run.step(RunEvent::Exited { success: false, status: "exit status: 3".into(), code: Some(3) });
    match run.step(collected("x", "y")) {
        RunAction::Finish { answer: Err(e), mark, .. } => {
            assert_eq!(e.code, SidecarErrorCode::Crash);
            assert_eq!(e.message, "sidecar exited with status exit status: 3");
            assert_eq!(mark.failure_note(), Some("sidecar crashed"));
        }
        other => panic!("unexpected {other:?}"),
    }
    let mut run = running("r", 1);
    run.step(RunEvent::Exited { success: true, status: "0".into(), code: Some(0) });
    run.step(collected("garbage", ""));
    assert!(matches!(
        run.step(RunEvent::Lines { frames: vec![FrameKind::Malformed] }),
        RunAction::Explain { line } if line == "garbage"
    ));
    let nothing = find_answer(&[], " \n".into(), "".into());
    assert!(matches!(nothing, FoundAnswer::Unreadable { line } if line.is_empty()));
    match run.step(RunEvent::Explained { message: "expected value".into() }) {
        RunAction::Finish { answer: Err(e), mark: RunMark::Untouched, forget_token: false } => {
            assert_eq!(e.code, SidecarErrorCode::ProtocolError);
            assert_eq!(e.details, Some(b"garbage".to_vec()));
        }
        other => panic!("unexpected {other:?}"),
    }
}

#[test]
fn test_polling_never_waits_beyond_the_timeout() {
    assert_eq!(poll_run(false, 0, 5), RunPoll::Wait { at_most_ns: 5_000_000 });
    assert_eq!(poll_run(false, 5_000_000, 5), RunPoll::Wait { at_most_ns: 0 });
    assert_eq!(poll_run(false, 5_000_001, 5), RunPoll::TimedOut);
    assert_eq!(poll_run(true, 5_000_001, 5), RunPoll::Cancelled);
    assert_eq!(poll_run(false, 7, u64::MAX), RunPoll::Wait { at_most_ns: 10_000_000 });
}

#[test]
fn test_outputs_are_bounded() {
    let mut buffer = b"abc".to_vec();
    assert!(!append_bounded(&mut buffer, b"de", 5));
    assert!(append_bounded(&mut buffer, b"fg", 5));
    assert_eq!(buffer, b"cdefg");
    let mut output = BoundedOutput::default();
    output.append(b"123456", 4);
    output.append(b"7", 4);
    assert_eq!(output.bytes, b"4567");
    assert!(output.truncated);
    let mut big = vec![0; SIDE_CAR_OUTPUT_LIMIT];
    append_output(&mut big, &[1, 2]);
    assert_eq!(big.len(), SIDE_CAR_OUTPUT_LIMIT);
    assert_eq!(big[SIDE_CAR_OUTPUT_LIMIT - 2..], [1, 2]);
    assert_eq!(tail_utf8(b"hello", 3), "llo");
    assert_eq!(tail_utf8(b"a\xff", 9), "a\u{fffd}");
    assert_eq!(first_line_or("a\r\nb", "x"), "a");
    assert_eq!(first_line_or("", "x"), "x");
    assert_eq!(first_line_or("\nb", "x"), "");
}

#[test]
fn test_repl_runner_missing_runtime_is_typed() {
    let err = ReplRunner::eval(&ReplEvalRequest {
        eval_id: "missing".to_string(),
        language: "definitely-not-a-runtime".to_string(),
        code: "1".to_string(),
        cwd: None,
        timeout_ms: 100,
    })
    .unwrap_err();
    assert_eq!(
        err,
        ReplEvalError::MissingRuntime { language: "definitely-not-a-runtime".to_string() }
    );
}

#[test]
fn test_every_runtime_is_tried() {
    let request = ReplEvalRequest {
        eval_id: "e1".into(),
        language: "Python".into(),
        code: "1".into(),
        cwd: None,
        timeout_ms: 100,
    };
    let mut eval = ReplRunner::eval(&request).unwrap();
    assert_eq!(eval.candidates().len(), 2);
    assert_eq!(eval.candidates()[1].args, strings(&["-3", "-c", "1"]));
    assert!(matches!(eval.step(EvalEvent::NotFound), EvalAction::Start { candidate: 1 }));
    match eval.step(EvalEvent::NotFound) {
        EvalAction::Finish { result: Err(e), mark } => {
            assert_eq!(e, ReplEvalError::MissingRuntime { language: "Python".into() });
            assert_eq!(mark, ProcessMark::Untouched);
        }
        other => panic!("unexpected {other:?}"),
    }
    let js = runtime_candidates("JS", "x").unwrap();
    assert_eq!(js[0].program, "node");
    assert_eq!(js[0].args, strings(&["-e", "x"]));
    assert!(runtime_candidates("COBOL", "x").is_err());
}

fn waiting_eval() -> ReplRunner {
    let mut eval = ReplRunner::eval(&ReplEvalRequest {
        eval_id: "e2".into(),
        language: "js".into(),
        code: "1".into(),
        cwd: None,
        timeout_ms: 70,
    })
    .unwrap();
    assert!(matches!(eval.step(EvalEvent::Started { pid: 9 }), EvalAction::Note));
    assert!(matches!(eval.step(EvalEvent::Noted), EvalAction::Wait { at_most_ms: 70 }));
    eval
}

#[test]
fn test_results_of_an_evaluation() {
    let mut eval = waiting_eval();
    assert!(matches!(eval.step(EvalEvent::Exited), EvalAction::Collect));
    let done = EvalEvent::Collected {
        success: false,
        code: None,
        stdout: b"o\xff".to_vec(),
        stderr: b"e".to_vec(),
    };
    match eval.step(done) {
        EvalAction::Finish { result: Ok(v), mark } => {
            assert_eq!(
                v.to_text(),
                "{\"eval_id\":\"e2\",\"exit_code\":-1,\"language\":\"js\",\"pid\":9,\"runtime\":\"node\",\"stderr\":\"e\",\"stdout\":\"o\u{fffd}\",\"success\":false}"
            );
            assert_eq!(mark, ProcessMark::Completed(-1));
        }
        other => panic!("unexpected {other:?}"),
    }
    let mut eval = waiting_eval();
    assert!(matches!(eval.step(EvalEvent::StillRunning), EvalAction::Kill));
    match eval.step(EvalEvent::Killed) {
        EvalAction::Finish { result: Err(ReplEvalError::Timeout), mark } => {
            assert_eq!(mark, ProcessMark::Failed("timeout".into()));
        }
        other => panic!("unexpected {other:?}"),
    }
    let mut eval = waiting_eval();
    match eval.step(EvalEvent::WaitFailed { message: "m".into() }) {
        EvalAction::Finish { result: Err(e), mark } => {
            assert_eq!(e, ReplEvalError::WaitFailed("m".into()));
            assert_eq!(mark, ProcessMark::Failed("m".into()));
        }
        other => panic!("unexpected {other:?}"),
    }
}

fn document(path: &str, extension: &str) -> DocumentPath {
    DocumentPath {
        parts: path.split('/').map(|s| s.to_string()).collect(),
        path: path.into(),
        extension: extension.into(),
        is_file: true,
    }
}

#[test]
fn test_parse_text_file_without_external_dependency() {
    assert_eq!(DocumentToolRunner::parse_file(&document("d/note.txt", "txt")).unwrap(), DocumentPlan::ReadText);
    let result = text_result("d/note.txt", "hello docs");
    assert_eq!(result.get("kind").unwrap().as_str(), Some("text"));
    assert_eq!(result.get("text").unwrap().as_str(), Some("hello docs"));
    let metadata = result.get("metadata").unwrap();
    assert_eq!(metadata.get("layout").unwrap().as_str(), Some("plain_text"));
    assert_eq!(*metadata.get("line_count").unwrap(), Json::number(1));
    assert_eq!(*metadata.get("byte_count").unwrap(), Json::number(10));
}

#[test]
fn test_office_file_reports_typed_missing_dependency() {
    let error = DocumentToolRunner::parse_file(&document("d/doc.docx", "docx")).unwrap_err();
    assert_eq!(
        document_error_payload(&error),
        Json::object()
            .with("kind", Json::text("missing_dependency"))
            .with("dependency", Json::text("soffice"))
    );
}

#[test]
fn test_plans_for_documents() {
    match DocumentToolRunner::parse_file(&document("a.PDF", "PDF")).unwrap() {
        DocumentPlan::Run { dependency, args, kind } => {
            assert_eq!(dependency, "pdftotext");
            assert_eq!(args, strings(&["a.PDF", "-"]));
            assert_eq!(kind, "pdf");
        }
        other => panic!("unexpected {other:?}"),
    }
    match DocumentToolRunner::ocr_image(&document("a.png", "png")).unwrap() {
        DocumentPlan::Run { dependency, args, kind } => {
            assert_eq!(dependency, "tesseract");
            assert_eq!(args, strings(&["a.png", "stdout"]));
            assert_eq!(kind, "ocr");
        }
        other => panic!("unexpected {other:?}"),
    }
    assert_eq!(
        DocumentToolRunner::parse_file(&document("a.XYZ", "XYZ")).unwrap_err(),
        DocumentToolError::UnsupportedType { extension: "xyz".into() }
    );
    assert_eq!(
        validate_read_path(&document("a/../b.txt", "txt")).unwrap_err(),
        DocumentToolError::UnsafePath
    );
    assert!(validate_read_path(&document("a/..b.txt", "txt")).is_ok());
    let missing = DocumentPath { is_file: false, ..document("a.txt", "txt") };
    assert_eq!(DocumentToolRunner::ocr_image(&missing).unwrap_err(), DocumentToolError::MissingFile);
}

#[test]
fn test_text_metadata_counts() {
    assert_eq!(
        text_metadata("\u{e9}a\nb\r\n\x0cc", "pdf").to_text(),
        r#"{"byte_count":9,"char_count":8,"layout":"pdf","line_count":3,"page_count":2}"#
    );
    assert_eq!(
        text_metadata("", "x").to_text(),
        r#"{"byte_count":0,"char_count":0,"layout":"x","line_count":0,"page_count":1}"#
    );
}

#[test]
fn test_messages_of_document_errors() {
    let d = || "pdftotext".to_string();
    let all = [
        (DocumentToolError::UnsafePath, "Document path is unsafe", "unsafe_path"),
        (DocumentToolError::MissingFile, "Document file does not exist", "missing_file"),
        (
            DocumentToolError::MissingDependency { dependency: d() },
            "Required external dependency is missing: pdftotext",
            "missing_dependency",
        ),
        (
            DocumentToolError::UnsupportedType { extension: "q".into() },
            "Unsupported document extension: q",
            "unsupported_type",
        ),
        (
            DocumentToolError::ExternalFailed { dependency: d(), message: "bad".into() },
            "pdftotext failed: bad",
            "external_failed",
        ),
        (DocumentToolError::Io("x".into()), "Document IO failed: x", "io_error"),
        (DocumentToolError::Timeout { dependency: d() }, "pdftotext timed out", "timeout"),
    ];
    for (error, message, kind) in all {
        assert_eq!(document_error_message(&error), message);
        let payload = document_error_payload(&error);
        assert_eq!(payload.get("kind").unwrap().as_str(), Some(kind));
        assert!(payload.get("message").is_none());
    }
}

#[test]
fn test_runs_of_document_tools() {
    let mut run = DocumentToolRunner::run_stdout_tool("pdftotext", "pdf", 5);
    match run.step(ToolEvent::NotFound) {
        ToolAction::Finish { result: Err(e), .. } => {
            assert_eq!(e, DocumentToolError::MissingDependency { dependency: "pdftotext".into() });
        }
        other => panic!("unexpected {other:?}"),
    }
    let mut run = DocumentToolRunner::run_stdout_tool("pdftotext", "pdf", 5);
    run.step(ToolEvent::Started);
    assert!(matches!(run.step(ToolEvent::Noted), ToolAction::Wait { at_most_ms: 5 }));
    assert!(matches!(run.step(ToolEvent::Exited), ToolAction::Collect));
    let failed = ToolEvent::Collected {
        success: false,
        code: Some(2),
        stdout: Vec::new(),
        stderr: b"broken\nmore".to_vec(),
    };
    match run.step(failed) {
        ToolAction::Finish { result: Err(e), mark } => {
            assert_eq!(document_error_message(&e), "pdftotext failed: broken");
            assert_eq!(mark, ProcessMark::Failed("broken".into()));
        }
        other => panic!("unexpected {other:?}"),
    }
    let mut run = DocumentToolRunner::run_stdout_tool("pdftotext", "pdf", 5);
    run.step(ToolEvent::Started);
    run.step(ToolEvent::Noted);
    run.step(ToolEvent::StillRunning);
    match run.step(ToolEvent::Killed) {
        ToolAction::Finish { result: Err(e), mark } => {
            assert_eq!(e, DocumentToolError::Timeout { dependency: "pdftotext".into() });
            assert_eq!(mark, ProcessMark::Untouched);
        }
        other => panic!("unexpected {other:?}"),
    }
}

fn bridge_request(program: &str) -> McpBridgeRequest {
    McpBridgeRequest {
        bridge_id: "b1".into(),
        program: program.into(),
        args: Vec::new(),
        cwd: None,
        payload: Json::object().with("id", Json::number(1)),
        timeout_ms: 40,
    }
}

fn waiting_bridge() -> McpBridgeRunner {
    let mut run = McpBridgeRunner::invoke(&bridge_request("server")).unwrap();
    assert!(matches!(run.step(BridgeEvent::Started), BridgeAction::Note));
    match run.step(BridgeEvent::Noted) {
        BridgeAction::Send { line } => assert_eq!(line, "{\"id\":1}\n"),
        other => panic!("unexpected {other:?}"),
    }
    assert!(matches!(run.step(BridgeEvent::Sent), BridgeAction::Wait { at_most_ms: 40 }));
    run
}

#[test]
fn test_bridges_for_one_request() {
    assert_eq!(
        McpBridgeRunner::invoke(&bridge_request("")).unwrap_err(),
        McpBridgeError::MissingProgram
    );
    let mut run = waiting_bridge();
    run.step(BridgeEvent::Exited);
    let done = BridgeEvent::Collected {
        success: true,
        code: Some(0),
        stdout: b"  {\"ok\":true}\n".to_vec(),
        stderr: Vec::new(),
    };
    match run.step(done) {
        BridgeAction::Finish { result: Ok(v), mark } => {
            assert_eq!(
                v.to_text(),
                r#"{"bridge_id":"b1","exit_code":0,"response":{"ok":true}}"#
            );
            assert_eq!(mark, ProcessMark::Completed(0));
        }
        other => panic!("unexpected {other:?}"),
    }
    let mut run = waiting_bridge();
    run.step(BridgeEvent::StillRunning);
    match run.step(BridgeEvent::Killed) {
        BridgeAction::Finish { result: Err(McpBridgeError::Timeout), mark } => {
            assert_eq!(mark, ProcessMark::Failed("MCP bridge timed out".into()));
        }
        other => panic!("unexpected {other:?}"),
    }
}

#[test]
fn test_what_comes_of_the_output_of_a_bridge() {
    let (r, mark) = bridge_result("b", true, Some(0), Err("EOF".into()), "");
    assert_eq!(r.unwrap_err(), McpBridgeError::InvalidJson("EOF".into()));
    assert_eq!(mark, ProcessMark::Completed(0));
    let (r, mark) = bridge_result("b", false, Some(1), Ok(Json::Null), "");
    assert_eq!(r.unwrap_err(), McpBridgeError::Failed("mcp bridge failed".into()));
    assert_eq!(mark, ProcessMark::Failed("mcp bridge failed".into()));
}

#[test]
fn test_messages_of_bridge_errors() {
    let m = || "m".to_string();
    let all = [
        (McpBridgeError::MissingProgram, "MCP bridge program is missing", "missing_program"),
        (McpBridgeError::SpawnFailed(m()), "MCP bridge spawn failed: m", "spawn_failed"),
        (McpBridgeError::WriteFailed(m()), "MCP bridge write failed: m", "write_failed"),
        (McpBridgeError::Timeout, "MCP bridge timed out", "timeout"),
        (McpBridgeError::Failed(m()), "MCP bridge failed: m", "failed"),
        (McpBridgeError::InvalidJson(m()), "MCP bridge returned invalid JSON: m", "invalid_json"),
    ];
    for (error, message, kind) in all {
        assert_eq!(mcp_error_message(&error), message);
        assert_eq!(mcp_error_payload(&error).get("kind").unwrap().as_str(), Some(kind));
    }
    assert_eq!(
        mcp_error_message(&not_running_error()),
        "MCP bridge failed: MCP server is not running"
    );
}

#[test]
fn test_calls_of_servers_that_stay() {
    let (r, stop) = call_result(ExchangeEvent::Line { text: " [1] ".into() });
    assert_eq!(r.unwrap().to_text(), "[1]");
    assert_eq!(stop, None);
    let (r, stop) = call_result(ExchangeEvent::Line { text: "?".into() });
    assert!(matches!(r, Err(McpBridgeError::InvalidJson(_))));
    assert_eq!(stop, None);
    let (r, stop) = call_result(ExchangeEvent::Quiet);
    assert_eq!(r.unwrap_err(), McpBridgeError::Timeout);
    assert_eq!(stop, Some("MCP bridge timed out".into()));
    let (_, stop) = call_result(ExchangeEvent::Closed);
    assert_eq!(stop, Some("MCP bridge failed: MCP server stdout closed".into()));
    assert_eq!(stop_reason_of(&Err(McpBridgeError::MissingProgram)), None);
    assert_eq!(
        request_line(&tools_list_request()),
        "{\"id\":2,\"jsonrpc\":\"2.0\",\"method\":\"tools/list\"}\n"
    );
}

#[test]
fn test_starting_a_server() {
    let mut start = McpServerStart::start_server(&bridge_request("server")).unwrap();
    assert!(matches!(
        start.step(StartEvent::Started),
        StartAction::Exchange { line } if line == "{\"id\":1}\n"
    ));
    let first = ExchangeEvent::Line { text: "{\"a\":1}".into() };
    assert!(matches!(
        start.step(StartEvent::Exchanged(first)),
        StartAction::Exchange { line } if line.contains("tools/list")
    ));
    match start.step(StartEvent::Exchanged(ExchangeEvent::Line { text: "[]".into() })) {
        StartAction::Keep(r) => {
            assert_eq!(r.initialized.to_text(), "{\"a\":1}");
            assert_eq!(r.tools_response.to_text(), "[]");
        }
        other => panic!("unexpected {other:?}"),
    }
    let mut start = McpServerStart::start_server(&bridge_request("server")).unwrap();
    start.step(StartEvent::Started);
    let dead = ExchangeEvent::NotSent { message: "pipe".into() };
    match start.step(StartEvent::Exchanged(dead)) {
        StartAction::Abandon { error, note } => {
            assert_eq!(error, McpBridgeError::WriteFailed("pipe".into()));
            assert_eq!(note, "MCP bridge write failed: pipe");
        }
        other => panic!("unexpected {other:?}"),
    }
}

fn terminal(id: &str) -> TerminalCreateOptions {
    TerminalCreateOptions { terminal_id: id.into(), shell: None, args: Vec::new(), cwd: None }
}

#[test]
fn test_terminal_manager_create_send_read_kill() {
    let mut manager = TerminalManager::new();
    let (shell, args) = shell_command(None, strings(&["-x"]), false);
    assert_eq!(shell, "sh");
    assert!(args.is_empty());
    let running = CreateEvent::Running { pid: 7, handle: 0 };
    let created = manager.create(&terminal("term-1"), &shell, running).unwrap();
    assert_eq!(created.terminal_id, "term-1");
    assert_eq!(created.pid, 7);
    assert_eq!(manager.session("term-1"), Ok(0));
    let (sent, mark) = send_result("term-1", "echo LX_TERMINAL_READY\n", SendEvent::Sent);
    assert_eq!(sent, Ok(23));
    assert_eq!(mark, TerminalMark::Untouched);
    let (read, mark) =
        read_result("term-1", StatusEvent::Running, b"LX_TERMINAL_READY\n", b"", 4096);
    let read = read.unwrap();
    assert!(read.stdout.contains("LX_TERMINAL_READY"));
    assert!(read.running);
    assert_eq!(mark, TerminalMark::Untouched);
    assert_eq!(manager.kill("term-1"), Ok(0));
    assert_eq!(kill_result(KillEvent::Killed { code: None }).0, Ok(None));
    assert!(manager.live_session_ids().is_empty());
}

#[test]
fn test_errors_of_terminals() {
    let mut manager = TerminalManager::new();
    let none = CreateEvent::NotStarted { message: "nope".into() };
    assert_eq!(
        manager.create(&terminal("t"), "sh", none).unwrap_err(),
        "terminal spawn failed: nope"
    );
    assert_eq!(manager.session("t").unwrap_err(), "terminal session not live: t");
    assert_eq!(manager.kill("t").unwrap_err(), "terminal session not live: t");
    for (id, handle) in [("b", 1), ("a", 2), ("b", 3)] {
        manager.create(&terminal(id), "sh", CreateEvent::Running { pid: 1, handle }).unwrap();
    }
    assert_eq!(manager.live_session_ids(), strings(&["a", "b"]));
    assert_eq!(manager.session("b"), Ok(3));
    let (sent, mark) = send_result("b", "x", SendEvent::Exited { code: Some(4) });
    assert_eq!(sent.unwrap_err(), "terminal session exited: b");
    assert_eq!(mark, TerminalMark::Completed(Some(4)));
    let (read, mark) = read_result("b", StatusEvent::Exited { code: Some(4) }, b"12345", b"e", 2);
    assert_eq!(
        terminal_read_json(read.unwrap()).to_text(),
        r#"{"exit_code":4,"running":false,"stderr":"e","stdout":"45","terminal_id":"b"}"#
    );
    assert_eq!(mark, TerminalMark::Completed(Some(4)));
    let failed = StatusEvent::StatusFailed { message: "s".into() };
    assert_eq!(
        read_result("b", failed, b"", b"", 1).0.unwrap_err(),
        "terminal status failed: s"
    );
    let (r, _) = kill_result(KillEvent::KillFailed { message: "k".into() });
    assert_eq!(r.unwrap_err(), "terminal kill failed: k");
    assert_eq!(shell_command(None, Vec::new(), true), ("cmd.exe".into(), strings(&["/Q", "/K"])));
    assert_eq!(
        shell_command(Some("zsh".into()), strings(&["-l"]), true),
        ("zsh".into(), strings(&["-l"]))
    );
}

#[test]
fn test_reconcile_orphans_marks_dead_pid_without_killing_live() {
    let mut report = CleanupReport::default();
    assert_eq!(report.note_look(true), None);
    let (status, note) = report.note_look(false).unwrap();
    assert_eq!(status, "reconciled_dead");
    assert_eq!(note, "periodic reconcile: pid no longer alive");
    assert_eq!(report.attempted, 2);
    assert_eq!(report.cleaned, 1);
    assert_eq!(report.failed, 0);
}

#[test]
fn test_process_registry_cleanup_bogus_owned_pid_is_safe_failure() {
    let mut report = CleanupReport::default();
    let target = kill_target(Some("no such process"), Some("no such process"));
    assert_eq!(
        target.clone().unwrap_err(),
        "process group kill failed: no such process; pid kill failed: no such process"
    );
    let status = report.note_kill(target.is_ok());
    assert_eq!(report.attempted, 1);
    assert_eq!(report.cleaned, 0);
    assert_eq!(report.failed, 1);
    assert_eq!(status, "cleanup_failed");
}

#[test]
fn test_process_registry_cleanup_owned_child() {
    let mut report = CleanupReport::default();
    assert_eq!(kill_target(None, Some("x")), Ok(UnixKillTarget::ProcessGroup));
    assert_eq!(kill_target(Some("x"), None), Ok(UnixKillTarget::Process));
    assert!(kill_outcome(true, Some("x"), true).is_ok());
    assert!(kill_outcome(false, None, true).is_ok());
    assert!(kill_outcome(false, Some("x"), false).is_ok());
    assert_eq!(
        kill_outcome(false, Some("x"), true).unwrap_err(),
        "process tree SIGKILL failed after SIGTERM: x"
    );
    assert!(child_kill_outcome(Err("t".into()), None).is_ok());
    assert_eq!(
        child_kill_outcome(Err("t".into()), Some("c")).unwrap_err(),
        "t; fallback child kill failed: c"
    );
    assert_eq!(report.note_kill(true), "cleaned");
    assert_eq!((report.attempted, report.cleaned, report.failed), (1, 1, 0));
}

#[test]
fn test_looking_at_processes() {
    assert!(probe_says_alive(true, false));
    assert!(probe_says_alive(false, true));
    assert!(!probe_says_alive(false, false));
    assert!(probe_says_running(false, false));
    assert!(!probe_says_running(false, true));
    assert!(exit_code_says_alive(Some(259)));
    assert!(!exit_code_says_alive(Some(0)));
    assert!(!exit_code_says_alive(None));
    assert_eq!(kill_command_result(true, b"x"), Ok(()));
    assert_eq!(kill_command_result(false, b" not found \r\nmore"), Err("not found".into()));
    assert_eq!(kill_command_result(false, b"a\xffb"), Err("a\u{fffd}b".into()));
    assert_eq!(kill_command_outcome(false, ""), Err("process cleanup command failed".into()));
    assert_eq!(gone_poll(0, false), GonePoll::Gone);
    assert_eq!(gone_poll(u128::MAX, false), GonePoll::Gone);
    assert_eq!(gone_poll(0, true), GonePoll::Wait { ms: 25 });
    assert_eq!(gone_poll(499_999_999, true), GonePoll::Wait { ms: 25 });
    assert_eq!(gone_poll(500_000_000, true), GonePoll::StillThere);
    assert_eq!(process_key_of("mcp", "b1"), "mcp:b1");
    assert_eq!(exit_code_of(None), -1);
    let row = ProcessRow {
        process: OwnedProcess {
            id: "p".into(),
            pid: 8,
            owner_kind: "repl".into(),
            owner_id: "o".into(),
            label: "node".into(),
            status: "completed".into(),
        },
        started_at: Json::parse("1.5").unwrap(),
        completed_at: Json::Null,
        cleanup_attempted_at: Json::Null,
        exit_code: Some(-9),
        last_error: None,
    };
    assert_eq!(
        debug_row(&row).to_text(),
        r#"{"cleanup_attempted_at":null,"completed_at":null,"exit_code":-9,"id":"p","label":"node","last_error":null,"owner_id":"o","owner_kind":"repl","pid":8,"started_at":1.5,"status":"completed"}"#
    );
}
