use litespeed_ide::client::{Call, ClientError, LSPClient, ServerDescriptor};
use litespeed_ide::codec::{decode, encode, DecodeError, Envelope, Message, Reply};
use litespeed_ide::lsp::{LSPRequest, Position, TextDocumentIdentifier};
use litespeed_ide::session::{CallError, CallOutcome, Phase, Received, Session};

fn request_ids(ms: &[Message]) -> Vec<u64> {
    ms.iter()
        .filter_map(|m| match m {
            Message::Request { id, .. } => Some(*id),
            _ => None,
        })
        .collect()
}

fn ok(id: u64, text: &str) -> Message {
    Message::Response { id, reply: Reply::Result(text.to_string()) }
}

fn ready_session() -> Session {
    let mut s = Session::new("{}".to_string());
    let id = s.issue("textDocument/hover".to_string(), "{}".to_string()).unwrap();
    assert_eq!(id, 1);
    assert!(matches!(s.receive(ok(0, "{}")), Received::Ready));
    s.take_outgoing();
    assert!(matches!(s.receive(ok(1, "null")), Received::Resolved(_)));
    s
}

fn envelope_eq(a: &Envelope, b: &Envelope) -> bool {
    a.id == b.id && a.method == b.method && a.params == b.params && a.result == b.result && a.error == b.error
}

#[test]
fn codec_round_trip() {
    let messages = vec![
        Message::Request { id: 7, method: "textDocument/completion".to_string(), params: "{}".to_string() },
        Message::Notification { method: "initialized".to_string(), params: "{}".to_string() },
        Message::Response { id: 7, reply: Reply::Result("[]".to_string()) },
        Message::Response { id: 8, reply: Reply::Error("{\"code\":1}".to_string()) },
    ];
    for m in messages {
        let e = encode(m.clone());
        let back = decode(e.clone()).unwrap();
        assert!(envelope_eq(&encode(back), &e));
    }
}

#[test]
fn codec_rejects_ill_formed_envelopes() {
    let base = Envelope { id: None, method: None, params: None, result: None, error: None };
    assert_eq!(decode(base.clone()).unwrap_err(), DecodeError::MissingDiscriminant);
    let mut e = base.clone();
    e.id = Some(1);
    assert_eq!(decode(e.clone()).unwrap_err(), DecodeError::NoResultOrError);
    e.result = Some("1".to_string());
    e.error = Some("{}".to_string());
    assert_eq!(decode(e.clone()).unwrap_err(), DecodeError::BothResultAndError);
    e.method = Some("m".to_string());
    assert_eq!(decode(e).unwrap_err(), DecodeError::ReplyOnCall);
    let mut n = base;
    n.method = Some("ping".to_string());
    match decode(n).unwrap() {
        Message::Notification { method, params } => {
            assert_eq!(method, "ping");
            assert_eq!(params, "null");
        }
        other => panic!("unexpected {:?}", other),
    }
}

#[test]
fn request_params_text() {
    let req = LSPRequest::Completion {
        text_document: TextDocumentIdentifier { uri: "file:///ws/a.py".to_string() },
        position: Position { line: 3, character: 5 },
    };
    assert_eq!(req.method(), "textDocument/completion");
    assert_eq!(
        req.params(),
        "{\"textDocument\":{\"uri\":\"file:///ws/a.py\"},\"position\":{\"line\":3,\"character\":5}}"
    );
    let init = LSPRequest::Initialize {
        process_id: Some(42),
        root_path: None,
        root_uri: Some("file:///ws".to_string()),
    };
    assert_eq!(init.params(), "{\"processId\":42,\"rootPath\":null,\"rootUri\":\"file:///ws\",\"capabilities\":{}}");
    let quoted = LSPRequest::Diagnostic { text_document: TextDocumentIdentifier { uri: "a\"b".to_string() } };
    assert_eq!(quoted.params(), "{\"textDocument\":{\"uri\":\"a\\\"b\"}}");
}

#[test]
fn requests_are_written_in_issue_order() {
    let mut s = Session::new("{}".to_string());
    let a = s.issue("m".to_string(), "1".to_string()).unwrap();
    let b = s.issue("m".to_string(), "2".to_string()).unwrap();
    assert_eq!(s.phase, Phase::Initializing);
    assert_eq!(request_ids(&s.take_outgoing()), vec![0]);
    assert!(matches!(s.receive(ok(0, "{}")), Received::Ready));
    let c = s.issue("m".to_string(), "3".to_string()).unwrap();
    let out = s.take_outgoing();
    match &out[0] {
        Message::Notification { method, .. } => assert_eq!(method, "initialized"),
        other => panic!("unexpected {:?}", other),
    }
    assert_eq!(request_ids(&out), vec![a, b, c]);
    assert!(a < b && b < c);
}

#[test]
fn unknown_response_is_discarded() {
    let mut s = ready_session();
    let id = s.issue("m".to_string(), "{}".to_string()).unwrap();
    assert!(matches!(s.receive(ok(999, "1")), Received::Discarded));
    assert_eq!(s.pending.len(), 1);
    assert_eq!(s.pending[0].id, id);
    match s.receive(ok(id, "42")) {
        Received::Resolved(v) => {
            assert_eq!(v.len(), 1);
            assert!(matches!(&v[0].outcome, CallOutcome::Success(t) if t == "42"));
        }
        other => panic!("unexpected {:?}", other),
    }
}

#[test]
fn server_error_is_passed_through() {
    let mut s = ready_session();
    let id = s.issue("m".to_string(), "{}".to_string()).unwrap();
    let r = s.receive(Message::Response { id, reply: Reply::Error("{\"code\":-32601}".to_string()) });
    match r {
        Received::Resolved(v) => assert!(matches!(&v[0].outcome, CallOutcome::ServerError(t) if t == "{\"code\":-32601}")),
        other => panic!("unexpected {:?}", other),
    }
}

#[test]
fn cancelled_call_never_sees_late_result() {
    let mut s = ready_session();
    let id = s.issue("m".to_string(), "{}".to_string()).unwrap();
    s.take_outgoing();
    let r = s.cancel(id).unwrap();
    assert_eq!(r.id, id);
    assert!(matches!(r.outcome, CallOutcome::Cancelled));
    let out = s.take_outgoing();
    match &out[0] {
        Message::Notification { method, params } => {
            assert_eq!(method, "$/cancelRequest");
            assert_eq!(params, &format!("{{\"id\":{}}}", id));
        }
        other => panic!("unexpected {:?}", other),
    }
    assert!(matches!(s.receive(ok(id, "stale")), Received::Discarded));
    assert!(s.cancel(id).is_none());
}

#[test]
fn process_exit_closes_every_pending_call() {
    let mut s = ready_session();
    let ids: Vec<u64> = (0..3).map(|_| s.issue("m".to_string(), "{}".to_string()).unwrap()).collect();
    let r = s.terminate();
    assert_eq!(r.iter().map(|x| x.id).collect::<Vec<_>>(), ids);
    assert!(r.iter().all(|x| matches!(x.outcome, CallOutcome::SessionClosed)));
    assert!(s.pending.is_empty());
    assert_eq!(s.phase, Phase::Terminated);
    assert_eq!(s.issue("m".to_string(), "{}".to_string()), Err(CallError::SessionClosed));
}

#[test]
fn crash_before_response_resolves_as_closed() {
    let mut s = Session::new("{}".to_string());
    let id = s.issue("m".to_string(), "{}".to_string()).unwrap();
    let r = s.terminate();
    assert_eq!(r.len(), 1);
    assert_eq!(r[0].id, id);
    assert!(matches!(r[0].outcome, CallOutcome::SessionClosed));
}

#[test]
fn failed_handshake_ends_the_session() {
    let mut s = Session::new("{}".to_string());
    s.issue("m".to_string(), "{}".to_string()).unwrap();
    let r = s.receive(Message::Response { id: 0, reply: Reply::Error("{}".to_string()) });
    assert!(matches!(r, Received::Resolved(v) if v.len() == 1));
    assert_eq!(s.phase, Phase::Terminated);
}

#[test]
fn close_writes_exit() {
    let mut s = ready_session();
    assert!(s.close().is_empty());
    assert_eq!(s.phase, Phase::ShuttingDown);
    let out = s.take_outgoing();
    assert!(matches!(&out[0], Message::Request { method, .. } if method == "shutdown"));
    assert!(matches!(&out[1], Message::Notification { method, .. } if method == "exit"));
    assert_eq!(s.issue("m".to_string(), "{}".to_string()), Err(CallError::SessionClosed));
    let mut fresh = Session::new("{}".to_string());
    assert!(fresh.close().is_empty());
    assert_eq!(fresh.phase, Phase::Terminated);
}

#[test]
fn notifications_reach_the_observer() {
    let mut s = ready_session();
    let r = s.receive(Message::Notification {
        method: "textDocument/publishDiagnostics".to_string(),
        params: "{}".to_string(),
    });
    assert!(matches!(r, Received::Notification { method, .. } if method == "textDocument/publishDiagnostics"));
}

fn descriptor(lang: &str, ext: &str) -> ServerDescriptor {
    ServerDescriptor {
        language: lang.to_string(),
        command: format!("{}-server", lang),
        args: vec![],
        extensions: vec![ext.to_string()],
    }
}

#[test]
fn completion_scenario() {
    let mut c = LSPClient::new("file:///ws".to_string(), None);
    c.configure(descriptor("python", "py"));
    let call = c.completion("file:///ws/a.py", 3, 5).unwrap();
    assert_eq!(call, Call { language: 0, id: 1, spawn: true });
    let out = c.take_outgoing(0);
    match &out[0] {
        Message::Request { id: 0, method, params } => {
            assert_eq!(method, "initialize");
            let v: serde_json::Value = serde_json::from_str(params).unwrap();
            assert_eq!(v["rootUri"], serde_json::Value::String("file:///ws".to_string()));
        }
        other => panic!("unexpected {:?}", other),
    }
    assert!(matches!(c.receive(0, ok(0, "{\"capabilities\":{}}")), Received::Ready));
    let out = c.take_outgoing(0);
    assert!(matches!(&out[0], Message::Notification { method, .. } if method == "initialized"));
    match &out[1] {
        Message::Request { id, method, params } => {
            assert_eq!(*id, 1);
            assert_eq!(method, "textDocument/completion");
            let v: serde_json::Value = serde_json::from_str(params).unwrap();
            assert_eq!(v["position"]["line"], serde_json::Value::from(3));
            assert_eq!(v["position"]["character"], serde_json::Value::from(5));
        }
        other => panic!("unexpected {:?}", other),
    }
    match c.receive(0, ok(1, "[{\"label\":\"foo\"}]")) {
        Received::Resolved(v) => match &v[0].outcome {
            CallOutcome::Success(text) => {
                let items: serde_json::Value = serde_json::from_str(text).unwrap();
                let items = items.as_array().unwrap();
                assert_eq!(items.len(), 1);
                assert_eq!(items[0]["label"], serde_json::Value::String("foo".to_string()));
            }
            other => panic!("unexpected {:?}", other),
        },
        other => panic!("unexpected {:?}", other),
    }
}

#[test]
fn crash_scenario_resolves_as_closed() {
    let mut c = LSPClient::new("file:///ws".to_string(), Some(1));
    c.configure(descriptor("rust", "rs"));
    let call = c.definition("file:///ws/main.rs", 0, 0).unwrap();
    let r = c.on_exit(call.language);
    assert_eq!(r.len(), 1);
    assert_eq!(r[0].id, call.id);
    assert!(matches!(r[0].outcome, CallOutcome::SessionClosed));
    let again = c.definition("file:///ws/main.rs", 0, 0).unwrap();
    assert!(again.spawn);
}

#[test]
fn two_languages_are_independent() {
    let mut c = LSPClient::new("file:///ws".to_string(), None);
    c.configure(descriptor("python", "py"));
    c.configure(descriptor("rust", "rs"));
    let py = c.diagnostics("file:///ws/a.py").unwrap();
    let rs = c.diagnostics("file:///ws/b.rs").unwrap();
    assert_eq!(py.language, 0);
    assert_eq!(rs.language, 1);
    assert!(matches!(c.receive(1, ok(0, "{}")), Received::Ready));
    match c.receive(1, ok(rs.id, "{\"items\":[]}")) {
        Received::Resolved(v) => assert_eq!(v[0].id, rs.id),
        other => panic!("unexpected {:?}", other),
    }
    assert_eq!(c.sessions[0].phase, Phase::Initializing);
    assert_eq!(c.sessions[0].pending.len(), 1);
    assert!(c.sessions[1].pending.is_empty());
}

#[test]
fn unsupported_language_fails_at_once() {
    let mut c = LSPClient::new("file:///ws".to_string(), None);
    c.configure(descriptor("python", "py"));
    assert_eq!(c.completion("file:///ws/a.go", 0, 0), Err(ClientError::UnsupportedLanguage));
    assert_eq!(c.route("file:///ws/x.py"), Some(0));
    assert_eq!(c.route("file:///ws/xpy"), None);
}

#[test]
fn spawn_failure_leaves_language_ready_for_retry() {
    let mut c = LSPClient::new("file:///ws".to_string(), None);
    c.configure(descriptor("go", "go"));
    let call = c.completion("file:///ws/m.go", 1, 1).unwrap();
    assert!(call.spawn);
    assert_eq!(c.spawn_failed(0), vec![call.id]);
    assert_eq!(c.sessions[0].phase, Phase::Uninitialized);
    assert!(c.cancel(Call { language: 5, id: 1, spawn: false }).is_none());
}

#[test]
fn client_close_runs_shutdown_handshake() {
    let mut c = LSPClient::new("file:///ws".to_string(), None);
    c.configure(descriptor("python", "py"));
    c.configure(descriptor("rust", "rs"));
    let call = c.completion("file:///ws/a.py", 0, 0).unwrap();
    assert!(matches!(c.receive(0, ok(0, "{}")), Received::Ready));
    c.take_outgoing(0);
    assert!(c.close(0).is_empty());
    let out = c.take_outgoing(0);
    assert!(matches!(&out[0], Message::Request { id, method, .. } if method == "shutdown" && *id == call.id + 1));
    assert!(matches!(&out[1], Message::Notification { method, .. } if method == "exit"));
    assert_eq!(c.sessions[0].phase, Phase::ShuttingDown);
    assert_eq!(c.sessions[1].phase, Phase::Uninitialized);
    assert!(c.close(9).is_empty());
}
