use title_server::session::ProtocolError;
use title_server::session::Session;
use title_server::session::SessionState;
use title_server::session::TextDocumentSyncKind;

fn initialized_session() -> Session {
    let mut s = Session::new();
    s.initialize().expect("initialize from a fresh session");
    s.initialized().expect("acknowledge the capabilities");
    s
}

#[test]
fn initialize_declares_full_sync() {
    let mut s = Session::new();
    assert_eq!(s.current_state(), SessionState::Uninitialized);
    let caps = s.initialize().expect("initialize from a fresh session");
    assert_eq!(caps.text_document_sync, TextDocumentSyncKind::Full);
    assert_eq!(s.current_state(), SessionState::CapabilitiesDeclared);
}

#[test]
fn initialized_emits_one_log_line() {
    let mut s = Session::new();
    s.initialize().expect("initialize from a fresh session");
    let log = s.initialized().expect("acknowledge the capabilities");
    assert_eq!(log, "server initialized!");
    assert_eq!(s.current_state(), SessionState::Initialized);
}

#[test]
fn initialize_twice_rejected() {
    let mut s = Session::new();
    s.initialize().expect("initialize from a fresh session");
    assert_eq!(s.initialize(), Err(ProtocolError::InvalidState));
}

#[test]
fn initialized_before_initialize_rejected() {
    let mut s = Session::new();
    let r = s.initialized();
    assert_eq!(r.expect_err("not yet declared"), ProtocolError::InvalidState);
    assert_eq!(s.current_state(), SessionState::Uninitialized);
}

#[test]
fn sync_events_before_initialized_rejected() {
    let mut s = Session::new();
    let r = s.did_open("file:///d".to_string(), "# t".to_string(), 1);
    assert_eq!(r.expect_err("open before initialized"), ProtocolError::InvalidState);
    let r = s.did_change("file:///d".to_string(), 2, vec!["x".to_string()]);
    assert_eq!(r.expect_err("change before initialized"), ProtocolError::InvalidState);
    assert!(s.document(&"file:///d".to_string()).is_none());
}

#[test]
fn shutdown_only_valid_while_initialized() {
    let mut s = Session::new();
    assert_eq!(s.shutdown(), Err(ProtocolError::InvalidState));
    let mut s = initialized_session();
    assert_eq!(s.shutdown(), Ok(()));
    assert_eq!(s.current_state(), SessionState::Shutdown);
    assert_eq!(s.shutdown(), Err(ProtocolError::InvalidState));
}

#[test]
fn events_after_shutdown_rejected() {
    let mut s = initialized_session();
    s.shutdown().expect("shutdown while initialized");
    let r = s.did_open("file:///d".to_string(), "x".to_string(), 1);
    assert_eq!(r.expect_err("open after shutdown"), ProtocolError::InvalidState);
    let r = s.did_change("file:///d".to_string(), 2, vec!["y".to_string()]);
    assert_eq!(r.expect_err("change after shutdown"), ProtocolError::InvalidState);
}

#[test]
fn did_open_stores_document_and_publishes() {
    let mut s = initialized_session();
    let p = s.did_open("file:///d".to_string(), "# t\nbody".to_string(), 3).expect(
        "open while initialized",
    );
    assert_eq!(p.uri, "file:///d");
    assert_eq!(p.version, 3);
    assert_eq!(p.diagnostics.len(), 1);
    let doc = s.document(&"file:///d".to_string()).expect("document is tracked");
    assert_eq!(doc.uri, "file:///d");
    assert_eq!(doc.text, "# t\nbody");
    assert_eq!(doc.version, 3);
}

#[test]
fn did_open_is_an_upsert() {
    let mut s = initialized_session();
    s.did_open("file:///d".to_string(), "old".to_string(), 1).expect("first open");
    s.did_open("file:///d".to_string(), "new".to_string(), 9).expect("reopen overwrites");
    let doc = s.document(&"file:///d".to_string()).expect("document is tracked");
    assert_eq!(doc.text, "new");
    assert_eq!(doc.version, 9);
}

#[test]
fn did_change_replaces_text_and_version() {
    let mut s = initialized_session();
    s.did_open("file:///d".to_string(), "# a".to_string(), 1).expect("open");
    let p = s.did_change("file:///d".to_string(), 2, vec!["# a\n# b".to_string()]).expect(
        "change with a larger version",
    );
    assert_eq!(p.version, 2);
    assert_eq!(p.diagnostics.len(), 2);
    let doc = s.document(&"file:///d".to_string()).expect("document is tracked");
    assert_eq!(doc.text, "# a\n# b");
    assert_eq!(doc.version, 2);
}

#[test]
fn did_change_empty_change_list_rejected() {
    let mut s = initialized_session();
    s.did_open("file:///d".to_string(), "# a".to_string(), 1).expect("open");
    let r = s.did_change("file:///d".to_string(), 2, Vec::new());
    assert_eq!(r.expect_err("empty content changes"), ProtocolError::EmptyContentChanges);
    let doc = s.document(&"file:///d".to_string()).expect("document is still tracked");
    assert_eq!(doc.text, "# a");
    assert_eq!(doc.version, 1);
    let p = s.did_change("file:///d".to_string(), 2, vec!["b".to_string()]).expect(
        "the session keeps working after a rejected event",
    );
    assert_eq!(p.version, 2);
}

#[test]
fn did_change_stale_version_rejected() {
    let mut s = initialized_session();
    s.did_open("file:///d".to_string(), "a".to_string(), 5).expect("open");
    let r = s.did_change("file:///d".to_string(), 5, vec!["b".to_string()]);
    assert_eq!(r.expect_err("equal version is stale"), ProtocolError::StaleVersion);
    let r = s.did_change("file:///d".to_string(), 4, vec!["c".to_string()]);
    assert_eq!(r.expect_err("lower version is stale"), ProtocolError::StaleVersion);
    let doc = s.document(&"file:///d".to_string()).expect("document is tracked");
    assert_eq!(doc.text, "a");
    assert_eq!(doc.version, 5);
    s.did_change("file:///d".to_string(), 6, vec!["d".to_string()]).expect(
        "a strictly larger version is accepted",
    );
}

#[test]
fn did_change_untracked_uri_starts_tracking() {
    let mut s = initialized_session();
    let p = s.did_change("file:///fresh".to_string(), 1, vec!["# x".to_string()]).expect(
        "a change for an untracked document inserts it",
    );
    assert_eq!(p.uri, "file:///fresh");
    let doc = s.document(&"file:///fresh".to_string()).expect("document is tracked");
    assert_eq!(doc.text, "# x");
    assert_eq!(doc.version, 1);
}

#[test]
fn did_change_uses_only_first_entry() {
    let mut s = initialized_session();
    s.did_open("file:///d".to_string(), "a".to_string(), 1).expect("open");
    let p = s.did_change(
        "file:///d".to_string(),
        2,
        vec!["# x\n# y".to_string(), "ignored".to_string()],
    ).expect("change");
    assert_eq!(p.diagnostics.len(), 2);
    let doc = s.document(&"file:///d".to_string()).expect("document is tracked");
    assert_eq!(doc.text, "# x\n# y");
}

#[test]
fn documents_tracked_independently() {
    let mut s = initialized_session();
    s.did_open("file:///a".to_string(), "one".to_string(), 1).expect("open a");
    s.did_open("file:///b".to_string(), "two".to_string(), 7).expect("open b");
    s.did_change("file:///a".to_string(), 2, vec!["uno".to_string()]).expect("change a");
    let a = s.document(&"file:///a".to_string()).expect("a is tracked");
    assert_eq!(a.text, "uno");
    assert_eq!(a.version, 2);
    let b = s.document(&"file:///b".to_string()).expect("b is tracked");
    assert_eq!(b.text, "two");
    assert_eq!(b.version, 7);
}

#[test]
fn shutdown_clears_the_store() {
    let mut s = initialized_session();
    s.did_open("file:///d".to_string(), "x".to_string(), 1).expect("open");
    s.shutdown().expect("shutdown while initialized");
    assert!(s.document(&"file:///d".to_string()).is_none());
}
