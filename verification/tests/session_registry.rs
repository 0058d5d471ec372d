use kagayaku::adapter::GnomeSession;
use kagayaku::codec::{kind_code, RestoreBlob, RestoreEntry, RestoreValue, ScreencastStream, SourceKind};
use kagayaku::display::{DisplayStateTracker, MonitorSnapshot};
use kagayaku::session::{
    available_cursor_mode, available_source_types, CursorMode, PersistMode, SelectSourcesOptions,
    SessionError, SessionRegistry, SourceTypes,
};
use kagayaku::window::{WindowSnapshot, WindowStateTracker};

fn no_options() -> SelectSourcesOptions {
    SelectSourcesOptions {
        multiple: None,
        cursor_mode: None,
        persist_mode: None,
        types: None,
        restore_data: None,
    }
}

fn displays_one() -> DisplayStateTracker {
    let mut tracker = DisplayStateTracker::new();
    tracker.refresh_from(&vec![MonitorSnapshot {
        connector: "HDMI-1".to_string(),
        vendor: "DEL".to_string(),
        product: "U2720Q".to_string(),
        serial: "ABC123".to_string(),
        display_name: None,
        builtin: None,
        modes: Vec::new(),
    }]);
    tracker
}

fn windows_one() -> WindowStateTracker {
    let mut tracker = WindowStateTracker::new();
    tracker
        .refresh_from(&vec![WindowSnapshot {
            id: 42,
            app_id: Some("org.foo".to_string()),
            title: Some("Inbox".to_string()),
        }])
        .unwrap();
    tracker
}

fn good_blob(entries: Vec<RestoreEntry>) -> RestoreBlob {
    RestoreBlob {
        provider: "Kagayaku".to_string(),
        version: 1,
        reserved_a: 0,
        reserved_b: 0,
        entries,
    }
}

fn monitor_entry(stream_id: u32, match_string: &str) -> RestoreEntry {
    RestoreEntry {
        stream_id,
        source_kind: kind_code(SourceKind::Monitor),
        data: RestoreValue::Text(match_string.to_string()),
    }
}

fn prompted_monitor(id: u32) -> ScreencastStream {
    ScreencastStream::Monitor {
        id,
        connector: "HDMI-1".to_string(),
        match_string: "DEL:U2720Q:ABC123".to_string(),
    }
}

fn prompted_window(id: u32) -> ScreencastStream {
    ScreencastStream::Window {
        id,
        window_id: 42,
        app_id: "org.foo".to_string(),
        title: "Inbox".to_string(),
    }
}

#[test]
fn advertised_capabilities() {
    let st = available_source_types();
    assert!(st.monitor && st.window && !st.virtual_source);
    let cm = available_cursor_mode();
    assert!(cm.hidden && cm.embedded && cm.metadata);
}

#[test]
fn create_gives_default_session() {
    let mut registry = SessionRegistry::new();
    let token = "t1".to_string();
    registry.create_session(token.clone());
    let s = registry.get_session(&token).unwrap();
    assert!(!s.multiple);
    assert_eq!(s.cursor_mode, CursorMode::Hidden);
    assert_eq!(s.source_type, SourceTypes { monitor: true, window: false, virtual_source: false });
    assert_eq!(s.persist_mode, PersistMode::DoNot);
    assert!(s.gnome_session.is_none());
    assert!(s.streams.is_empty());
}

#[test]
fn configure_unknown_token_is_an_error() {
    let mut registry = SessionRegistry::new();
    let r = registry.select_sources(
        &"nope".to_string(),
        &no_options(),
        &displays_one(),
        &windows_one(),
    );
    assert_eq!(r, Err(SessionError::UnknownSession));
}

#[test]
fn configure_twice_with_disjoint_options_yields_union() {
    let mut registry = SessionRegistry::new();
    let displays = displays_one();
    let windows = windows_one();
    let token = "t1".to_string();
    registry.create_session(token.clone());
    let first = SelectSourcesOptions {
        multiple: Some(true),
        cursor_mode: Some(CursorMode::Embedded),
        ..no_options()
    };
    let second = SelectSourcesOptions {
        persist_mode: Some(PersistMode::Application),
        types: Some(SourceTypes { monitor: true, window: true, virtual_source: false }),
        ..no_options()
    };
    registry.select_sources(&token, &first, &displays, &windows).unwrap();
    registry.select_sources(&token, &second, &displays, &windows).unwrap();
    let s = registry.get_session(&token).unwrap();
    assert!(s.multiple);
    assert_eq!(s.cursor_mode, CursorMode::Embedded);
    assert_eq!(s.persist_mode, PersistMode::Application);
    assert_eq!(s.source_type, SourceTypes { monitor: true, window: true, virtual_source: false });
}

#[test]
fn configure_with_empty_types_falls_back_to_monitor_only() {
    let mut registry = SessionRegistry::new();
    let token = "t1".to_string();
    registry.create_session(token.clone());
    let opts = SelectSourcesOptions {
        types: Some(SourceTypes { monitor: false, window: false, virtual_source: false }),
        ..no_options()
    };
    registry.select_sources(&token, &opts, &displays_one(), &windows_one()).unwrap();
    let s = registry.get_session(&token).unwrap();
    assert_eq!(s.source_type, SourceTypes { monitor: true, window: false, virtual_source: false });
}

#[test]
fn restoration_fills_pre_resolved_streams() {
    let mut registry = SessionRegistry::new();
    let token = "t1".to_string();
    registry.create_session(token.clone());
    let opts = SelectSourcesOptions {
        persist_mode: Some(PersistMode::Application),
        restore_data: Some(good_blob(vec![monitor_entry(0, "DEL:U2720Q:ABC123")])),
        ..no_options()
    };
    registry.select_sources(&token, &opts, &displays_one(), &windows_one()).unwrap();
    let s = registry.get_session(&token).unwrap();
    assert_eq!(s.streams.len(), 1);
    match &s.streams[0] {
        ScreencastStream::Monitor { connector, .. } => assert_eq!(connector, "HDMI-1"),
        _ => panic!("expected a monitor stream"),
    }
}

#[test]
fn restoration_is_skipped_without_persistence() {
    let mut registry = SessionRegistry::new();
    let token = "t1".to_string();
    registry.create_session(token.clone());
    let opts = SelectSourcesOptions {
        restore_data: Some(good_blob(vec![monitor_entry(0, "DEL:U2720Q:ABC123")])),
        ..no_options()
    };
    registry.select_sources(&token, &opts, &displays_one(), &windows_one()).unwrap();
    assert!(registry.get_session(&token).unwrap().streams.is_empty());
}

#[test]
fn wrong_provider_or_version_is_ignored_without_error() {
    let mut registry = SessionRegistry::new();
    let token = "t1".to_string();
    registry.create_session(token.clone());
    let mut blob = good_blob(vec![monitor_entry(0, "DEL:U2720Q:ABC123")]);
    blob.provider = "OtherPortal".to_string();
    let opts = SelectSourcesOptions {
        persist_mode: Some(PersistMode::Application),
        restore_data: Some(blob),
        ..no_options()
    };
    assert!(registry.select_sources(&token, &opts, &displays_one(), &windows_one()).is_ok());
    assert!(registry.get_session(&token).unwrap().streams.is_empty());

    let mut blob2 = good_blob(vec![monitor_entry(0, "DEL:U2720Q:ABC123")]);
    blob2.version = 3;
    let opts2 = SelectSourcesOptions {
        persist_mode: Some(PersistMode::Application),
        restore_data: Some(blob2),
        ..no_options()
    };
    assert!(registry.select_sources(&token, &opts2, &displays_one(), &windows_one()).is_ok());
    assert!(registry.get_session(&token).unwrap().streams.is_empty());
}

#[test]
fn empty_resolution_never_erases_a_previous_list() {
    let mut registry = SessionRegistry::new();
    let token = "t1".to_string();
    registry.create_session(token.clone());
    let good = SelectSourcesOptions {
        persist_mode: Some(PersistMode::Application),
        restore_data: Some(good_blob(vec![monitor_entry(0, "DEL:U2720Q:ABC123")])),
        ..no_options()
    };
    registry.select_sources(&token, &good, &displays_one(), &windows_one()).unwrap();
    assert_eq!(registry.get_session(&token).unwrap().streams.len(), 1);
    // A later call whose blob resolves to nothing keeps the last good list.
    let stale = SelectSourcesOptions {
        persist_mode: Some(PersistMode::Application),
        restore_data: Some(good_blob(vec![monitor_entry(0, "GON:E0:E0")])),
        ..no_options()
    };
    registry.select_sources(&token, &stale, &displays_one(), &windows_one()).unwrap();
    assert_eq!(registry.get_session(&token).unwrap().streams.len(), 1);
}

#[test]
fn begin_start_prompts_only_without_pre_resolved_streams() {
    let mut registry = SessionRegistry::new();
    let token = "t1".to_string();
    registry.create_session(token.clone());
    assert!(registry.begin_start(&token).unwrap().prompt_needed);
    let opts = SelectSourcesOptions {
        persist_mode: Some(PersistMode::Application),
        restore_data: Some(good_blob(vec![monitor_entry(0, "DEL:U2720Q:ABC123")])),
        ..no_options()
    };
    registry.select_sources(&token, &opts, &displays_one(), &windows_one()).unwrap();
    // A session with a non-empty pre-resolved list never needs the picker.
    assert!(!registry.begin_start(&token).unwrap().prompt_needed);
}

#[test]
fn begin_start_errors() {
    let mut registry = SessionRegistry::new();
    assert_eq!(registry.begin_start(&"nope".to_string()), Err(SessionError::UnknownSession));
    let token = "t1".to_string();
    registry.create_session(token.clone());
    registry.complete_start(&token, GnomeSession::new()).unwrap();
    assert_eq!(registry.begin_start(&token), Err(SessionError::AlreadyStarted));
}

#[test]
fn concurrent_configure_during_handoff_is_visible_after_it() {
    // The two-phase start releases the table between begin and finish; a
    // configure landing in that window must be visible when start resumes.
    let mut registry = SessionRegistry::new();
    let token = "t1".to_string();
    registry.create_session(token.clone());
    let plan = registry.begin_start(&token).unwrap();
    assert!(plan.prompt_needed);
    // While the picker would be open, the client reconfigures the session.
    let racing = SelectSourcesOptions {
        cursor_mode: Some(CursorMode::Metadata),
        types: Some(SourceTypes { monitor: true, window: false, virtual_source: false }),
        ..no_options()
    };
    registry.select_sources(&token, &racing, &displays_one(), &windows_one()).unwrap();
    let prompted = vec![prompted_monitor(0), prompted_window(1)];
    let ctx = registry.finish_start(&token, &prompted).unwrap();
    assert_eq!(ctx.cursor_mode, CursorMode::Metadata);
    // The window kind was toggled off during the hand-off: its stream is
    // silently excluded, not erred on.
    assert_eq!(ctx.registrations.len(), 1);
    match &ctx.registrations[0] {
        ScreencastStream::Monitor { id, .. } => assert_eq!(*id, 0),
        _ => panic!("expected a monitor stream"),
    }
}

#[test]
fn finish_start_concatenates_restoration_before_prompt() {
    let mut registry = SessionRegistry::new();
    let token = "t1".to_string();
    registry.create_session(token.clone());
    let opts = SelectSourcesOptions {
        persist_mode: Some(PersistMode::Application),
        types: Some(SourceTypes { monitor: true, window: true, virtual_source: false }),
        restore_data: Some(good_blob(vec![monitor_entry(9, "DEL:U2720Q:ABC123")])),
        ..no_options()
    };
    registry.select_sources(&token, &opts, &displays_one(), &windows_one()).unwrap();
    let prompted = vec![prompted_window(1)];
    let ctx = registry.finish_start(&token, &prompted).unwrap();
    assert_eq!(ctx.registrations.len(), 2);
    assert!(matches!(&ctx.registrations[0], ScreencastStream::Monitor { id: 9, .. }));
    assert!(matches!(&ctx.registrations[1], ScreencastStream::Window { id: 1, .. }));
    assert_eq!(ctx.persist_mode, PersistMode::Application);
}

#[test]
fn finish_start_after_racing_close_is_an_error() {
    let mut registry = SessionRegistry::new();
    let token = "t1".to_string();
    registry.create_session(token.clone());
    let plan = registry.begin_start(&token).unwrap();
    assert!(plan.prompt_needed);
    registry.session_closed(&token).unwrap();
    let r = registry.finish_start(&token, &Vec::new());
    assert_eq!(r.err(), Some(SessionError::UnknownSession));
}

#[test]
fn close_unknown_token_is_an_error_with_no_side_effect() {
    let mut registry = SessionRegistry::new();
    let token = "t1".to_string();
    registry.create_session(token.clone());
    let r = registry.session_closed(&"nope".to_string());
    assert!(matches!(r, Err(SessionError::UnknownSession)));
    // The registered session is untouched.
    assert!(registry.get_session(&token).is_some());
}

#[test]
fn close_removes_session_and_hands_back_adapter() {
    let mut registry = SessionRegistry::new();
    let token = "t1".to_string();
    registry.create_session(token.clone());
    let mut adapter = GnomeSession::new();
    adapter.record_monitor(0, "A:B:C".to_string());
    registry.complete_start(&token, adapter).unwrap();
    let returned = registry.session_closed(&token).unwrap();
    assert_eq!(returned.unwrap().streams().len(), 1);
    assert!(registry.get_session(&token).is_none());
    assert!(matches!(registry.session_closed(&token), Err(SessionError::UnknownSession)));
}

#[test]
fn close_without_adapter_returns_none() {
    let mut registry = SessionRegistry::new();
    let token = "t1".to_string();
    registry.create_session(token.clone());
    assert!(registry.session_closed(&token).unwrap().is_none());
}

#[test]
fn sessions_are_independent() {
    let mut registry = SessionRegistry::new();
    let a = "a".to_string();
    let b = "b".to_string();
    registry.create_session(a.clone());
    registry.create_session(b.clone());
    let opts = SelectSourcesOptions { multiple: Some(true), ..no_options() };
    registry.select_sources(&a, &opts, &displays_one(), &windows_one()).unwrap();
    assert!(registry.get_session(&a).unwrap().multiple);
    assert!(!registry.get_session(&b).unwrap().multiple);
    registry.session_closed(&a).unwrap();
    assert!(registry.get_session(&b).is_some());
}

#[test]
fn error_messages() {
    assert_eq!(SessionError::UnknownSession.message(), "unknown session token");
    assert_eq!(SessionError::AlreadyStarted.message(), "session already started");
}
