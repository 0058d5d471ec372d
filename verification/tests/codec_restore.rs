use kagayaku::codec::{
    kind_code, restore_provider, restore_streams, RestoreBlob, RestoreEntry, RestoreValue,
    ScreencastStream, SourceKind, RESTORE_DATA_VERSION,
};
use kagayaku::display::{DisplayStateTracker, MonitorSnapshot};
use kagayaku::window::{WindowSnapshot, WindowStateTracker};

fn displays_with(entries: &[(&str, &str, &str, &str)]) -> DisplayStateTracker {
    let mut tracker = DisplayStateTracker::new();
    let snaps: Vec<MonitorSnapshot> = entries
        .iter()
        .map(|(c, v, p, s)| MonitorSnapshot {
            connector: c.to_string(),
            vendor: v.to_string(),
            product: p.to_string(),
            serial: s.to_string(),
            display_name: None,
            builtin: None,
            modes: Vec::new(),
        })
        .collect();
    tracker.refresh_from(&snaps);
    tracker
}

fn windows_with(entries: &[(u64, &str, &str)]) -> WindowStateTracker {
    let mut tracker = WindowStateTracker::new();
    let snaps: Vec<WindowSnapshot> = entries
        .iter()
        .map(|(id, a, t)| WindowSnapshot {
            id: *id,
            app_id: Some(a.to_string()),
            title: Some(t.to_string()),
        })
        .collect();
    tracker.refresh_from(&snaps).unwrap();
    tracker
}

fn monitor_entry(stream_id: u32, match_string: &str) -> RestoreEntry {
    RestoreEntry {
        stream_id,
        source_kind: kind_code(SourceKind::Monitor),
        data: RestoreValue::Text(match_string.to_string()),
    }
}

fn window_entry(stream_id: u32, app_id: &str, title: &str) -> RestoreEntry {
    RestoreEntry {
        stream_id,
        source_kind: kind_code(SourceKind::Window),
        data: RestoreValue::Pair(app_id.to_string(), title.to_string()),
    }
}

#[test]
fn kind_codes_are_the_protocol_values() {
    assert_eq!(kind_code(SourceKind::Monitor), 1);
    assert_eq!(kind_code(SourceKind::Window), 2);
    assert_eq!(kind_code(SourceKind::Virtual), 4);
}

#[test]
fn blob_gate_accepts_only_exact_provider_and_version() {
    let ok = RestoreBlob {
        provider: restore_provider(),
        version: RESTORE_DATA_VERSION,
        reserved_a: 0,
        reserved_b: 0,
        entries: Vec::new(),
    };
    assert!(ok.accepted());
    let wrong_provider = RestoreBlob { provider: "SomeoneElse".to_string(), ..ok };
    assert!(!wrong_provider.accepted());
    let wrong_version = RestoreBlob {
        provider: restore_provider(),
        version: 2,
        reserved_a: 0,
        reserved_b: 0,
        entries: Vec::new(),
    };
    assert!(!wrong_version.accepted());
}

#[test]
fn provider_string_is_stable() {
    assert_eq!(restore_provider(), "Kagayaku");
    assert_eq!(RESTORE_DATA_VERSION, 1);
}

#[test]
fn monitor_entry_resolves_to_current_connector() {
    // Monitor cache holds HDMI-1 with identity DEL:U2720Q:ABC123.
    let displays = displays_with(&[("HDMI-1", "DEL", "U2720Q", "ABC123")]);
    let windows = windows_with(&[]);
    let streams = restore_streams(&vec![monitor_entry(3, "DEL:U2720Q:ABC123")], &displays, &windows);
    assert_eq!(streams.len(), 1);
    match &streams[0] {
        ScreencastStream::Monitor { id, connector, match_string } => {
            assert_eq!(*id, 3);
            assert_eq!(connector, "HDMI-1");
            assert_eq!(match_string, "DEL:U2720Q:ABC123");
        }
        _ => panic!("expected a monitor stream"),
    }
}

#[test]
fn window_entry_resolves_to_exact_title() {
    let displays = displays_with(&[]);
    let windows = windows_with(&[(42, "org.foo", "Inbox"), (99, "org.foo", "Drafts")]);
    let streams = restore_streams(&vec![window_entry(0, "org.foo", "Drafts")], &displays, &windows);
    assert_eq!(streams.len(), 1);
    match &streams[0] {
        ScreencastStream::Window { id, window_id, app_id, title } => {
            assert_eq!(*id, 0);
            assert_eq!(*window_id, 99);
            assert_eq!(app_id, "org.foo");
            assert_eq!(title, "Drafts");
        }
        _ => panic!("expected a window stream"),
    }
}

#[test]
fn virtual_and_unknown_kinds_are_dropped() {
    let displays = displays_with(&[("HDMI-1", "DEL", "U2720Q", "ABC123")]);
    let windows = windows_with(&[]);
    let virtual_entry = RestoreEntry {
        stream_id: 1,
        source_kind: kind_code(SourceKind::Virtual),
        data: RestoreValue::Text("DEL:U2720Q:ABC123".to_string()),
    };
    let unknown_kind = RestoreEntry {
        stream_id: 2,
        source_kind: 9,
        data: RestoreValue::Text("DEL:U2720Q:ABC123".to_string()),
    };
    let survivor = monitor_entry(3, "DEL:U2720Q:ABC123");
    let streams = restore_streams(&vec![virtual_entry, unknown_kind, survivor], &displays, &windows);
    assert_eq!(streams.len(), 1);
    match &streams[0] {
        ScreencastStream::Monitor { id, .. } => assert_eq!(*id, 3),
        _ => panic!("expected a monitor stream"),
    }
}

#[test]
fn malformed_variants_are_dropped_entry_by_entry() {
    let displays = displays_with(&[("HDMI-1", "DEL", "U2720Q", "ABC123")]);
    let windows = windows_with(&[(42, "org.foo", "Inbox")]);
    let monitor_with_pair = RestoreEntry {
        stream_id: 0,
        source_kind: kind_code(SourceKind::Monitor),
        data: RestoreValue::Pair("a".to_string(), "b".to_string()),
    };
    let window_with_text = RestoreEntry {
        stream_id: 1,
        source_kind: kind_code(SourceKind::Window),
        data: RestoreValue::Text("org.foo".to_string()),
    };
    let opaque = RestoreEntry {
        stream_id: 2,
        source_kind: kind_code(SourceKind::Monitor),
        data: RestoreValue::Malformed,
    };
    let survivor = window_entry(7, "org.foo", "Inbox");
    let streams = restore_streams(
        &vec![monitor_with_pair, window_with_text, opaque, survivor],
        &displays,
        &windows,
    );
    assert_eq!(streams.len(), 1);
    match &streams[0] {
        ScreencastStream::Window { id, window_id, .. } => {
            assert_eq!(*id, 7);
            assert_eq!(*window_id, 42);
        }
        _ => panic!("expected a window stream"),
    }
}

#[test]
fn stale_identities_are_dropped_without_error() {
    let displays = displays_with(&[("HDMI-1", "DEL", "U2720Q", "ABC123")]);
    let windows = windows_with(&[(42, "org.foo", "Inbox")]);
    let streams = restore_streams(
        &vec![
            monitor_entry(0, "GON:E1:E2"),
            window_entry(1, "org.foo", "Gone"),
            monitor_entry(2, "DEL:U2720Q:ABC123"),
        ],
        &displays,
        &windows,
    );
    assert_eq!(streams.len(), 1);
    match &streams[0] {
        ScreencastStream::Monitor { id, .. } => assert_eq!(*id, 2),
        _ => panic!("expected a monitor stream"),
    }
}
