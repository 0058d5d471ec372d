use kagayaku::display::{DisplayStateTracker, Monitor, MonitorMode, MonitorSnapshot};

fn monitor(connector: &str, vendor: &str, product: &str, serial: &str) -> Monitor {
    Monitor {
        connector: connector.to_string(),
        vendor: vendor.to_string(),
        product: product.to_string(),
        serial: serial.to_string(),
        display_name: None,
        builtin: false,
        size: None,
    }
}

fn snapshot(connector: &str, vendor: &str, product: &str, serial: &str) -> MonitorSnapshot {
    MonitorSnapshot {
        connector: connector.to_string(),
        vendor: vendor.to_string(),
        product: product.to_string(),
        serial: serial.to_string(),
        display_name: None,
        builtin: None,
        modes: Vec::new(),
    }
}

#[test]
fn match_string_is_vendor_product_serial_when_known() {
    let m = monitor("HDMI-1", "DEL", "U2720Q", "ABC123");
    assert_eq!(m.match_string(), "DEL:U2720Q:ABC123");
}

#[test]
fn match_string_falls_back_to_connector_when_all_unknown() {
    let m = monitor("Virtual-1", "unknown", "unknown", "unknown");
    assert_eq!(m.match_string(), "Virtual-1");
}

#[test]
fn match_string_keeps_identity_when_only_some_fields_unknown() {
    let m = monitor("DP-2", "unknown", "X340", "unknown");
    assert_eq!(m.match_string(), "unknown:X340:unknown");
}

#[test]
fn connector_returns_connector() {
    let m = monitor("DP-3", "AAA", "BBB", "CCC");
    assert_eq!(m.connector(), "DP-3");
}

#[test]
fn refresh_replaces_cache_wholesale() {
    let mut tracker = DisplayStateTracker::new();
    tracker.refresh_from(&vec![snapshot("HDMI-1", "DEL", "U2720Q", "ABC123")]);
    assert_eq!(tracker.monitors().len(), 1);
    tracker.refresh_from(&vec![snapshot("DP-1", "AUS", "PG279", "XYZ789")]);
    assert_eq!(tracker.monitors().len(), 1);
    assert_eq!(tracker.monitors()[0].connector, "DP-1");
}

#[test]
fn refresh_defaults_builtin_to_false_and_keeps_reported_flag() {
    let mut tracker = DisplayStateTracker::new();
    let mut with_flag = snapshot("eDP-1", "BOE", "NE160", "000");
    with_flag.builtin = Some(true);
    tracker.refresh_from(&vec![with_flag, snapshot("HDMI-1", "DEL", "U2720Q", "ABC123")]);
    assert!(tracker.monitors()[0].builtin);
    assert!(!tracker.monitors()[1].builtin);
}

#[test]
fn refresh_takes_size_from_first_current_mode() {
    let mut tracker = DisplayStateTracker::new();
    let mut s = snapshot("HDMI-1", "DEL", "U2720Q", "ABC123");
    s.modes = vec![
        MonitorMode { width: 1280, height: 720, is_current: false },
        MonitorMode { width: 3840, height: 2160, is_current: true },
        MonitorMode { width: 1920, height: 1080, is_current: true },
    ];
    tracker.refresh_from(&vec![s]);
    assert_eq!(tracker.monitors()[0].size, Some((3840, 2160)));
}

#[test]
fn refresh_leaves_size_absent_without_current_mode() {
    let mut tracker = DisplayStateTracker::new();
    let mut s = snapshot("HDMI-1", "DEL", "U2720Q", "ABC123");
    s.modes = vec![MonitorMode { width: 1280, height: 720, is_current: false }];
    tracker.refresh_from(&vec![s]);
    assert_eq!(tracker.monitors()[0].size, None);
}

#[test]
fn refresh_keeps_display_name() {
    let mut tracker = DisplayStateTracker::new();
    let mut s = snapshot("HDMI-1", "DEL", "U2720Q", "ABC123");
    s.display_name = Some("Dell 27".to_string());
    tracker.refresh_from(&vec![s]);
    assert_eq!(tracker.monitors()[0].display_name.as_deref(), Some("Dell 27"));
}

#[test]
fn find_monitor_matches_exactly() {
    let mut tracker = DisplayStateTracker::new();
    tracker.refresh_from(&vec![
        snapshot("HDMI-1", "DEL", "U2720Q", "ABC123"),
        snapshot("DP-1", "AUS", "PG279", "XYZ789"),
    ]);
    let found = tracker.find_monitor("AUS:PG279:XYZ789").unwrap();
    assert_eq!(found.connector, "DP-1");
    assert!(tracker.find_monitor("AUS:PG279:XYZ78").is_none());
    assert!(tracker.find_monitor("").is_none());
}

#[test]
fn find_monitor_returns_first_hit() {
    let mut tracker = DisplayStateTracker::new();
    tracker.refresh_from(&vec![
        snapshot("HDMI-1", "DEL", "U2720Q", "ABC123"),
        snapshot("HDMI-2", "DEL", "U2720Q", "ABC123"),
    ]);
    let found = tracker.find_monitor("DEL:U2720Q:ABC123").unwrap();
    assert_eq!(found.connector, "HDMI-1");
}

#[test]
fn find_monitor_by_fallback_identity() {
    let mut tracker = DisplayStateTracker::new();
    tracker.refresh_from(&vec![snapshot("Virtual-1", "unknown", "unknown", "unknown")]);
    let found = tracker.find_monitor("Virtual-1").unwrap();
    assert_eq!(found.connector, "Virtual-1");
}
