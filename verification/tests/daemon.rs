use ddb::daemon::{
    daemon_loaded, daemon_state, label, log_path, missed_line, plist_content, plist_path, reconnected,
    Beat, Heartbeat,
};

#[test]
fn names_and_paths() {
    assert_eq!(label("pixel"), "com.user.ddb-heartbeat-pixel");
    assert_eq!(log_path("pixel"), "/tmp/ddb-pixel-heartbeat.log");
    assert_eq!(
        plist_path(Some("/Users/me"), "pixel"),
        "/Users/me/Library/LaunchAgents/com.user.ddb-heartbeat-pixel.plist"
    );
    assert_eq!(plist_path(None, "pixel"), "~/Library/LaunchAgents/com.user.ddb-heartbeat-pixel.plist");
}

#[test]
fn property_list() {
    let expected = format!(
        r#"<?xml version="1.0" encoding="UTF-8"?>
<!DOCTYPE plist PUBLIC "-//Apple//DTD PLIST 1.0//EN" "http://www.apple.com/DTDs/PropertyList-1.0.dtd">
<plist version="1.0">
<dict>
    <key>Label</key>
    <string>{label}</string>
    <key>ProgramArguments</key>
    <array>
        <string>{bin}</string>
        <string>daemon</string>
        <string>heartbeat</string>
        <string>{name}</string>
    </array>
    <key>RunAtLoad</key>
    <true/>
    <key>KeepAlive</key>
    <true/>
    <key>StandardOutPath</key>
    <string>{log}</string>
    <key>StandardErrorPath</key>
    <string>{log}</string>
</dict>
</plist>"#,
        label = "com.user.ddb-heartbeat-pixel",
        bin = "/usr/local/bin/ddb",
        name = "pixel",
        log = "/tmp/ddb-pixel-heartbeat.log"
    );
    assert_eq!(
        plist_content("com.user.ddb-heartbeat-pixel", "/usr/local/bin/ddb", "pixel", "/tmp/ddb-pixel-heartbeat.log"),
        expected
    );
}

#[test]
fn daemon_states() {
    assert!(daemon_loaded("1\t0\tcom.user.ddb-heartbeat-pixel", "pixel"));
    assert!(!daemon_loaded("1\t0\tcom.user.ddb-heartbeat-tab", "pixel"));
    assert_eq!(daemon_state(true, false), "RUNNING");
    assert_eq!(daemon_state(false, true), "STOPPED (plist exists)");
    assert_eq!(daemon_state(false, false), "not installed");
}

#[test]
fn third_miss_reconnects() {
    let mut hb = Heartbeat::new();
    assert!(hb.observe(false) == Beat::Missed { count: 1 });
    assert!(hb.observe(false) == Beat::Missed { count: 2 });
    assert!(hb.observe(false) == Beat::Reconnect { count: 3 });
    assert_eq!(hb.misses_now(), 0);
    assert!(hb.observe(false) == Beat::Missed { count: 1 });
    assert!(hb.observe(true) == Beat::Healthy);
    assert_eq!(hb.misses_now(), 0);
    hb.observe(false);
    hb.back_on_network();
    assert_eq!(hb.misses_now(), 0);
}

#[test]
fn heartbeat_messages() {
    assert_eq!(missed_line("pixel", 2), "[pixel] ADB disconnected (2/3)");
    assert!(reconnected(&Ok("connected to 10.0.0.7:5555".to_string())));
    assert!(!reconnected(&Ok("failed to connect".to_string())));
    assert!(!reconnected(&Ok("cannot reach".to_string())));
    assert!(!reconnected(&Err("timeout".to_string())));
}
