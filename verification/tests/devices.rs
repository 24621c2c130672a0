use ddb::devices::{
    add, connect_outcome, connect_plan, daemon_listed, disconnect, enroll_on, list, remove, status,
    wireless_addr, ConnectPlan,
};
use ddb::registry::{Device, DeviceMap};

fn dev(serial: &str, ip: Option<&str>, port: Option<u16>) -> Device {
    Device {
        serial: serial.to_string(),
        model: "Pixel 8".to_string(),
        android: "14".to_string(),
        sdk: 34,
        wifi_ip: ip.map(|s| s.to_string()),
        adb_port: port,
        enrolled: "2024-01-01".to_string(),
    }
}

fn conn(items: &[(&str, &str)]) -> Vec<(String, String)> {
    items.iter().map(|(a, b)| (a.to_string(), b.to_string())).collect()
}

#[test]
fn listing_of_no_devices() {
    assert_eq!(list(&DeviceMap::new()), vec!["No devices enrolled.".to_string()]);
}

#[test]
fn listing_has_columns() {
    let mut m = DeviceMap::new();
    m.insert("pixel".to_string(), dev("ABC123", Some("10.0.0.7"), Some(5555)));
    m.insert("old".to_string(), dev("XYZ", None, None));
    let lines = list(&m);
    assert_eq!(lines.len(), 4);
    assert_eq!(lines[0], format!("{:<12} {:<35} {:<18} {}", "Name", "Model", "IP", "Serial"));
    assert_eq!(lines[1], "-".repeat(85));
    assert_eq!(lines[2], format!("{:<12} {:<35} {:<18} {}", "old", "Pixel 8", "-", "XYZ"));
    assert_eq!(lines[3], format!("{:<12} {:<35} {:<18} {}", "pixel", "Pixel 8", "10.0.0.7:5555", "ABC123"));
}

#[test]
fn status_report_lines() {
    let d = dev("ABC123", Some("10.0.0.7"), Some(5555));
    let c = conn(&[("10.0.0.7:5555", "device"), ("ABC123", "offline")]);
    assert_eq!(
        status("pixel", &d, &c, true, false),
        vec![
            "== pixel (10.0.0.7:5555) ==",
            "  WiFi:  CONNECTED",
            "  USB:   not connected",
            "  Ping:  reachable",
            "  Daemon: not loaded",
            "",
        ]
    );
    let usb = dev("XYZ", None, None);
    assert_eq!(
        status("old", &usb, &conn(&[("XYZ", "device")]), false, true),
        vec!["== old (XYZ) ==", "  USB:   CONNECTED", "  Daemon: LOADED", ""]
    );
}

#[test]
fn daemon_listing_is_found_by_name() {
    let out = "PID\tStatus\tLabel\n123\t0\tcom.user.ddb-heartbeat-pixel\n";
    assert!(daemon_listed(out, "pixel"));
    assert!(!daemon_listed(out, "other"));
}

#[test]
fn enrolling_needs_force_to_replace() {
    let mut m = DeviceMap::new();
    let r = enroll_on(&mut m, "pixel", "S1".into(), "Pixel".into(), "14".into(), 34, None, Some(5555), false, "2024-05-06");
    assert_eq!(r, Ok("enrolled 'pixel'.".to_string()));
    assert_eq!(m.get("pixel").unwrap().enrolled, "2024-05-06");
    let again = enroll_on(&mut m, "pixel", "S2".into(), "Pixel".into(), "14".into(), 34, None, None, false, "2024-07-01");
    assert_eq!(again, Err("device 'pixel' already enrolled (use --force to re-enroll)".to_string()));
    assert_eq!(m.get("pixel").unwrap().serial, "S1");
    let forced = enroll_on(&mut m, "pixel", "S2".into(), "Pixel".into(), "14".into(), 34, Some("10.0.0.9".into()), None, true, "2024-07-01");
    assert_eq!(forced, Ok("re-enrolled 'pixel'.".to_string()));
    let d = m.get("pixel").unwrap();
    assert_eq!(d.serial, "S2");
    assert_eq!(d.wifi_ip.as_deref(), Some("10.0.0.9"));
    assert_eq!(d.enrolled, "2024-05-06");
}

#[test]
fn add_dates_a_new_device() {
    let mut m = DeviceMap::new();
    assert_eq!(add(&mut m, "tab", "T1".into(), "Tab".into(), "13".into(), 33, None, None, false), Ok("enrolled 'tab'.".to_string()));
    let date = m.get("tab").unwrap().enrolled.clone();
    assert_eq!(date.len(), 10);
    assert_eq!(&date[4..5], "-");
}

#[test]
fn removing() {
    let mut m = DeviceMap::new();
    m.insert("pixel".to_string(), dev("S", None, None));
    assert_eq!(remove(&mut m, "nope"), Err("device 'nope' not found".to_string()));
    assert_eq!(remove(&mut m, "pixel"), Ok("removed 'pixel'.".to_string()));
    assert!(m.get("pixel").is_none());
    assert!(m.is_empty());
}

#[test]
fn wireless_connection_steps() {
    let d = dev("ABC", Some("10.0.0.7"), None);
    assert_eq!(wireless_addr("pixel", &d), Err("pixel: no wifi_ip configured".to_string()));
    let d = dev("ABC", Some("10.0.0.7"), Some(5555));
    assert_eq!(wireless_addr("pixel", &d), Ok("10.0.0.7:5555".to_string()));
    match connect_plan("pixel", &d, &conn(&[("10.0.0.7:5555", "device")])).unwrap() {
        ConnectPlan::Already { message } => assert_eq!(message, "pixel: already connected wirelessly at 10.0.0.7:5555"),
        _ => panic!("expected already connected"),
    }
    match connect_plan("pixel", &d, &conn(&[("ABC", "device")])).unwrap() {
        ConnectPlan::Connect { switch_port, addr } => {
            assert_eq!(switch_port, Some(5555));
            assert_eq!(addr, "10.0.0.7:5555");
        }
        _ => panic!("expected a connection"),
    }
    match connect_plan("pixel", &d, &conn(&[])).unwrap() {
        ConnectPlan::Connect { switch_port, .. } => assert_eq!(switch_port, None),
        _ => panic!("expected a connection"),
    }
    assert_eq!(
        connect_outcome("pixel", &d, "10.0.0.7:5555", &conn(&[("10.0.0.7:5555", "device")])),
        Ok("pixel: wireless ADB connected.".to_string())
    );
    assert_eq!(
        connect_outcome("pixel", &d, "10.0.0.7:5555", &conn(&[])),
        Err("pixel: connection failed. Is the device on WiFi at 10.0.0.7?".to_string())
    );
    assert_eq!(
        disconnect("pixel", &d),
        Ok((vec!["disconnect".to_string(), "10.0.0.7:5555".to_string()], "pixel: disconnected.".to_string()))
    );
}
