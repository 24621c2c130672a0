use ddb::adb::{adb_args, connected_serials, label, outcome, shell, timeout_secs};
use ddb::registry::Device;

fn dev() -> Device {
    Device {
        serial: "R5C".to_string(),
        model: "m".to_string(),
        android: "13".to_string(),
        sdk: 33,
        wifi_ip: Some("192.168.1.9".to_string()),
        adb_port: Some(5555),
        enrolled: "t".to_string(),
    }
}

#[test]
fn arguments_target_the_device() {
    assert_eq!(adb_args(None, &["devices"]), vec!["devices"]);
    assert_eq!(shell(Some(&dev()), &["input", "tap", "1", "2"]),
        vec!["-s", "192.168.1.9:5555", "shell", "input", "tap", "1", "2"]);
    assert_eq!(label(&["shell", "ls"]), "shell");
    assert_eq!(label(&[]), "");
}

#[test]
fn timeout_from_environment() {
    assert_eq!(timeout_secs(None), 30);
    assert_eq!(timeout_secs(Some("45")), 45);
    assert_eq!(timeout_secs(Some("+7")), 7);
    assert_eq!(timeout_secs(Some("-1")), 30);
    assert_eq!(timeout_secs(Some("abc")), 30);
    assert_eq!(timeout_secs(Some("18446744073709551616")), 30);
}

#[test]
fn outcomes() {
    assert_eq!(outcome(true, false, String::new(), "", "shell", 30).unwrap_err(), "adb shell timed out (30s)");
    assert_eq!(outcome(false, false, String::new(), "no device", "shell", 30).unwrap_err(), "adb shell failed: no device");
    assert_eq!(outcome(false, true, "out".to_string(), "", "shell", 30).unwrap(), "out");
}

#[test]
fn device_list_parsing() {
    let out = "List of devices attached\n* daemon started\nR5C\tdevice\n192.168.1.9:5555\toffline\r\n\nnotab\n";
    assert_eq!(
        connected_serials(out),
        vec![
            ("R5C".to_string(), "device".to_string()),
            ("192.168.1.9:5555".to_string(), "offline".to_string()),
        ]
    );
    assert!(connected_serials("List of devices attached\n").is_empty());
}
