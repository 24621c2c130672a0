use ddb::mirror::{available_targets, format_candidates, pick_target};
use ddb::registry::{Device, DeviceMap};

fn dev(serial: &str, ip: Option<&str>, port: Option<u16>) -> Device {
    Device {
        serial: serial.to_string(),
        model: "Pixel".to_string(),
        android: "14".to_string(),
        sdk: 34,
        wifi_ip: ip.map(|s| s.to_string()),
        adb_port: port,
        enrolled: "2024-01-01".to_string(),
    }
}

fn conn(items: &[(&str, &str)]) -> Vec<(String, String)> {
    items.iter().map(|(a, b)| (a.to_string(), b.to_string())).collect()
}

fn two_devices() -> DeviceMap {
    let mut m = DeviceMap::new();
    m.insert("beta".to_string(), dev("SER2", None, None));
    m.insert("alpha".to_string(), dev("SER1", Some("192.168.1.5"), Some(5555)));
    m
}

#[test]
fn targets_list_enrolled_then_loose_serials() {
    let m = two_devices();
    let c = conn(&[("192.168.1.5:5555", "device"), ("SER2", "offline"), ("EMU", "device")]);
    let t = available_targets(&m, &c);
    assert_eq!(
        t,
        vec![
            (Some("alpha".to_string()), "192.168.1.5:5555".to_string()),
            (None, "EMU".to_string())
        ]
    );
    assert_eq!(format_candidates(&t), "alpha (192.168.1.5:5555), EMU");
}

#[test]
fn serial_of_an_up_device_is_not_listed_twice() {
    let m = two_devices();
    let c = conn(&[("SER1", "device")]);
    let t = available_targets(&m, &c);
    assert_eq!(t, vec![(Some("alpha".to_string()), "192.168.1.5:5555".to_string())]);
}

#[test]
fn pick_by_name_or_serial() {
    let m = two_devices();
    let c = conn(&[("192.168.1.5:5555", "device"), ("EMU", "device")]);
    assert_eq!(pick_target(Some("beta"), &m, &c), Ok(Some("SER2".to_string())));
    assert_eq!(pick_target(Some("EMU"), &m, &c), Ok(Some("EMU".to_string())));
    assert_eq!(
        pick_target(Some("zzz"), &m, &c),
        Err("unknown device 'zzz'. available: alpha (192.168.1.5:5555), EMU".to_string())
    );
    assert_eq!(
        pick_target(None, &m, &c),
        Err("multiple devices available, specify one with -d: alpha (192.168.1.5:5555), EMU".to_string())
    );
}

#[test]
fn pick_without_name() {
    let empty = DeviceMap::new();
    assert_eq!(pick_target(None, &empty, &conn(&[])), Ok(None));
    assert_eq!(
        pick_target(Some("x"), &empty, &conn(&[])),
        Err("unknown device 'x'. available: (none)".to_string())
    );
    assert_eq!(pick_target(None, &empty, &conn(&[("EMU", "device")])), Ok(Some("EMU".to_string())));
    let mut one = DeviceMap::new();
    one.insert("beta".to_string(), dev("SER2", None, None));
    assert_eq!(
        pick_target(None, &one, &conn(&[("SER2", "unauthorized")])),
        Err("no connected devices. attach via USB or run `ddb devices connect <name>`".to_string())
    );
}
