use ddb::registry::{Device, DeviceMap, Registry};

fn dev(serial: &str, ip: Option<&str>, port: Option<u16>) -> Device {
    Device {
        serial: serial.to_string(),
        model: "Pixel".to_string(),
        android: "14".to_string(),
        sdk: 34,
        wifi_ip: ip.map(|s| s.to_string()),
        adb_port: port,
        enrolled: "2024-01-01".to_string(),
    }
}

#[test]
fn transport_prefers_wireless_address() {
    assert_eq!(dev("ABC", Some("10.0.0.2"), Some(5555)).transport_id(), "10.0.0.2:5555");
    assert_eq!(dev("ABC", Some("10.0.0.2"), None).transport_id(), "ABC");
    assert_eq!(dev("ABC", None, Some(5555)).wifi_addr(), None);
    assert_eq!(dev("ABC", Some("h"), Some(1)).wifi_addr().as_deref(), Some("h:1"));
}

#[test]
fn map_keeps_names_in_order_and_replaces() {
    let mut m = DeviceMap::new();
    m.insert("pixel".to_string(), dev("1", None, None));
    m.insert("alpha".to_string(), dev("2", None, None));
    m.insert("zeta".to_string(), dev("3", None, None));
    m.insert("pixel".to_string(), dev("4", None, None));
    assert_eq!(m.key_list(), vec!["alpha", "pixel", "zeta"]);
    assert_eq!(m.len(), 3);
    assert_eq!(m.get("pixel").unwrap().serial, "4");
    assert!(m.get("beta").is_none());
}

#[test]
fn resolve_by_name_or_the_only_device() {
    let mut m = DeviceMap::new();
    assert_eq!(
        Registry::resolve(None, &m).unwrap_err(),
        "no devices enrolled. run: ddb devices add"
    );
    assert_eq!(
        Registry::resolve(Some("x"), &m).unwrap_err(),
        "unknown device 'x'. available: (none)"
    );
    assert!(Registry::resolve_device(None, &m).unwrap().is_none());
    m.insert("b".to_string(), dev("s1", None, None));
    let (name, d) = Registry::resolve(None, &m).unwrap();
    assert_eq!(name, "b");
    assert_eq!(d.serial, "s1");
    m.insert("a".to_string(), dev("s2", None, None));
    assert_eq!(
        Registry::resolve(None, &m).unwrap_err(),
        "multiple devices enrolled, specify one with -d: a, b"
    );
    assert_eq!(
        Registry::resolve(Some("c"), &m).unwrap_err(),
        "unknown device 'c'. available: a, b"
    );
    assert_eq!(Registry::resolve(Some("a"), &m).unwrap().1.serial, "s2");
    assert_eq!(Registry::resolve_device(Some("b"), &m).unwrap().unwrap().serial, "s1");
}

#[test]
fn registry_file_lives_in_the_config_dir() {
    assert_eq!(Registry::path(Some("/home/u")), "/home/u/.config/ddb/devices.toml");
    assert_eq!(Registry::path(None), "/tmp/.config/ddb/devices.toml");
}
