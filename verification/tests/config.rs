use ddb::config::{join_path, Config};

#[test]
fn defaults() {
    let c = Config::default();
    assert_eq!(c.adb_path, "adb");
    assert_eq!(c.scrcpy_path, "scrcpy");
    assert!(c.default_device.is_none());
}

#[test]
fn paths_join_like_pathbuf() {
    assert_eq!(Config::dir(Some("/home/u")), "/home/u/.config/ddb");
    assert_eq!(Config::dir(Some("/home/u/")), "/home/u/.config/ddb");
    assert_eq!(Config::path(None), "/tmp/.config/ddb/config.toml");
    assert_eq!(join_path("", "x"), "x");
}

#[test]
fn default_programs() {
    assert_eq!(ddb::config::default_adb_path(), "adb");
    assert_eq!(ddb::config::default_scrcpy_path(), "scrcpy");
}

#[test]
fn config_set_updates_known_keys_only() {
    let mut c = Config::default();
    assert!(c.set("adb_path", "/opt/adb".to_string()).is_ok());
    assert_eq!(c.adb_path, "/opt/adb");
    assert!(c.set("default_device", "pixel".to_string()).is_ok());
    assert_eq!(c.default_device.as_deref(), Some("pixel"));
    assert!(c.set("default_device", "none".to_string()).is_ok());
    assert!(c.default_device.is_none());
    assert_eq!(c.set("colour", "x".to_string()), Err("unknown key 'colour'".to_string()));
    assert_eq!(c.scrcpy_path, "scrcpy");
}
