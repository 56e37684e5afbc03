use windows_agent::auth::{
    apply_registration, needs_registration, register_body, RegisterResponse, TokenStore,
};
use windows_agent::config::{ConfigError, DeviceIdStore, DeviceRecord, UsageConfigStore};
use windows_agent::status::{DeviceStatusProvider, HostReadings};
use windows_agent::storage::StoragePaths;

#[test]
fn token_expiry_subtracts_two_minutes() {
    let mut t = TokenStore::new(None);
    assert!(!t.is_access_token_expired(0));
    t.save_tokens("a".to_string(), "r".to_string(), 3_600, 0);
    assert!(!t.is_access_token_expired(3_479_999));
    assert!(t.is_access_token_expired(3_480_000));
    assert!(t.has_tokens());
    assert!(t.ensure_refreshable().is_ok());
    t.clear();
    assert!(!t.has_tokens());
    assert!(t.ensure_refreshable().is_err());
    assert_eq!(t.access_token(), None);
}

#[test]
fn refresh_answer_handling() {
    let mut t = TokenStore::new(None);
    t.save_tokens("a".to_string(), "r".to_string(), 60, 0);
    assert!(t.apply_refresh(200, Some("b".to_string()), Some("r2".to_string()), Some(120), 5));
    let rec = t.record().unwrap();
    assert_eq!(rec.access_token, "b");
    assert_eq!(rec.refresh_token, "r2");
    assert_eq!(rec.expires_in_seconds, 120);
    assert_eq!(rec.issued_at, 5);
    assert!(t.apply_refresh(201, Some("c".to_string()), None, None, 6));
    let rec = t.record().unwrap();
    assert_eq!(rec.refresh_token, "r2");
    assert_eq!(rec.expires_in_seconds, 86_400);
    assert!(!t.apply_refresh(200, None, None, None, 7));
    assert_eq!(t.access_token(), Some("c".to_string()));
    assert!(!t.apply_refresh(500, Some("d".to_string()), None, None, 8));
    assert_eq!(t.access_token(), Some("c".to_string()));
    assert!(!t.apply_refresh(401, None, None, None, 9));
    assert!(!t.has_tokens());
    assert!(!t.apply_refresh(200, Some("e".to_string()), None, None, 10));
}

#[test]
fn registration_seeds_tokens_and_device() {
    let mut t = TokenStore::new(None);
    let mut d = DeviceIdStore::new(None);
    assert!(needs_registration(&t));
    apply_registration(
        &mut t,
        &mut d,
        RegisterResponse {
            device_id: "01234567-89ab-cdef-0123-456789abcdef".to_string(),
            access_token: "a".to_string(),
            refresh_token: "r".to_string(),
            expires_in: None,
        },
        99,
    );
    assert!(!needs_registration(&t));
    assert_eq!(t.record().unwrap().expires_in_seconds, 86_400);
    assert_eq!(
        d.record(),
        Some(DeviceRecord { device_id: 0x0123_4567_89ab_cdef_0123_4567_89ab_cdef, last_seen: 99 })
    );
    let mut d2 = DeviceIdStore::new(Some(DeviceRecord { device_id: 5, last_seen: 1 }));
    apply_registration(
        &mut t,
        &mut d2,
        RegisterResponse {
            device_id: "not-a-uuid".to_string(),
            access_token: "a".to_string(),
            refresh_token: "r".to_string(),
            expires_in: Some(10),
        },
        100,
    );
    assert_eq!(d2.record(), Some(DeviceRecord { device_id: 5, last_seen: 1 }));
    assert_eq!(t.record().unwrap().expires_in_seconds, 10);
}

#[test]
fn device_id_is_stable_once_minted() {
    let mut d = DeviceIdStore::new(None);
    let first = d.get_or_create(10);
    let second = d.get_or_create(20);
    assert_eq!(first, second);
    assert_eq!(d.record(), Some(DeviceRecord { device_id: first, last_seen: 20 }));
    assert_eq!(uuid::Uuid::from_u128(first).get_version_num(), 4);
    d.save(42, 30);
    assert_eq!(d.get_or_create(31), 42);
}

#[test]
fn endpoints_from_api_base() {
    let mut c = UsageConfigStore::new(None);
    assert_eq!(c.resolve_upload_config().err(), Some(ConfigError::MissingConfig));
    c.set_api_base("https://api.example.com");
    assert_eq!(c.get_api_base(), Some("https://api.example.com".to_string()));
    let cfg = c.resolve_upload_config().unwrap();
    assert_eq!(cfg.base_url, "https://api.example.com/");
    assert_eq!(cfg.batch_url, "https://api.example.com/api/v1/usage/batch");
    assert_eq!(cfg.refresh_url(), "https://api.example.com/api/v1/devices/refresh");
    assert_eq!(cfg.register_url(), "https://api.example.com/api/v1/devices/register");
    c.set_api_base("https://api.example.com/agent");
    let cfg = c.resolve_upload_config().unwrap();
    assert_eq!(cfg.base_url, "https://api.example.com/agent/");
    c.set_api_base("HTTPS://API.Example.COM/v1/../agent");
    let cfg = c.resolve_upload_config().unwrap();
    assert_eq!(cfg.base_url, "https://api.example.com/agent/");
    c.set_api_base("not a url");
    assert_eq!(c.resolve_upload_config().err(), Some(ConfigError::InvalidUrl));
}

#[test]
fn storage_file_names() {
    let sep = std::path::MAIN_SEPARATOR;
    let p = StoragePaths::new("data".to_string());
    assert_eq!(p.queue_path(), format!("data{sep}usage_queue.json"));
    assert_eq!(p.counters_path(), format!("data{sep}network_counters.json"));
    assert_eq!(p.device_path(), format!("data{sep}device.json"));
    assert_eq!(p.tokens_path(), format!("data{sep}tokens.json"));
    assert_eq!(p.config_path(), format!("data{sep}config.json"));
    let q = StoragePaths::new(format!("data{sep}"));
    assert_eq!(q.queue_path(), format!("data{sep}usage_queue.json"));
}

#[test]
fn status_defaults() {
    let p = DeviceStatusProvider::new();
    let s = p.build_status(HostReadings { is_admin: None, vpn: None, battery_life_percent: None, time_zone: None });
    assert!(!s.usage_access);
    assert!(!s.accessibility);
    assert!(s.overlay);
    assert!(!s.vpn);
    assert_eq!(s.battery_percent, None);
    assert_eq!(s.time_zone_id, "UTC");
    let s = p.build_status(HostReadings {
        is_admin: Some(true),
        vpn: Some(true),
        battery_life_percent: Some(255),
        time_zone: Some("W. Europe Standard Time".to_string()),
    });
    assert!(s.usage_access);
    assert!(s.vpn);
    assert_eq!(s.battery_percent, None);
    assert_eq!(s.time_zone_id, "W. Europe Standard Time");
    let s = p.build_status(HostReadings { is_admin: Some(false), vpn: None, battery_life_percent: Some(80), time_zone: None });
    assert_eq!(s.battery_percent, Some(80));
}

#[test]
fn registration_body() {
    assert_eq!(
        register_body("PC-1", "ann", "windows", "x86_64").unwrap(),
        "{\"platform\":\"windows\",\"name\":\"PC-1\",\"hardware\":{\"hostname\":\"PC-1\",\"username\":\"ann\",\"os\":\"windows\",\"arch\":\"x86_64\"}}"
    );
    let b = register_body("a\"b", "", "linux", "aarch64").unwrap();
    let v: serde_json::Value = serde_json::from_str(&b).unwrap();
    assert_eq!(v["name"], "a\"b");
    assert_eq!(v["hardware"]["username"], "");
}

#[test]
fn store_snapshots_reload_unchanged() {
    let mut t = TokenStore::new(None);
    t.save_tokens("a".to_string(), "r".to_string(), 3_600, 1_234);
    let reloaded = TokenStore::new(t.record());
    let (x, y) = (t.record().unwrap(), reloaded.record().unwrap());
    assert_eq!((x.access_token, x.refresh_token, x.issued_at, x.expires_in_seconds),
        (y.access_token, y.refresh_token, y.issued_at, y.expires_in_seconds));

    let mut d = DeviceIdStore::new(None);
    d.save(77, 5);
    assert_eq!(DeviceIdStore::new(d.record()).record(), d.record());

    let c = UsageConfigStore::new(Some("https://x.example/".to_string()));
    assert_eq!(UsageConfigStore::new(c.get_api_base()).get_api_base(), c.get_api_base());
}
