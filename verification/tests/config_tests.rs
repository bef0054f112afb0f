use usb_station::config::{
    default_db_url, default_default_verify, default_download_path, default_enabled, default_frontend_dist,
    default_host, default_iso_path, default_log_level, default_log_path, default_max_concurrent, default_port,
    default_watch_paths, split_paths, EnvValues, Settings,
};

fn unset() -> EnvValues {
    EnvValues {
        server_host: None,
        server_port: None,
        log_level: None,
        frontend_dist: None,
        database_url: None,
        flash_max_concurrent: None,
        flash_verify: None,
        storage_iso_path: None,
        storage_download_path: None,
        storage_log_path: None,
        watch_enabled: None,
        watch_paths: None,
    }
}

#[test]
fn defaults() {
    assert_eq!(default_host(), "0.0.0.0");
    assert_eq!(default_port(), 8080);
    assert_eq!(default_log_level(), "info");
    assert_eq!(default_frontend_dist(), "/usr/share/usb-station/frontend");
    assert_eq!(default_db_url(), "sqlite:///data/usb-station.db?mode=rwc");
    assert_eq!(default_max_concurrent(), 2);
    assert!(default_default_verify());
    assert_eq!(default_iso_path(), "/storage/iso");
    assert_eq!(default_download_path(), "/storage/downloads");
    assert_eq!(default_log_path(), "/logs");
    assert!(default_enabled());
    assert_eq!(default_watch_paths(), vec!["/storage/iso".to_string()]);
}

#[test]
fn unset_environment_gives_defaults() {
    let s = Settings::from_env(&unset());
    assert_eq!(s.server.host, "0.0.0.0");
    assert_eq!(s.server.port, 8080);
    assert_eq!(s.server.log_level, "info");
    assert_eq!(s.database.url, "sqlite:///data/usb-station.db?mode=rwc");
    assert_eq!(s.flash.max_concurrent, 2);
    assert!(s.flash.verify);
    assert_eq!(s.storage.iso_path, "/storage/iso");
    assert_eq!(s.storage.download_path, "/storage/downloads");
    assert_eq!(s.storage.log_path, "/logs");
    assert!(s.watch.enabled);
    assert_eq!(s.watch.paths, vec!["/storage/iso".to_string()]);
}

#[test]
fn environment_overrides() {
    let mut env = unset();
    env.server_host = Some("127.0.0.1".into());
    env.server_port = Some("9000".into());
    env.flash_max_concurrent = Some("+4".into());
    env.flash_verify = Some("TRUE".into());
    env.watch_enabled = Some("true".into());
    env.watch_paths = Some(" /a , /b ,".into());
    env.database_url = Some("sqlite::memory:".into());
    let s = Settings::from_env(&env);
    assert_eq!(s.server.host, "127.0.0.1");
    assert_eq!(s.server.port, 9000);
    assert_eq!(s.flash.max_concurrent, 4);
    assert!(!s.flash.verify);
    assert!(s.watch.enabled);
    assert_eq!(s.watch.paths, vec!["/a".to_string(), "/b".to_string(), "".to_string()]);
    assert_eq!(s.database.url, "sqlite::memory:");
}

#[test]
fn bad_numbers_fall_back() {
    let mut env = unset();
    env.server_port = Some("70000".into());
    env.flash_max_concurrent = Some(" 3".into());
    let s = Settings::from_env(&env);
    assert_eq!(s.server.port, 8080);
    assert_eq!(s.flash.max_concurrent, 2);
    env.server_port = Some("65535".into());
    env.flash_max_concurrent = Some("4294967295".into());
    let s = Settings::from_env(&env);
    assert_eq!(s.server.port, 65535);
    assert_eq!(s.flash.max_concurrent, 4294967295);
    env.flash_max_concurrent = Some("4294967296".into());
    env.server_port = Some("-1".into());
    let s = Settings::from_env(&env);
    assert_eq!(s.flash.max_concurrent, 2);
    assert_eq!(s.server.port, 8080);
}

#[test]
fn watch_path_splitting() {
    assert_eq!(split_paths("x"), vec!["x".to_string()]);
    assert_eq!(split_paths(""), vec!["".to_string()]);
    assert_eq!(split_paths("\t/iso\u{3000},/dl"), vec!["/iso".to_string(), "/dl".to_string()]);
}
