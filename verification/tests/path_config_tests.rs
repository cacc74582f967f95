use anchr::config::{
    validate_server_config, Config, ConfigError, NetworkConfig, RfsConfig, SetupConfig,
};
use anchr::path::{resolve_and_validate_path, PathError};
use anchr::text::{dev_name_ok, filename_ok};

fn volumes() -> Vec<RfsConfig> {
    vec![
        RfsConfig { dev_name: "ipel_disk_1".to_string(), bind_path: "/srv/vol1".to_string() },
        RfsConfig { dev_name: "ipel_disk_2".to_string(), bind_path: "/srv/vol2".to_string() },
    ]
}

#[test]
fn resolves_nested_virtual_paths() {
    let vols = volumes();
    assert_eq!(resolve_and_validate_path("/ipel_disk_1/a/b", &vols).unwrap(), "/srv/vol1/a/b");
    assert_eq!(resolve_and_validate_path("/ipel_disk_2", &vols).unwrap(), "/srv/vol2");
    // Doubled and trailing separators collapse.
    assert_eq!(resolve_and_validate_path("/ipel_disk_1//a/", &vols).unwrap(), "/srv/vol1/a");
}

#[test]
fn rejects_malformed_virtual_paths() {
    let vols = volumes();
    assert_eq!(resolve_and_validate_path("", &vols).unwrap_err(), PathError::NotAbsolute);
    assert_eq!(resolve_and_validate_path("rel/path", &vols).unwrap_err(), PathError::NotAbsolute);
    assert_eq!(resolve_and_validate_path("/", &vols).unwrap_err(), PathError::MissingDevName);
    assert_eq!(resolve_and_validate_path("/../x", &vols).unwrap_err(), PathError::BadDevName);
    assert_eq!(resolve_and_validate_path("/nosuch/x", &vols).unwrap_err(), PathError::UnknownDevice);
    assert_eq!(
        resolve_and_validate_path("/ipel_disk_1/../etc", &vols).unwrap_err(),
        PathError::BadComponent
    );
    assert_eq!(
        resolve_and_validate_path("/ipel_disk_1/a/./b", &vols).unwrap_err(),
        PathError::BadComponent
    );
}

fn config_with(rfs: Option<Vec<RfsConfig>>) -> Config {
    Config {
        setup: SetupConfig {
            mode: "server".to_string(),
            certificate: "cert.crt".to_string(),
            private_key: "cert.key".to_string(),
            auth_token: "abcd".to_string(),
            log_level: "info".to_string(),
        },
        network: NetworkConfig {
            listen: "0.0.0.0".to_string(),
            address: "127.0.0.1".to_string(),
            port: 33321,
        },
        rfs,
    }
}

#[test]
fn server_config_checks() {
    assert!(validate_server_config(&config_with(Some(volumes()))).is_ok());
    assert_eq!(
        validate_server_config(&config_with(None)).unwrap_err(),
        ConfigError::MissingRfs
    );
    assert_eq!(
        validate_server_config(&config_with(Some(vec![]))).unwrap_err(),
        ConfigError::EmptyRfs
    );
    let bad_name = vec![RfsConfig {
        dev_name: "bad name".to_string(),
        bind_path: "/srv/x".to_string(),
    }];
    assert_eq!(
        validate_server_config(&config_with(Some(bad_name))).unwrap_err(),
        ConfigError::BadDevName
    );
    let dup = vec![
        RfsConfig { dev_name: "a".to_string(), bind_path: "/srv/x".to_string() },
        RfsConfig { dev_name: "b".to_string(), bind_path: "/srv/x".to_string() },
    ];
    assert_eq!(
        validate_server_config(&config_with(Some(dup))).unwrap_err(),
        ConfigError::DuplicateBindPath
    );
}

#[test]
fn filename_character_set() {
    assert!(filename_ok("report_v2.FINAL@host-1.tar.gz"));
    assert!(!filename_ok(""));
    assert!(!filename_ok("with space"));
    assert!(!filename_ok("with/slash"));
    assert!(!filename_ok("tab\there"));
}

#[test]
fn dev_name_character_set() {
    assert!(dev_name_ok("ipel_disk_1"));
    assert!(dev_name_ok("A-B_9"));
    assert!(!dev_name_ok(""));
    assert!(!dev_name_ok("dots.not.allowed"));
    assert!(!dev_name_ok("at@sign"));
}
