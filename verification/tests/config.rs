use validate_pgp_server::config::{CommandLineAction, Config, ConfigHelper};

/// The configuration the server ships with: checked but not yet active.
fn shipped_config() -> Config {
    Config {
        listen_address: "127.0.0.1:8443".to_string(),
        cert_file: "etc/server.crt".to_string(),
        key_file: "etc/server.key".to_string(),
        allowed_cert_thumbprints: vec!["AB12CD".to_string()],
        host_by_thumbprint: true,
        host_by_cert: false,
        auth_ssl: true,
        active: false,
        runtime_worker_threads: 4,
        runtime_worker_blocking_threads: 4,
        auth_key: vec!["secret".to_string(), "-key".to_string()],
        debug: false,
    }
}

#[test]
fn integration_test01_config_check() {
    let cfg = shipped_config();
    assert_eq!(false, cfg.is_config_valid());
}

#[test]
fn config_check_valid() {
    let mut cfg = shipped_config();
    let _x = cfg.validate_report_config();
    let res = cfg.is_config_valid();
    assert!(true, "config is not valid  '{}'", res);
    assert!(res);
}

#[test]
fn config_check_valid2() -> Result<(), String> {
    let mut cfg = shipped_config();
    let _x = cfg.validate_report_config();
    if cfg.is_config_valid() {
        Ok(())
    } else {
        Err(String::from("Configuration is not valid"))
    }
}

#[test]
fn integration_test02_config_check() {
    let cfg = shipped_config();
    assert_eq!(false, cfg.is_config_valid());
}

#[test]
fn report_returns_the_active_config() {
    let mut cfg = shipped_config();
    let reported = cfg.validate_report_config().clone();
    assert!(reported.active);
    assert_eq!(reported.listen_address, "127.0.0.1:8443");
    assert_eq!(reported.auth_key, vec!["secret".to_string(), "-key".to_string()]);
    assert!(cfg.active);
    // reporting twice changes nothing more
    let _again = cfg.validate_report_config();
    assert!(cfg.is_config_valid());
}

#[test]
fn configs_are_equal_by_listen_address() {
    let a = shipped_config();
    let mut b = shipped_config();
    b.debug = true;
    b.auth_key = vec![];
    assert!(a == b);
    b.listen_address = "0.0.0.0:9000".to_string();
    assert!(a != b);
    assert!(a == a.clone());
}

#[test]
fn auth_password_joins_key_parts() {
    let cfg = shipped_config();
    assert_eq!(cfg.auth_password(), "secret-key");
    let mut empty = shipped_config();
    empty.auth_key = vec![];
    assert_eq!(empty.auth_password(), "");
}

#[test]
fn command_line_prefers_config_file() {
    match Config::command_line_action(Some("etc/a.json".to_string()), Some("x".to_string())) {
        CommandLineAction::LoadConfigFile(p) => assert_eq!(p, "etc/a.json"),
        other => panic!("unexpected {:?}", other),
    }
}

#[test]
fn command_line_help_and_missing() {
    assert!(matches!(
        Config::command_line_action(None, Some("".to_string())),
        CommandLineAction::ShowHelp
    ));
    assert!(matches!(
        Config::command_line_action(None, None),
        CommandLineAction::MissingConfigFile
    ));
}
