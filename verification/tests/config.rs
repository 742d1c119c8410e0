use grubstation::config::{
    find_default_grub_file, find_grub_file, get_default_config_path, load_config,
    validate_file_exists, validate_ipv4, Config, ConfigDocument, DaemonConfig, DaemonSection,
    DefaultPath, FieldError, GrubConfig, GrubSection, HostConfig, Section, WakeOnLanConfig,
    WakeOnLanSection, DEFAULT_BROADCAST_ADDRESS, DEFAULT_BROADCAST_PORT, DEFAULT_DAEMON_PORT,
    DEFAULT_GRUB_PATHS,
};
use grubstation::yaml::config_text;

fn create_valid_config() -> Config {
    Config {
        host: HostConfig { interface: "lo".to_string() },
        daemon: Some(DaemonConfig { port: DEFAULT_DAEMON_PORT }),
        wake_on_lan: Some(WakeOnLanConfig {
            broadcast_address: DEFAULT_BROADCAST_ADDRESS.to_string(),
            broadcast_port: DEFAULT_BROADCAST_PORT,
        }),
        grub: Some(GrubConfig {
            path: "Cargo.toml".to_string(),
            network_wait: 10,
            webhook_id: "test-webhook-id".to_string(),
        }),
        webhook_id: None,
        api_key: None,
        ha_daemon_url: None,
        ha_grub_url: None,
    }
}

/// The only file there is.
fn grub_file_present(config: &Config) -> bool {
    let exists = config.grub.as_ref().map_or(false, |grub| grub.path == "Cargo.toml");
    validate_file_exists(exists, exists).is_ok()
}

fn broken(config: &Config) -> Vec<FieldError> {
    match config.validate(grub_file_present(config)) {
        Ok(()) => Vec::new(),
        Err(rules) => rules,
    }
}

fn empty_document() -> ConfigDocument {
    ConfigDocument {
        host: HostConfig { interface: "eth0".to_string() },
        daemon: Section::Absent,
        wake_on_lan: Section::Absent,
        grub: None,
        webhook_id: None,
        api_key: None,
        ha_daemon_url: None,
        ha_grub_url: None,
    }
}

#[test]
fn test_valid_config() {
    let config = create_valid_config();
    assert!(config.validate(grub_file_present(&config)).is_ok());
}

#[test]
fn test_minimal_config() {
    let config = Config {
        host: HostConfig { interface: "lo".to_string() },
        daemon: None,
        wake_on_lan: None,
        grub: None,
        webhook_id: None,
        api_key: None,
        ha_daemon_url: None,
        ha_grub_url: None,
    };
    assert!(config.validate(grub_file_present(&config)).is_ok());

    // What is not set is left out of the file.
    let yaml = config_text(&config).unwrap();
    assert!(!yaml.contains("webhook_id"));
    assert!(!yaml.contains("api_key"));
    assert!(!yaml.contains("ha_daemon_url"));
    assert!(!yaml.contains("ha_grub_url"));
    assert!(!yaml.contains("daemon"));
    assert!(!yaml.contains("wake_on_lan"));
    assert!(!yaml.contains("grub"));
    assert_eq!(yaml, "host:\n  interface: lo\n");
}

#[test]
fn test_empty_interface() {
    let mut config = create_valid_config();
    config.host.interface = "".to_string();
    assert!(config.validate(grub_file_present(&config)).is_err());
    assert_eq!(broken(&config), vec![FieldError::EmptyInterface]);
}

#[test]
fn test_invalid_port() {
    let mut config = create_valid_config();
    config.daemon.as_mut().unwrap().port = 0;
    assert!(config.validate(grub_file_present(&config)).is_err());
    assert_eq!(broken(&config), vec![FieldError::DaemonPort]);
}

#[test]
fn test_invalid_broadcast_address_v6() {
    let mut config = create_valid_config();
    config.wake_on_lan.as_mut().unwrap().broadcast_address = "::1".to_string();
    assert!(config.validate(grub_file_present(&config)).is_err());
    assert_eq!(broken(&config), vec![FieldError::BroadcastAddress]);
}

#[test]
fn test_invalid_broadcast_address_malformed() {
    let mut config = create_valid_config();
    config.wake_on_lan.as_mut().unwrap().broadcast_address = "not-an-ip".to_string();
    assert!(config.validate(grub_file_present(&config)).is_err());
    assert_eq!(broken(&config), vec![FieldError::BroadcastAddress]);
}

#[test]
fn test_invalid_grub_path() {
    let mut config = create_valid_config();
    config.grub.as_mut().unwrap().path = "non_existent_file.txt".to_string();
    assert!(config.validate(grub_file_present(&config)).is_err());
    assert_eq!(broken(&config), vec![FieldError::GrubFile]);
}

#[test]
fn test_invalid_network_wait() {
    let mut config = create_valid_config();
    config.grub.as_mut().unwrap().network_wait = 301;
    assert!(config.validate(grub_file_present(&config)).is_err());
    assert_eq!(broken(&config), vec![FieldError::NetworkWait]);
}

#[test]
fn limits_are_included() {
    let mut config = create_valid_config();
    config.daemon.as_mut().unwrap().port = 1025;
    config.wake_on_lan.as_mut().unwrap().broadcast_port = 1;
    config.grub.as_mut().unwrap().network_wait = 300;
    assert!(broken(&config).is_empty());
    config.daemon.as_mut().unwrap().port = 1024;
    config.wake_on_lan.as_mut().unwrap().broadcast_port = 0;
    assert_eq!(broken(&config), vec![FieldError::DaemonPort, FieldError::BroadcastPort]);
    config.daemon.as_mut().unwrap().port = 65535;
    config.wake_on_lan.as_mut().unwrap().broadcast_port = 65535;
    config.grub.as_mut().unwrap().network_wait = 0;
    assert!(broken(&config).is_empty());
}

#[test]
fn every_rule_has_a_field_and_a_code() {
    let told: Vec<(&str, &str)> = vec![
        FieldError::EmptyInterface,
        FieldError::DaemonPort,
        FieldError::BroadcastAddress,
        FieldError::BroadcastPort,
        FieldError::GrubFile,
        FieldError::NetworkWait,
    ]
    .iter()
    .map(|rule| (rule.field(), rule.code()))
    .collect();
    assert_eq!(
        told,
        vec![
            ("host.interface", "length"),
            ("daemon.port", "range"),
            ("wake_on_lan.broadcast_address", "invalid_ipv4"),
            ("wake_on_lan.broadcast_port", "range"),
            ("grub.path", "file_not_found"),
            ("grub.network_wait", "range"),
        ]
    );
}

#[test]
fn ipv4_addresses_are_four_bytes() {
    for good in ["0.0.0.0", "255.255.255.255", "192.168.1.10", "1.20.200.9"] {
        assert!(validate_ipv4(good).is_ok(), "{}", good);
    }
    for bad in [
        "", "1", "1.2.3", "1.2.3.4.5", "1.2.3.", ".1.2.3", "1..2.3", "256.1.1.1", "1.1.1.256",
        "01.2.3.4", "1.2.3.04", "00.0.0.0", "1.2.3.4 ", " 1.2.3.4", "+1.2.3.4", "1.2.3.1000",
        "a.b.c.d", "1,2,3,4", "1.2.3.4/8",
    ] {
        assert_eq!(validate_ipv4(bad), Err(FieldError::BroadcastAddress), "{}", bad);
    }
}

#[test]
fn a_directory_is_no_grub_file() {
    assert!(validate_file_exists(true, true).is_ok());
    assert_eq!(validate_file_exists(true, false), Err(FieldError::GrubFile));
    assert_eq!(validate_file_exists(false, false), Err(FieldError::GrubFile));
}

#[test]
fn defaults_are_filled_in() {
    let config = load_config(empty_document(), false).ok().unwrap();
    assert_eq!(config.host.interface, "eth0");
    assert_eq!(config.daemon.as_ref().unwrap().port, 8081);
    let wake = config.wake_on_lan.as_ref().unwrap();
    assert_eq!(wake.broadcast_address, "255.255.255.255");
    assert_eq!(wake.broadcast_port, 9);
    assert!(config.grub.is_none());
    assert!(config.webhook_id.is_none());
}

#[test]
fn given_settings_stay_and_the_rest_is_filled_in() {
    let mut document = empty_document();
    document.daemon = Section::Given(DaemonSection { port: Some(9000) });
    document.wake_on_lan = Section::Given(WakeOnLanSection {
        broadcast_address: Some("10.0.0.255".to_string()),
        broadcast_port: None,
    });
    document.grub = Some(GrubSection {
        path: "/boot/grub/grub.cfg".to_string(),
        network_wait: None,
        webhook_id: None,
    });
    document.api_key = Some("key".to_string());
    let config = load_config(document, true).ok().unwrap();
    assert_eq!(config.daemon.as_ref().unwrap().port, 9000);
    let wake = config.wake_on_lan.as_ref().unwrap();
    assert_eq!(wake.broadcast_address, "10.0.0.255");
    assert_eq!(wake.broadcast_port, 9);
    let grub = config.grub.as_ref().unwrap();
    assert_eq!(grub.path, "/boot/grub/grub.cfg");
    assert_eq!(grub.network_wait, 10);
    assert_eq!(grub.webhook_id, "");
    assert_eq!(config.api_key.as_deref(), Some("key"));
}

#[test]
fn a_section_that_is_nothing_stays_nothing() {
    let mut document = empty_document();
    document.daemon = Section::Null;
    document.wake_on_lan = Section::Null;
    let config = load_config(document, false).ok().unwrap();
    assert!(config.daemon.is_none());
    assert!(config.wake_on_lan.is_none());

    let mut document = empty_document();
    document.daemon = Section::Given(DaemonSection { port: None });
    let config = load_config(document, false).ok().unwrap();
    assert_eq!(config.daemon.as_ref().unwrap().port, 8081);
}

#[test]
fn loading_reports_every_broken_rule() {
    let mut document = empty_document();
    document.host.interface = "".to_string();
    document.daemon = Section::Given(DaemonSection { port: Some(80) });
    document.wake_on_lan = Section::Given(WakeOnLanSection {
        broadcast_address: Some("nowhere".to_string()),
        broadcast_port: Some(0),
    });
    document.grub = Some(GrubSection {
        path: "missing".to_string(),
        network_wait: Some(301),
        webhook_id: Some("id".to_string()),
    });
    assert_eq!(
        load_config(document, false).err().unwrap(),
        vec![
            FieldError::EmptyInterface,
            FieldError::DaemonPort,
            FieldError::BroadcastAddress,
            FieldError::BroadcastPort,
            FieldError::GrubFile,
            FieldError::NetworkWait,
        ]
    );
}

#[test]
fn the_whole_configuration_is_written() {
    let mut config = create_valid_config();
    config.webhook_id = Some("hook".to_string());
    config.api_key = Some("key".to_string());
    config.ha_daemon_url = Some("http://ha:8123".to_string());
    config.ha_grub_url = Some("http://ha:8124".to_string());
    let yaml = config_text(&config).unwrap();
    assert_eq!(
        yaml,
        "host:\n  interface: lo\ndaemon:\n  port: 8081\nwake_on_lan:\n  \
         broadcast_address: 255.255.255.255\n  broadcast_port: 9\ngrub:\n  path: Cargo.toml\n  \
         network_wait: 10\n  webhook_id: test-webhook-id\nwebhook_id: hook\napi_key: key\n\
         ha_daemon_url: http://ha:8123\nha_grub_url: http://ha:8124\n"
    );
    config.grub.as_mut().unwrap().webhook_id = "".to_string();
    assert!(!config_text(&config).unwrap().contains("test-webhook-id"));
}

#[test]
fn the_grub_file_is_the_configured_or_the_first_present() {
    let config = create_valid_config();
    assert_eq!(find_grub_file(&config, &vec![true, true]).as_deref(), Some("Cargo.toml"));
    let mut config = config.clone();
    config.grub = None;
    assert_eq!(
        find_grub_file(&config, &vec![true, true]).as_deref(),
        Some("/boot/grub/grub.cfg")
    );
    assert_eq!(
        find_grub_file(&config, &vec![false, true]).as_deref(),
        Some("/boot/grub2/grub.cfg")
    );
    assert_eq!(find_grub_file(&config, &vec![false, false]), None);
    assert_eq!(find_default_grub_file(&vec![true, false]).as_deref(), Some(DEFAULT_GRUB_PATHS[0]));
}

#[test]
fn the_default_path_depends_on_the_system() {
    assert!(matches!(
        get_default_config_path(true, Some("/home/me".to_string())),
        DefaultPath::At(path) if path == "/etc/grubstation/config.yaml"
    ));
    assert!(matches!(
        get_default_config_path(false, None),
        DefaultPath::At(path) if path == "config.yaml"
    ));
    assert!(matches!(
        get_default_config_path(false, Some("C:\\cfg".to_string())),
        DefaultPath::Within { directory, file } if directory == "C:\\cfg" && file == "config.yaml"
    ));
}

/// The document that the text of a configuration file spells.
fn document(yaml: &str) -> ConfigDocument {
    let file: serde_yaml::Value = serde_yaml::from_str(yaml).unwrap();
    let text = |value: &serde_yaml::Value, name: &str| {
        value.get(name).map(|found| found.as_str().unwrap().to_string())
    };
    let number = |value: &serde_yaml::Value, name: &str| {
        value.get(name).map(|found| found.as_u64().unwrap())
    };
    ConfigDocument {
        host: HostConfig { interface: text(&file["host"], "interface").unwrap() },
        daemon: match file.get("daemon") {
            Some(daemon) => Section::Given(DaemonSection {
                port: number(daemon, "port").map(|port| port as u16),
            }),
            None => Section::Absent,
        },
        wake_on_lan: match file.get("wake_on_lan") {
            Some(wake) => Section::Given(WakeOnLanSection {
                broadcast_address: text(wake, "broadcast_address"),
                broadcast_port: number(wake, "broadcast_port").map(|port| port as u16),
            }),
            None => Section::Absent,
        },
        grub: file.get("grub").map(|grub| GrubSection {
            path: text(grub, "path").unwrap(),
            network_wait: number(grub, "network_wait").map(|wait| wait as u32),
            webhook_id: text(grub, "webhook_id"),
        }),
        webhook_id: text(&file, "webhook_id"),
        api_key: text(&file, "api_key"),
        ha_daemon_url: text(&file, "ha_daemon_url"),
        ha_grub_url: text(&file, "ha_grub_url"),
    }
}

#[test]
fn what_is_written_is_loaded_back() {
    let mut config = create_valid_config();
    config.host.interface = "null".to_string();
    config.daemon.as_mut().unwrap().port = 9000;
    config.wake_on_lan.as_mut().unwrap().broadcast_address = "10.0.0.255".to_string();
    config.api_key = Some("k: \"#\" 'x'\n".to_string());
    config.ha_grub_url = Some("true".to_string());
    let written = config_text(&config).unwrap();
    let loaded = load_config(document(&written), true).ok().unwrap();
    assert_eq!(loaded.host.interface, "null");
    assert_eq!(loaded.daemon.as_ref().unwrap().port, 9000);
    assert_eq!(loaded.wake_on_lan.as_ref().unwrap().broadcast_address, "10.0.0.255");
    assert_eq!(loaded.api_key, config.api_key);
    assert_eq!(loaded.ha_grub_url, config.ha_grub_url);
    assert_eq!(config_text(&loaded).unwrap(), written);

    // What was not set comes back with its defaults.
    config.daemon = None;
    config.wake_on_lan = None;
    config.grub = None;
    let loaded = load_config(document(&config_text(&config).unwrap()), true).ok().unwrap();
    assert_eq!(loaded.daemon.as_ref().unwrap().port, DEFAULT_DAEMON_PORT);
    assert_eq!(loaded.wake_on_lan.as_ref().unwrap().broadcast_port, DEFAULT_BROADCAST_PORT);
    assert!(loaded.grub.is_none());
}
