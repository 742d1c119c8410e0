use grubstation::client::{push_boot_options, push_outcome, PushReply};
use grubstation::config::{load_config, Config, ConfigDocument, GrubSection, HostConfig, Section};
use grubstation::daemon::{handle_pair_verify, start_server, PersistedState};
use grubstation::grub::parse_grub_entries;
use grubstation::hook::plan_pairing_hook;
use grubstation::net::{resolve_interface_details, Address, Interface, InterfaceError};
use grubstation::pairing::{adopt_interface, PairRequest};
use grubstation::request::Header;
use grubstation::state_file::{
    kept_state_text, manual_state_text, reset_state_text, setup_state_text, state_is_paired,
};
use grubstation::sync::{dry_run_text, menu_to_sync, payload_text, run_sync, StateFile};

const MENU: &str = "menuentry 'Ubuntu' {\n  echo 1\n}\n";

fn load() -> Config {
    let document = ConfigDocument {
        host: HostConfig { interface: "lo".to_string() },
        daemon: Section::Absent,
        wake_on_lan: Section::Absent,
        grub: Some(GrubSection {
            path: "grub.cfg".to_string(),
            network_wait: Some(10),
            webhook_id: Some("test-webhook".to_string()),
        }),
        webhook_id: None,
        api_key: None,
        ha_daemon_url: None,
        ha_grub_url: None,
    };
    load_config(document, true).ok().unwrap()
}

fn interfaces() -> Vec<Interface> {
    vec![Interface {
        name: "lo".to_string(),
        mac_addr: Some("00:00:00:00:00:00".to_string()),
        addresses: vec![Address { ip: "127.0.0.1".to_string(), is_ipv4: true }],
    }]
}

fn message(state: StateFile) -> String {
    run_sync(state).err().unwrap().message()
}

fn text(content: &str) -> StateFile {
    StateFile::Text(content.to_string())
}

#[test]
fn test_run_sync_dry_run() {
    let config = load();
    assert_eq!(menu_to_sync(&config).ok().unwrap(), "grub.cfg");
    let entries = parse_grub_entries(MENU);
    let found = resolve_interface_details(&interfaces(), &config.host.interface).ok().unwrap();

    // dry run should succeed without any state.json or server
    let shown = dry_run_text(&found.mac, &entries);
    assert_eq!(
        shown,
        "{\n  \"action\": \"update_boot_options\",\n  \"boot_options\": [\n    \"Ubuntu\"\n  ],\n  \
         \"mac\": \"00:00:00:00:00:00\"\n}"
    );

    // real run without state.json should fail
    assert!(run_sync(StateFile::Missing).is_err());
}

#[test]
fn test_run_sync_real() {
    let config = load();
    let entries = parse_grub_entries(MENU);
    let found = resolve_interface_details(&interfaces(), &config.host.interface).ok().unwrap();
    let state = "{\"paired\": true, \"token\": \"dummy-token\", \"webhook_id\": \
                 \"test-webhook-id\", \"api_key\": \"test-api-key\", \"ha_url\": \
                 \"http://127.0.0.1:8123\"}";
    let job = run_sync(text(state)).ok().unwrap();
    let request =
        push_boot_options(&job.ha_url, &job.webhook_id, &job.api_key, &found.mac, &entries);
    assert_eq!(request.url, "http://127.0.0.1:8123/api/webhook/test-webhook-id");
    assert!(request.authorization.is_some());
    assert_eq!(request.authorization.unwrap(), "Bearer test-api-key");
    let json_body: serde_json::Value = serde_json::from_str(&request.body).unwrap();
    assert_eq!(request.body, payload_text(&found.mac, &entries));
    assert_eq!(json_body["action"], "update_boot_options");
    assert_eq!(json_body["mac"], found.mac);
    assert_eq!(json_body["boot_options"].as_array().unwrap()[0].as_str().unwrap(), "Ubuntu");
    let reply = PushReply::Answered { status: 200, body: "{\"status\": \"ok\"}".to_string() };
    assert!(push_outcome(reply).is_ok());
}

#[test]
fn test_pair_subcommand_manual() {
    let request = PairRequest {
        ha_url: "http://127.0.0.1:8123".to_string(),
        webhook_id: "test-webhook-id".to_string(),
        api_key: "test-api-key".to_string(),
        update_grub: false,
        interface: "lo".to_string(),
    };
    let mut config = load();
    assert!(!adopt_interface(&mut config, &request.interface));
    let entries = parse_grub_entries(MENU);
    let found = resolve_interface_details(&interfaces(), &config.host.interface).ok().unwrap();
    let push = push_boot_options(
        &request.ha_url,
        &request.webhook_id,
        &request.api_key,
        &found.mac,
        &entries,
    );
    assert_eq!(push.url, "http://127.0.0.1:8123/api/webhook/test-webhook-id");
    assert!(push.authorization.is_some());
    assert_eq!(push.authorization.unwrap(), "Bearer test-api-key");
    let json_body: serde_json::Value = serde_json::from_str(&push.body).unwrap();
    assert_eq!(json_body["action"], "update_boot_options");
    assert_eq!(json_body["mac"], found.mac);

    let plan = plan_pairing_hook(
        &config,
        &vec![false, false],
        &request.ha_url,
        &request.webhook_id,
        request.update_grub,
    );
    assert_eq!(plan.unwrap().grub.webhook_id, "test-webhook-id");

    // Verify state.json was written correctly
    let state_content = manual_state_text(&request, "test-token");
    let state_json: serde_json::Value = serde_json::from_str(&state_content).unwrap();
    assert!(state_json["paired"].as_bool().unwrap());
    assert_eq!(state_json["webhook_id"].as_str().unwrap(), "test-webhook-id");
    assert_eq!(state_json["token"].as_str().unwrap(), "test-token");

    let job = run_sync(StateFile::Text(state_content)).ok().unwrap();
    assert_eq!(job.ha_url, "http://127.0.0.1:8123");
    assert_eq!(job.webhook_id, "test-webhook-id");
    assert_eq!(job.api_key, "test-api-key");
}

#[test]
fn a_sync_says_what_is_missing() {
    assert_eq!(
        message(StateFile::Missing),
        "Daemon is not paired. Please pair the daemon first or ensure state.json exists."
    );
    assert_eq!(
        message(StateFile::Unreadable { reason: "denied".to_string() }),
        "Failed to read state.json: denied"
    );
    assert!(message(text("{")).starts_with("Failed to parse state.json: EOF"));
    let not_paired = "Daemon is not paired. Please pair the daemon first.";
    assert_eq!(message(text("{}")), not_paired);
    assert_eq!(message(text("[1]")), not_paired);
    assert_eq!(message(text("{\"paired\": \"true\"}")), not_paired);
    assert_eq!(message(text("{\"paired\": false, \"webhook_id\": \"w\"}")), not_paired);
    assert_eq!(message(text("{\"paired\": true}")), "Missing webhook_id in state.json");
    assert_eq!(
        message(text("{\"paired\": true, \"webhook_id\": \"w\"}")),
        "Missing ha_url in state.json"
    );
    let job = run_sync(text("{\"paired\": true, \"webhook_id\": \"w\", \"ha_url\": \"u\"}"));
    assert_eq!(job.ok().unwrap().api_key, "");
}

#[test]
fn a_sync_needs_a_configured_boot_menu() {
    let mut config = load();
    config.grub = None;
    assert_eq!(
        menu_to_sync(&config).err().unwrap().message(),
        "No GRUB configuration found to sync."
    );
}

#[test]
fn what_a_daemon_keeps_can_be_synced() {
    let kept = PersistedState {
        paired: true,
        token: Some("t".to_string()),
        setup_pin: None,
        webhook_id: Some("w".to_string()),
        api_key: None,
        ha_url: Some("u".to_string()),
    };
    let written = kept_state_text(&kept);
    assert_eq!(
        written,
        "{\n  \"paired\": true,\n  \"token\": \"t\",\n  \"setup_pin\": null,\n  \
         \"webhook_id\": \"w\",\n  \"api_key\": null,\n  \"ha_url\": \"u\"\n}"
    );
    assert!(state_is_paired(&written));
    let job = run_sync(StateFile::Text(written)).ok().unwrap();
    assert_eq!((job.ha_url.as_str(), job.webhook_id.as_str()), ("u", "w"));
    assert_eq!(job.api_key, "");
}

#[test]
fn what_a_daemon_keeps_is_quoted() {
    let kept = PersistedState {
        paired: false,
        token: Some("a\"b\\".to_string()),
        setup_pin: Some("null".to_string()),
        webhook_id: Some("".to_string()),
        api_key: Some("\n\u{e9}".to_string()),
        ha_url: None,
    };
    let written = kept_state_text(&kept);
    let json: serde_json::Value = serde_json::from_str(&written).unwrap();
    assert_eq!(json["paired"], false);
    assert_eq!(json["token"], "a\"b\\");
    assert_eq!(json["setup_pin"], "null");
    assert_eq!(json["webhook_id"], "");
    assert_eq!(json["api_key"], "\n\u{e9}");
    assert!(json["ha_url"].is_null());
}

#[test]
fn a_waiting_host_is_not_paired() {
    let written = setup_state_text("012345");
    assert_eq!(written, "{\n  \"paired\": false,\n  \"setup_pin\": \"012345\"\n}");
    assert!(!state_is_paired(&written));
    assert!(!state_is_paired("no JSON"));
    assert!(!state_is_paired("7"));
    assert!(state_is_paired("{\"paired\": true}"));
}

#[test]
fn a_reset_keeps_the_rest() {
    let before = "{\"paired\": true, \"token\": \"t\", \"webhook_id\": \"w\", \"extra\": [1, {}]}";
    let after = reset_state_text(Some(before), "000042").ok().unwrap();
    assert!(!state_is_paired(&after));
    let json: serde_json::Value = serde_json::from_str(&after).unwrap();
    assert_eq!(json["paired"], false);
    assert!(json["token"].is_null());
    assert_eq!(json["setup_pin"], "000042");
    assert_eq!(json["webhook_id"], "w");
    assert_eq!(json["extra"][0], 1);
    assert_eq!(json.as_object().unwrap().len(), 5);

    let fraction = "{\"paired\": true, \"x\": 0.1, \"y\": {\"z\": [-7, 1e300]}}";
    let after = reset_state_text(Some(fraction), "000042").ok().unwrap();
    let json: serde_json::Value = serde_json::from_str(&after).unwrap();
    let names: Vec<&String> = json.as_object().unwrap().keys().collect();
    assert_eq!(names, vec!["paired", "setup_pin", "token", "x", "y"]);
    assert_eq!(json["paired"], false);
    assert_eq!(json["y"]["z"][0], -7);

    let deep = format!("{{\"d\": {}{}}}", "[".repeat(126), "]".repeat(126));
    let after = reset_state_text(Some(&deep), "000042").ok().unwrap();
    let json: serde_json::Value = serde_json::from_str(&after).unwrap();
    assert_eq!(json["setup_pin"], "000042");
    let deeper = format!("{{\"d\": {}{}}}", "[".repeat(127), "]".repeat(127));
    assert!(reset_state_text(Some(&deeper), "000042").is_err());

    let fresh = reset_state_text(None, "000042").ok().unwrap();
    assert_eq!(
        fresh,
        "{\n  \"paired\": false,\n  \"setup_pin\": \"000042\",\n  \"token\": null\n}"
    );
}

#[test]
fn a_reset_needs_an_object() {
    assert_eq!(
        reset_state_text(Some("[]"), "1").err().unwrap().message(),
        "state.json is not a JSON object"
    );
    assert!(reset_state_text(Some("{"), "1")
        .err()
        .unwrap()
        .message()
        .starts_with("Failed to parse state.json: EOF"));
}

#[test]
fn interfaces_that_cannot_be_used() {
    let all = vec![
        Interface { name: "a".to_string(), mac_addr: None, addresses: Vec::new() },
        Interface {
            name: "b".to_string(),
            mac_addr: Some("m".to_string()),
            addresses: vec![Address { ip: "::1".to_string(), is_ipv4: false }],
        },
    ];
    let error = |name: &str| resolve_interface_details(&all, name).err().unwrap();
    assert_eq!(error("a"), InterfaceError::NoMacAddress);
    assert_eq!(error("b"), InterfaceError::NoIpv4Address);
    assert_eq!(error("c"), InterfaceError::NotFound);
    assert_eq!(error("a").message("a"), "Interface 'a' has no MAC address");
    assert_eq!(error("b").message("b"), "Interface 'b' has no IPv4 address");
    assert_eq!(error("c").message("c"), "Interface 'c' not found");
}

#[test]
fn a_reset_allows_a_new_pairing() {
    let kept = PersistedState {
        paired: true,
        token: Some("t".to_string()),
        setup_pin: None,
        webhook_id: Some("w".to_string()),
        api_key: Some("k".to_string()),
        ha_url: Some("u".to_string()),
    };
    let after = PersistedState {
        paired: false,
        token: None,
        setup_pin: Some("000042".to_string()),
        webhook_id: Some("w".to_string()),
        api_key: Some("k".to_string()),
        ha_url: Some("u".to_string()),
    };
    let reset = reset_state_text(Some(&kept_state_text(&kept)), "000042").ok().unwrap();
    let as_value = |text: &str| serde_json::from_str::<serde_json::Value>(text).unwrap();
    assert_eq!(as_value(&reset), as_value(&kept_state_text(&after)));
    let mut state = start_server(&load(), Some(after)).state;
    let headers = vec![Header {
        field: "Authorization".to_string(),
        value: "Bearer 000042".to_string(),
    }];
    assert!(handle_pair_verify(&mut state, &headers).is_ok());
}
