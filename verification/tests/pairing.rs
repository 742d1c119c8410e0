use grubstation::client::{push_boot_options, push_outcome, PushReply};
use grubstation::config::{Config, DaemonConfig, GrubConfig, HostConfig};
use grubstation::daemon::{
    handle_interfaces, handle_pair_verify, interfaces_reply, start_server, verified_reply,
    DaemonState, PersistedState, Startup,
};
use grubstation::grub::parse_grub_entries;
use grubstation::net::{resolve_interface_details, Address, Interface, InterfaceDetails};
use grubstation::pairing::{
    adopt_interface, handle_pair, menu_to_pair, PairCommit, PairRequest, Received,
};
use grubstation::reply::{send_json_response, Reply};
use grubstation::request::Header;
use grubstation::state_file::kept_state_text;

fn value(reply: &Reply) -> serde_json::Value {
    serde_json::from_str(&send_json_response(reply).body).unwrap()
}

fn bearer(token: &str) -> Vec<Header> {
    vec![
        Header { field: "Host".to_string(), value: "127.0.0.1".to_string() },
        Header { field: "Authorization".to_string(), value: format!("Bearer {}", token) },
    ]
}

fn interface(name: &str, mac: Option<&str>, addresses: &[(&str, bool)]) -> Interface {
    Interface {
        name: name.to_string(),
        mac_addr: mac.map(|mac| mac.to_string()),
        addresses: addresses
            .iter()
            .map(|(ip, is_ipv4)| Address { ip: ip.to_string(), is_ipv4: *is_ipv4 })
            .collect(),
    }
}

fn interfaces() -> Vec<Interface> {
    vec![
        interface("lo", Some("00:00:00:00:00:00"), &[("127.0.0.1", true), ("::1", false)]),
        interface("eth0", Some("aa:bb:cc:dd:ee:ff"), &[("fe80::1", false), ("10.0.0.5", true)]),
    ]
}

fn config(menu: Option<&str>) -> Config {
    Config {
        host: HostConfig { interface: "lo".to_string() },
        daemon: Some(DaemonConfig { port: 8090 }),
        wake_on_lan: None,
        grub: menu.map(|path| GrubConfig {
            path: path.to_string(),
            network_wait: 10,
            webhook_id: "init-webhook".to_string(),
        }),
        webhook_id: None,
        api_key: None,
        ha_daemon_url: None,
        ha_grub_url: None,
    }
}

fn waiting(pin: &str) -> PersistedState {
    PersistedState {
        paired: false,
        token: None,
        setup_pin: Some(pin.to_string()),
        webhook_id: None,
        api_key: None,
        ha_url: None,
    }
}

fn request(interface: &str) -> PairRequest {
    PairRequest {
        webhook_id: "test-webhook-id".to_string(),
        api_key: "test-api-key".to_string(),
        ha_url: "http://127.0.0.1:8123".to_string(),
        update_grub: false,
        interface: interface.to_string(),
    }
}

fn details(interface: &str) -> Result<InterfaceDetails, String> {
    resolve_interface_details(&interfaces(), interface).map_err(|error| error.message(interface))
}

fn none_present() -> Vec<bool> {
    vec![false, false]
}

fn hand_over(
    state: &mut DaemonState,
    token: &str,
    config: Config,
    request: PairRequest,
    entries: Vec<String>,
) -> Result<PairCommit, Reply> {
    let parsed = handle_pair(state, &bearer(token), config)?.payload(Received::Parsed(request))?;
    let details = details(&parsed.interface());
    let resolved = parsed.resolved(details)?;
    resolved.menu(&none_present(), entries).finish(Ok(()), state)
}

#[test]
fn test_pairing_endpoint() {
    let menu = "menuentry 'Ubuntu' {\n  echo 1\n}\nsubmenu 'Advanced' {\n  \
                menuentry 'Kernel 2' {\n    echo 2\n  }\n}\n";
    let config = config(Some("grub.cfg"));
    let Startup { port, mut state, advertise_paired, sync } =
        start_server(&config, Some(waiting("test-setup-pin")));
    assert_eq!(port, 8090);
    assert!(!advertise_paired);
    assert!(sync.is_none());

    // 1. Verify PIN and retrieve details
    let entries = parse_grub_entries(menu);
    let token = handle_pair_verify(&mut state, &bearer("test-setup-pin")).ok().unwrap();
    let found = details("lo").ok().unwrap();
    let reply = verified_reply(&token, &found.mac, "myhost", "Linux", &entries);
    assert_eq!(reply.status, 200);
    let verify_json = value(&reply);
    assert!(verify_json["success"].as_bool().unwrap());
    assert_eq!(verify_json["token"].as_str().unwrap(), token);
    assert!(!token.is_empty());
    assert!(verify_json["mac"].as_str().is_some());
    assert_eq!(verify_json["hostname"].as_str().unwrap(), "myhost");
    assert_eq!(verify_json["os"].as_str().unwrap(), "Linux");
    let options = verify_json["boot_options"].as_array().unwrap();
    assert_eq!(options.len(), 2);
    assert_eq!(options[0].as_str().unwrap(), "Ubuntu");
    assert_eq!(options[1].as_str().unwrap(), "Advanced>Kernel 2");

    // 1b. Test /interfaces endpoint
    assert!(handle_interfaces(&state, &bearer(&token)).is_ok());
    let reply = interfaces_reply(&interfaces());
    assert_eq!(reply.status, 200);
    let interfaces_json = value(&reply);
    let interfaces_list = interfaces_json.as_array().unwrap();
    assert!(!interfaces_list.is_empty());

    // Test unauthorized access to /interfaces
    assert!(handle_interfaces(&state, &bearer("invalid-token")).is_err());

    // 2. Perform pair request (config hand-off) to the daemon
    let commit =
        hand_over(&mut state, &token, config, request("lo"), parse_grub_entries(menu)).ok().unwrap();
    assert_eq!(commit.reply.status, 200);
    assert!(value(&commit.reply)["success"].as_bool().unwrap());

    // Check if state.json is saved correctly
    let state_json: serde_json::Value =
        serde_json::from_str(&kept_state_text(&commit.persisted)).unwrap();
    assert!(state_json["paired"].as_bool().unwrap());
    assert_eq!(state_json["token"].as_str().unwrap(), token);
    assert!(state_json["setup_pin"].is_null());
    assert_eq!(state_json["webhook_id"].as_str().unwrap(), "test-webhook-id");
    assert_eq!(state_json["api_key"].as_str().unwrap(), "test-api-key");
    assert_eq!(state_json["ha_url"].as_str().unwrap(), "http://127.0.0.1:8123");

    // The boot options go to the webhook
    let push = push_boot_options(
        &commit.sync.ha_url,
        &commit.sync.webhook_id,
        &commit.sync.api_key,
        &commit.mac,
        &commit.entries,
    );
    assert_eq!(push.url, "http://127.0.0.1:8123/api/webhook/test-webhook-id");
    assert_eq!(push.authorization.as_deref(), Some("Bearer test-api-key"));
    let json_body: serde_json::Value = serde_json::from_str(&push.body).unwrap();
    assert_eq!(json_body["action"], "update_boot_options");
    assert_eq!(json_body["mac"], found.mac);
    let options = json_body["boot_options"].as_array().unwrap();
    assert_eq!(options.len(), 2);
    assert_eq!(options[0].as_str().unwrap(), "Ubuntu");
    assert_eq!(options[1].as_str().unwrap(), "Advanced>Kernel 2");
    assert!(push_outcome(PushReply::Answered {
        status: 200,
        body: "{\"status\": \"ok\"}".to_string()
    })
    .is_ok());
}

#[test]
fn test_pairing_endpoint_with_setup_pin() {
    let config = config(Some("grub.cfg"));
    let mut state = start_server(&config, Some(waiting("654321"))).state;

    // 1. Attempt to verify PIN with no auth token (should fail with 401)
    let res_no_auth = handle_pair_verify(&mut state, &Vec::new());
    assert_eq!(res_no_auth.err().unwrap().status, 401);

    // 2. Attempt to verify PIN with invalid auth token (should fail with 401)
    let res_bad_auth = handle_pair_verify(&mut state, &bearer("111111")).err().unwrap();
    assert_eq!(res_bad_auth.status, 401);
    assert_eq!(value(&res_bad_auth)["error"], "invalid_pin");
    assert!(state.token.is_none());

    // 3. Attempt to verify PIN with correct setup pin (should succeed)
    let token = handle_pair_verify(&mut state, &bearer("654321")).ok().unwrap();

    // 4. Attempt to configure pairing with invalid token (should fail with 401)
    let res_bad_config = handle_pair(&state, &bearer("bad-token"), config.clone()).err().unwrap();
    assert_eq!(res_bad_config.status, 401);
    assert_eq!(value(&res_bad_config)["error"], "invalid_token");

    // 5. Attempt to configure pairing with correct token (should succeed)
    let commit = hand_over(
        &mut state,
        &token,
        config,
        request("lo"),
        parse_grub_entries("menuentry 'Ubuntu' {\n  echo 1\n}\n"),
    )
    .ok()
    .unwrap();
    assert_eq!(commit.reply.status, 200);
    assert!(value(&commit.reply)["success"].as_bool().unwrap());
    assert!(state.paired);
    assert!(state.setup_pin.is_none());
    assert_eq!(state.token, Some(token));
}

#[test]
fn a_paired_daemon_refuses_pins() {
    let config = config(Some("grub.cfg"));
    let mut state = start_server(&config, Some(waiting("654321"))).state;
    let token = handle_pair_verify(&mut state, &bearer("654321")).ok().unwrap();
    assert!(hand_over(&mut state, &token, config, request("lo"), Vec::new()).is_ok());
    let refusal = handle_pair_verify(&mut state, &bearer("654321")).err().unwrap();
    assert_eq!(refusal.status, 409);
    assert_eq!(value(&refusal)["error"], "already_paired");
    assert_eq!(
        value(&refusal)["hint"],
        "Run `grubstation reset-pin` on the host to generate a new pairing PIN."
    );
    assert_eq!(state.token, Some(token));
}

#[test]
fn a_pairing_outlives_a_restart() {
    let first = config(Some("grub.cfg"));
    let mut state = start_server(&first, Some(waiting("654321"))).state;
    let token = handle_pair_verify(&mut state, &bearer("654321")).ok().unwrap();
    let commit = hand_over(&mut state, &token, first.clone(), request("lo"), Vec::new());
    let again = start_server(&first, Some(commit.ok().unwrap().persisted));
    assert!(again.advertise_paired);
    assert!(again.state.paired);
    assert_eq!(again.state.token, Some(token));
    let sync = again.sync.unwrap();
    assert_eq!(sync.ha_url, "http://127.0.0.1:8123");
    assert_eq!(sync.webhook_id, "test-webhook-id");
    assert_eq!(sync.api_key, "test-api-key");
}

#[test]
fn bodies_that_cannot_be_used_are_answered() {
    let config = config(None);
    let state = DaemonState { paired: false, token: Some("t".to_string()), setup_pin: None };
    let next = handle_pair(&state, &bearer("t"), config.clone()).ok().unwrap();
    let reply = next.payload(Received::Unreadable { reason: "cut off".to_string() }).err().unwrap();
    assert_eq!(reply.status, 400);
    assert_eq!(value(&reply)["error"], "Failed to read request body: cut off");
    let next = handle_pair(&state, &bearer("t"), config).ok().unwrap();
    let reply = next.payload(Received::Malformed { reason: "no JSON".to_string() }).err().unwrap();
    assert_eq!(reply.status, 400);
    assert_eq!(value(&reply)["error"], "Invalid JSON payload: no JSON");
}

#[test]
fn an_interface_that_cannot_be_resolved_is_answered() {
    let state = DaemonState { paired: false, token: Some("t".to_string()), setup_pin: None };
    let next = handle_pair(&state, &bearer("t"), config(None)).ok().unwrap();
    let parsed = next.payload(Received::Parsed(request("wlan9"))).ok().unwrap();
    assert_eq!(parsed.interface(), "wlan9");
    let reply = parsed.resolved(details("wlan9")).err().unwrap();
    assert_eq!(reply.status, 400);
    assert_eq!(
        value(&reply)["error"],
        "Failed to resolve interface details: Interface 'wlan9' not found"
    );
}

#[test]
fn the_chosen_interface_is_taken_up() {
    let state = DaemonState { paired: false, token: Some("t".to_string()), setup_pin: None };
    let next = handle_pair(&state, &bearer("t"), config(None)).ok().unwrap();
    let parsed = next.payload(Received::Parsed(request("eth0"))).ok().unwrap();
    let resolved = parsed.resolved(details("eth0")).ok().unwrap();
    assert_eq!(resolved.changed_config().unwrap().host.interface, "eth0");
    assert_eq!(resolved.menu_file(&none_present()), None);
    assert_eq!(resolved.menu_file(&vec![false, true]).as_deref(), Some("/boot/grub2/grub.cfg"));

    let next = handle_pair(&state, &bearer("t"), config(Some("grub.cfg"))).ok().unwrap();
    let parsed = next.payload(Received::Parsed(request("lo"))).ok().unwrap();
    let resolved = parsed.resolved(details("lo")).ok().unwrap();
    assert!(resolved.changed_config().is_none());
    assert_eq!(resolved.menu_file(&none_present()).as_deref(), Some("grub.cfg"));

    let mut adopted = config(None);
    assert!(adopt_interface(&mut adopted, "eth0"));
    assert!(!adopt_interface(&mut adopted, "eth0"));
    assert_eq!(adopted.host.interface, "eth0");
    assert!(adopted.validate(false).is_ok());
}

#[test]
fn a_pairing_plans_the_script() {
    let state = DaemonState { paired: false, token: Some("t".to_string()), setup_pin: None };
    let next = handle_pair(&state, &bearer("t"), config(Some("grub.cfg"))).ok().unwrap();
    let parsed = next.payload(Received::Parsed(request("eth0"))).ok().unwrap();
    let resolved = parsed.resolved(details("eth0")).ok().unwrap();
    let prepared = resolved.menu(&none_present(), Vec::new());
    let plan = prepared.hook_plan().unwrap();
    assert_eq!(plan.grub.path, "grub.cfg");
    assert_eq!(plan.grub.network_wait, 10);
    assert_eq!(plan.grub.webhook_id, "test-webhook-id");
    assert_eq!(plan.boot_url, "http://127.0.0.1:8123/api/webhook/test-webhook-id");
    assert!(!plan.update_grub);
    assert_eq!(prepared.host_config().host.interface, "eth0");

    let next = handle_pair(&state, &bearer("t"), config(None)).ok().unwrap();
    let parsed = next.payload(Received::Parsed(request("eth0"))).ok().unwrap();
    let resolved = parsed.resolved(details("eth0")).ok().unwrap();
    assert!(resolved.menu(&none_present(), Vec::new()).hook_plan().is_none());
}

#[test]
fn a_script_that_cannot_be_installed_leaves_the_state_alone() {
    let mut state = DaemonState {
        paired: false,
        token: Some("t".to_string()),
        setup_pin: Some("123456".to_string()),
    };
    let next = handle_pair(&state, &bearer("t"), config(Some("grub.cfg"))).ok().unwrap();
    let parsed = next.payload(Received::Parsed(request("lo"))).ok().unwrap();
    let prepared = parsed.resolved(details("lo")).ok().unwrap().menu(&none_present(), Vec::new());
    let reply = prepared.finish(Err("read-only".to_string()), &mut state).err().unwrap();
    assert_eq!(reply.status, 500);
    assert_eq!(value(&reply)["error"], "Failed to apply GRUB configuration: read-only");
    assert!(!state.paired);
    assert_eq!(state.setup_pin.as_deref(), Some("123456"));
}

#[test]
fn pairing_by_hand_needs_a_boot_menu() {
    assert_eq!(menu_to_pair(&config(Some("grub.cfg")), &none_present()).ok().unwrap(), "grub.cfg");
    let error = menu_to_pair(&config(None), &none_present()).err().unwrap();
    assert_eq!(error.message(), "No GRUB configuration file found at default paths.");
}
