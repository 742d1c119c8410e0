use grubstation::client::PushError;
use grubstation::config::{Config, HostConfig};
use grubstation::daemon::{
    after_failed_sync, handle_interfaces, handle_pair_verify, handle_shutdown, handle_status,
    handle_unpair, interfaces_reply, start_server, DaemonState, PersistedState,
};
use grubstation::net::{resolve_interface_details, Address, Interface};
use grubstation::reply::{not_found_reply, send_json_response, Reply};
use grubstation::request::{get_bearer_token, handle_request, Header, Route};

fn value(reply: &Reply) -> serde_json::Value {
    serde_json::from_str(&send_json_response(reply).body).unwrap()
}

fn header(field: &str, value: &str) -> Header {
    Header { field: field.to_string(), value: value.to_string() }
}

fn bearer(token: &str) -> Vec<Header> {
    vec![header("Authorization", &format!("Bearer {}", token))]
}

fn paired() -> DaemonState {
    DaemonState { paired: true, token: Some("secret".to_string()), setup_pin: None }
}

fn plain_config() -> Config {
    Config {
        host: HostConfig { interface: "lo".to_string() },
        daemon: None,
        wake_on_lan: None,
        grub: None,
        webhook_id: None,
        api_key: None,
        ha_daemon_url: None,
        ha_grub_url: None,
    }
}

fn interface(name: &str, mac: Option<&str>, ips: &[(&str, bool)]) -> Interface {
    Interface {
        name: name.to_string(),
        mac_addr: mac.map(|mac| mac.to_string()),
        addresses: ips
            .iter()
            .map(|(ip, v4)| Address { ip: ip.to_string(), is_ipv4: *v4 })
            .collect(),
    }
}

#[test]
fn tokens_are_read_from_the_authorization_header() {
    assert_eq!(get_bearer_token(&Vec::new()), None);
    assert_eq!(get_bearer_token(&bearer("abc")).as_deref(), Some("abc"));
    assert_eq!(get_bearer_token(&bearer("  abc \t")).as_deref(), Some("abc"));
    assert_eq!(get_bearer_token(&vec![header("AUTHORIZATION", "bEaReR x")]).as_deref(), Some("x"));
    assert_eq!(get_bearer_token(&vec![header("Authorization", "Bearer ")]).as_deref(), Some(""));
    assert_eq!(get_bearer_token(&vec![header("Authorization", "Bearer")]), None);
    assert_eq!(get_bearer_token(&vec![header("Authorization", "Basic abcdefg")]), None);
    assert_eq!(get_bearer_token(&vec![header("X-Authorization", "Bearer x")]), None);
    let headers = vec![
        header("Host", "h"),
        header("Authorization", "Basic y"),
        header("authorization", "Bearer first"),
        header("authorization", "Bearer second"),
    ];
    assert_eq!(get_bearer_token(&headers).as_deref(), Some("first"));
}

#[test]
fn requests_are_told_apart() {
    assert_eq!(handle_request("GET", "/status"), Route::Status);
    assert_eq!(handle_request("GET", "/interfaces"), Route::Interfaces);
    assert_eq!(handle_request("POST", "/pair/verify"), Route::PairVerify);
    assert_eq!(handle_request("POST", "/pair"), Route::Pair);
    assert_eq!(handle_request("POST", "/update"), Route::Update);
    assert_eq!(handle_request("POST", "/unpair"), Route::Unpair);
    assert_eq!(handle_request("POST", "/shutdown"), Route::Shutdown);
    assert_eq!(handle_request("POST", "/status"), Route::Unknown);
    assert_eq!(handle_request("GET", "/pair"), Route::Unknown);
    assert_eq!(handle_request("GET", "/status?x"), Route::Unknown);
    let reply = not_found_reply();
    assert_eq!(reply.status, 404);
    assert_eq!(value(&reply)["error"], "Not Found");
}

#[test]
fn answers_go_out_as_json() {
    let response = send_json_response(&not_found_reply());
    assert_eq!(response.status, 404);
    assert_eq!(response.content_type, "application/json");
    assert_eq!(response.body, "{\"error\":\"Not Found\"}");
    assert_eq!(send_json_response(&interfaces_reply(&Vec::new())).body, "[]");
}

#[test]
fn the_status_is_told_to_everyone() {
    let reply = handle_status(&paired(), "Debian", "1.2.3");
    assert_eq!(reply.status, 200);
    assert_eq!(
        send_json_response(&reply).body,
        "{\"os\":\"Debian\",\"paired\":true,\"version\":\"1.2.3\"}"
    );
}

#[test]
fn interfaces_need_the_token_or_the_pin() {
    let state = DaemonState {
        paired: false,
        token: Some("secret".to_string()),
        setup_pin: Some("123456".to_string()),
    };
    assert!(handle_interfaces(&state, &bearer("secret")).is_ok());
    assert!(handle_interfaces(&state, &bearer("123456")).is_ok());
    for headers in [Vec::new(), bearer("other"), bearer("")] {
        let reply = handle_interfaces(&state, &headers).err().unwrap();
        assert_eq!(reply.status, 401);
        assert_eq!(value(&reply)["error"], "invalid_token");
    }
}

#[test]
fn only_real_interfaces_are_offered() {
    let all = vec![
        interface("lo", Some("m"), &[("127.0.0.1", true)]),
        interface("docker0", Some("m"), &[("172.17.0.1", true)]),
        interface(
            "eth0",
            Some("aa:bb"),
            &[("fe80::1", false), ("10.0.0.5", true), ("10.0.0.6", true)],
        ),
        interface("eth1", None, &[("10.0.0.7", true)]),
        interface("eth2", Some("cc:dd"), &[("fe80::2", false)]),
        interface("wlan0", Some("ee:ff"), &[("10.0.0.8", true)]),
    ];
    assert_eq!(
        send_json_response(&interfaces_reply(&all)).body,
        "[{\"ip_address\":\"10.0.0.5\",\"ip_addresses\":[\"10.0.0.5\",\"10.0.0.6\"],\
         \"mac_address\":\"aa:bb\",\"name\":\"eth0\"},{\"ip_address\":\"10.0.0.8\",\
         \"ip_addresses\":[\"10.0.0.8\"],\"mac_address\":\"ee:ff\",\"name\":\"wlan0\"}]"
    );
    let list = value(&interfaces_reply(&all));
    let list = list.as_array().unwrap();
    assert_eq!(list.len(), 2);
    assert_eq!(list[0]["name"], "eth0");
    assert_eq!(list[0]["mac_address"], "aa:bb");
    assert_eq!(list[0]["ip_address"], "10.0.0.5");
    assert_eq!(list[0]["ip_addresses"].as_array().unwrap().len(), 2);
    assert_eq!(list[0]["ip_addresses"][1], "10.0.0.6");
    assert_eq!(list[1]["name"], "wlan0");

    // What is offered can be chosen.
    for told in list {
        let name = told["name"].as_str().unwrap();
        let found = resolve_interface_details(&all, name).ok().unwrap();
        assert_eq!(told["mac_address"], found.mac);
        assert_eq!(told["ip_address"], found.address);
    }
}

#[test]
fn a_new_token_takes_the_place_of_the_old_one() {
    let mut state = DaemonState {
        paired: false,
        token: Some("old".to_string()),
        setup_pin: Some("123456".to_string()),
    };
    let token = handle_pair_verify(&mut state, &bearer("123456")).ok().unwrap();
    assert_eq!(token.len(), 32);
    assert!(token.chars().all(|c| c.is_ascii_alphanumeric()));
    assert_eq!(state.token.as_deref(), Some(token.as_str()));
    assert!(handle_interfaces(&state, &bearer("old")).is_err());
    let other = handle_pair_verify(&mut state, &bearer("123456")).ok().unwrap();
    assert_ne!(token, other);
}

#[test]
fn a_token_is_no_pairing() {
    let state = DaemonState { paired: false, token: Some("secret".to_string()), setup_pin: None };
    let reply = handle_shutdown(&state, &bearer("secret")).err().unwrap();
    assert_eq!(reply.status, 401);
    assert_eq!(value(&reply)["error"], "Unauthorized");
}

#[test]
fn a_pairing_can_shut_the_host_down() {
    let reply = handle_shutdown(&paired(), &bearer("secret")).ok().unwrap();
    assert_eq!(reply.status, 200);
    assert_eq!(value(&reply)["success"], true);
    assert_eq!(value(&reply)["message"], "Shutting down...");
    assert_eq!(handle_shutdown(&paired(), &bearer("wrong")).err().unwrap().status, 401);
    assert_eq!(handle_shutdown(&paired(), &Vec::new()).err().unwrap().status, 401);
}

#[test]
fn a_pairing_can_be_ended_once() {
    let mut state = paired();
    let reply = handle_unpair(&mut state, &bearer("wrong")).err().unwrap();
    assert_eq!(reply.status, 401);
    assert_eq!(value(&reply)["error"], "Unauthorized");
    assert!(state.paired);

    let reply = handle_unpair(&mut state, &bearer("secret")).ok().unwrap();
    assert_eq!(reply.status, 200);
    assert_eq!(value(&reply)["success"], true);
    assert!(!state.paired);
    assert!(state.token.is_none());

    let reply = handle_unpair(&mut state, &bearer("secret")).err().unwrap();
    assert_eq!(reply.status, 400);
    assert_eq!(value(&reply)["error"], "Not paired");
    assert_eq!(handle_pair_verify(&mut state, &bearer("123456")).err().unwrap().status, 401);
}

#[test]
fn a_daemon_without_a_state_file_knows_nothing() {
    let startup = start_server(&plain_config(), None);
    assert_eq!(startup.port, 8081);
    assert!(!startup.state.paired);
    assert!(startup.state.token.is_none());
    assert!(startup.state.setup_pin.is_none());
    assert!(!startup.advertise_paired);
    assert!(startup.sync.is_none());
}

#[test]
fn a_startup_sync_needs_a_webhook_and_an_address() {
    let kept = |paired: bool, webhook: Option<&str>, url: Option<&str>| PersistedState {
        paired,
        token: Some("t".to_string()),
        setup_pin: None,
        webhook_id: webhook.map(|id| id.to_string()),
        api_key: None,
        ha_url: url.map(|url| url.to_string()),
    };
    let sync = start_server(&plain_config(), Some(kept(true, Some("w"), Some("u")))).sync.unwrap();
    assert_eq!((sync.webhook_id.as_str(), sync.ha_url.as_str()), ("w", "u"));
    assert_eq!(sync.api_key, "");
    assert!(start_server(&plain_config(), Some(kept(false, Some("w"), Some("u")))).sync.is_none());
    assert!(start_server(&plain_config(), Some(kept(true, None, Some("u")))).sync.is_none());
    assert!(start_server(&plain_config(), Some(kept(true, Some("w"), None))).sync.is_none());
}

#[test]
fn an_unknown_webhook_ends_the_pairing() {
    let mut state = paired();
    assert!(!after_failed_sync(&mut state, &PushError::Unexpected { status: 304 }));
    assert!(state.paired);
    assert!(after_failed_sync(&mut state, &PushError::Unregistered));
    assert!(!state.paired);
    assert!(state.token.is_none());
}
