use grubstation::config::{Config, GrubConfig, HostConfig};
use grubstation::daemon::{DaemonState, PersistedState};
use grubstation::pairing::Received;
use grubstation::reply::{send_json_response, Reply};
use grubstation::request::Header;
use grubstation::update::{handle_update, UpdateParsed, UpdateRequest};

fn value(reply: &Reply) -> serde_json::Value {
    serde_json::from_str(&send_json_response(reply).body).unwrap()
}

fn bearer(token: &str) -> Vec<Header> {
    vec![Header { field: "Authorization".to_string(), value: format!("Bearer {}", token) }]
}

fn paired() -> DaemonState {
    DaemonState { paired: true, token: Some("secret".to_string()), setup_pin: None }
}

fn kept() -> PersistedState {
    PersistedState {
        paired: true,
        token: Some("secret".to_string()),
        setup_pin: None,
        webhook_id: Some("hook".to_string()),
        api_key: Some("key".to_string()),
        ha_url: Some("http://old".to_string()),
    }
}

fn config(grub: bool) -> Config {
    Config {
        host: HostConfig { interface: "lo".to_string() },
        daemon: None,
        wake_on_lan: None,
        grub: if grub {
            Some(GrubConfig {
                path: "grub.cfg".to_string(),
                network_wait: 7,
                webhook_id: "own".to_string(),
            })
        } else {
            None
        },
        webhook_id: None,
        api_key: None,
        ha_daemon_url: None,
        ha_grub_url: None,
    }
}

fn parsed(url: Option<&str>, update_grub: bool) -> UpdateParsed {
    let request = UpdateRequest { ha_url: url.map(|url| url.to_string()), update_grub };
    handle_update(&paired(), &bearer("secret"))
        .ok()
        .unwrap()
        .payload(Received::Parsed(request))
        .ok()
        .unwrap()
}

#[test]
fn a_change_needs_the_token_of_a_pairing() {
    assert!(handle_update(&paired(), &bearer("secret")).is_ok());
    let unpaired = DaemonState { paired: false, ..paired() };
    for (state, token) in [(paired(), "wrong"), (unpaired, "secret")] {
        let reply = handle_update(&state, &bearer(token)).err().unwrap();
        assert_eq!(reply.status, 401);
        assert_eq!(value(&reply)["error"], "Unauthorized");
    }
    assert_eq!(handle_update(&paired(), &Vec::new()).err().unwrap().status, 401);
}

#[test]
fn a_change_with_a_bad_body_is_answered() {
    let start = handle_update(&paired(), &bearer("secret")).ok().unwrap();
    let reply = start.payload(Received::Malformed { reason: "EOF".to_string() }).err().unwrap();
    assert_eq!(reply.status, 400);
    assert_eq!(value(&reply)["error"], "Invalid JSON payload: EOF");
}

#[test]
fn a_new_address_is_kept_and_asked() {
    let planned = parsed(Some("http://new/"), true).stored(Some(kept()), &config(true)).ok().unwrap();
    let plan = planned.hook_plan().unwrap();
    assert_eq!(plan.boot_url, "http://new/api/webhook/hook");
    assert_eq!(plan.grub.webhook_id, "own");
    assert_eq!(plan.grub.network_wait, 7);
    assert!(plan.update_grub);
    let commit = planned.finish(Ok(())).ok().unwrap();
    assert_eq!(commit.persisted.ha_url.as_deref(), Some("http://new/"));
    assert_eq!(commit.persisted.webhook_id.as_deref(), Some("hook"));
    assert_eq!(commit.persisted.token.as_deref(), Some("secret"));
    assert!(commit.persisted.paired);
    assert_eq!(commit.reply.status, 200);
    assert_eq!(value(&commit.reply)["success"], true);
    let sync = commit.sync.unwrap();
    assert_eq!(sync.ha_url, "http://new/");
    assert_eq!(sync.webhook_id, "hook");
    assert_eq!(sync.api_key, "key");
}

#[test]
fn without_an_address_the_old_one_stays() {
    let planned = parsed(None, false).stored(Some(kept()), &config(true)).ok().unwrap();
    assert!(planned.hook_plan().is_none());
    let commit = planned.finish(Ok(())).ok().unwrap();
    assert_eq!(commit.persisted.ha_url.as_deref(), Some("http://old"));
}

#[test]
fn a_change_without_webhook_or_key_sends_nothing() {
    let before = PersistedState { webhook_id: None, ..kept() };
    let planned = parsed(Some("http://new"), true).stored(Some(before), &config(true)).ok().unwrap();
    assert_eq!(planned.hook_plan().unwrap().boot_url, "");
    assert!(planned.finish(Ok(())).ok().unwrap().sync.is_none());

    let before = PersistedState { api_key: None, ha_url: None, ..kept() };
    let planned = parsed(None, true).stored(Some(before), &config(false)).ok().unwrap();
    assert!(planned.hook_plan().is_none());
    let commit = planned.finish(Ok(())).ok().unwrap();
    assert!(commit.sync.is_none());
    assert_eq!(commit.persisted.ha_url.as_deref(), Some(""));
}

#[test]
fn a_change_that_fails_is_answered() {
    let reply = parsed(None, false).stored(None, &config(true)).err().unwrap();
    assert_eq!(reply.status, 500);
    assert_eq!(value(&reply)["error"], "Failed to read state");

    let planned = parsed(None, true).stored(Some(kept()), &config(true)).ok().unwrap();
    let reply = planned.finish(Err("denied".to_string())).err().unwrap();
    assert_eq!(reply.status, 500);
    assert_eq!(value(&reply)["error"], "Failed to apply GRUB configuration: denied");
}
