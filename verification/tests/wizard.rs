use grubstation::client::webhook_url;
use grubstation::command::CommandResult;
use grubstation::config::{Config, DaemonConfig, GrubConfig, HostConfig};
use grubstation::hook::{
    after_attempt, grub_url, hook_path, install_grub_hook, install_grub_hook_to_path,
    plan_pairing_hook, update_command, wait_list_text, Attempt, UpdateEnd, UpdateStep,
};
use grubstation::net::{resolve_interface_details, Address, Interface};
use grubstation::state_file::setup_state_text;
use grubstation::wizard::{
    check_write_permission, create_default_config, dump_text, get_json_dump, wait_on, wizard_init,
    Ancestor, Waiting, WriteProbe,
};

const TEMPLATE: &str = "set wait={{WAIT_TIME_SECONDS}}\nset boot_url=\"(http,{{HOST}})/api/\
                        grubstation/{{MAC_ADDRESS}}?token={{WEBHOOK_ID}}\"\nfor i in \
                        {{WAIT_LIST}}; do\ndone\n";

fn interface(name: &str, mac: Option<&str>, ip: &str) -> Interface {
    Interface {
        name: name.to_string(),
        mac_addr: mac.map(|mac| mac.to_string()),
        addresses: vec![Address { ip: ip.to_string(), is_ipv4: true }],
    }
}

fn interfaces() -> Vec<Interface> {
    vec![
        interface("lo", Some("00:00:00:00:00:00"), "127.0.0.1"),
        interface("eth0", Some("aa:bb"), "10.0.0.5"),
        interface("eth1", Some("cc:dd"), "10.0.0.6"),
    ]
}

fn there() -> Ancestor {
    Ancestor { is_empty: false, exists: true }
}

fn missing() -> Ancestor {
    Ancestor { is_empty: false, exists: false }
}

fn current() -> Ancestor {
    Ancestor { is_empty: true, exists: false }
}

fn ran(success: bool) -> CommandResult {
    CommandResult::Ran { success, status: "exit status: 1".to_string() }
}

fn not_run(not_found: bool) -> CommandResult {
    CommandResult::NotRun { reason: "why".to_string(), not_found }
}

fn grub_config() -> GrubConfig {
    GrubConfig {
        path: "Cargo.toml".to_string(),
        network_wait: 3,
        webhook_id: "test-webhook-123".to_string(),
    }
}

#[test]
fn test_check_write_permission_existing_file() {
    // dir/config.yaml is a file
    let probe = check_write_permission(true, false, &vec![there(), there()]);
    assert_eq!(probe, WriteProbe::Open);
}

#[test]
fn test_check_write_permission_non_existing_file() {
    // dir is there, dir/config.yaml is not
    let probe = check_write_permission(false, false, &vec![there(), there()]);
    assert_eq!(probe, WriteProbe::CreateIn(0));
}

#[test]
fn test_check_write_permission_nested_non_existing_file() {
    // dir is there, dir/nested/dir/config.yaml is not
    let probe = check_write_permission(false, false, &vec![missing(), missing(), there(), there()]);
    assert_eq!(probe, WriteProbe::CreateIn(2));
}

#[test]
fn test_check_write_permission_is_directory() {
    let probe = check_write_permission(true, true, &vec![there()]);
    assert_eq!(probe, WriteProbe::IsDirectory);
}

#[test]
fn a_bare_file_name_is_probed_in_the_current_directory() {
    assert_eq!(check_write_permission(false, false, &vec![current()]), WriteProbe::CreateHere);
    assert_eq!(
        check_write_permission(false, false, &vec![missing(), current()]),
        WriteProbe::CreateHere
    );
    assert_eq!(check_write_permission(false, false, &Vec::new()), WriteProbe::CreateHere);
    assert_eq!(check_write_permission(false, false, &vec![missing()]), WriteProbe::CreateIn(0));
    assert_eq!(
        check_write_permission(false, false, &vec![missing(), missing()]),
        WriteProbe::CreateIn(1)
    );
}

#[test]
fn test_install_grub_hook_to_path() {
    let found = resolve_interface_details(&interfaces(), "lo").ok().unwrap();
    let content =
        install_grub_hook_to_path(TEMPLATE, &found.mac, &found.address, &grub_config(), None);
    assert!(content.contains(&format!(
        "set boot_url=\"(http,{})/api/grubstation/{}?token=test-webhook-123\"",
        found.address, found.mac
    )));
    assert!(content.contains("for i in 1 2 3; do"));
    assert_eq!(
        content,
        "set wait=3\nset boot_url=\"(http,127.0.0.1)/api/grubstation/00:00:00:00:00:00?\
         token=test-webhook-123\"\nfor i in 1 2 3; do\ndone\n"
    );
}

#[test]
fn a_given_address_takes_the_place_of_the_own_one() {
    let content = install_grub_hook_to_path(
        TEMPLATE,
        "m",
        "a",
        &grub_config(),
        Some("http://ha:8123/api/webhook/x"),
    );
    assert!(content.contains("set boot_url=\"(http,ha:8123)/api/webhook/x\"\n"));
    assert_eq!(grub_url("https://ha/x/y"), "(http,ha)/x/y");
    assert_eq!(grub_url("http://http://https://ha"), "(http,ha)");
    assert_eq!(grub_url("ha"), "(http,ha)");
    assert_eq!(grub_url(""), "(http,)");
    assert_eq!(grub_url("/x"), "(http,)/x");
}

#[test]
fn grub_asks_the_webhook_of_any_scheme() {
    for base in ["http://ha:8123", "https://ha:8123", "https://ha:8123//"] {
        assert_eq!(grub_url(&webhook_url(base, "x")), "(http,ha:8123)/api/webhook/x");
    }
}

#[test]
fn seconds_are_counted_one_by_one() {
    assert_eq!(wait_list_text(0), "");
    assert_eq!(wait_list_text(1), "1");
    assert_eq!(wait_list_text(11), "1 2 3 4 5 6 7 8 9 10 11");
}

#[test]
fn the_environment_can_move_the_script() {
    assert_eq!(hook_path(None), "/etc/grub.d/99_grubstation");
    assert_eq!(hook_path(Some("/tmp/x".to_string())), "/tmp/x");
}

#[test]
fn grub_is_brought_up_to_date_on_linux_when_asked() {
    assert!(matches!(install_grub_hook(true, true), UpdateStep::Run(Attempt::UpdateGrub)));
    assert!(matches!(install_grub_hook(false, true), UpdateStep::End(UpdateEnd::Skipped)));
    assert!(matches!(install_grub_hook(true, false), UpdateStep::End(UpdateEnd::Skipped)));

    let command = update_command(Attempt::UpdateGrub, "p");
    assert_eq!((command.program.as_str(), command.args.len()), ("update-grub", 0));
    let command = update_command(Attempt::GrubMkconfig, "p");
    assert_eq!(command.program, "grub-mkconfig");
    assert_eq!(command.args, vec!["-o", "p"]);
    let command = update_command(Attempt::Grub2Mkconfig, "p");
    assert_eq!(command.program, "grub2-mkconfig");
}

#[test]
fn another_tool_is_tried_only_where_one_is_missing() {
    let step = after_attempt(Attempt::UpdateGrub, ran(true));
    assert!(matches!(step, UpdateStep::End(UpdateEnd::Updated)));
    let step = after_attempt(Attempt::GrubMkconfig, ran(false));
    assert!(matches!(
        step,
        UpdateStep::End(UpdateEnd::Failed { status }) if status == "exit status: 1"
    ));
    let step = after_attempt(Attempt::UpdateGrub, not_run(true));
    assert!(matches!(step, UpdateStep::Run(Attempt::GrubMkconfig)));
    let step = after_attempt(Attempt::GrubMkconfig, not_run(true));
    assert!(matches!(step, UpdateStep::Run(Attempt::Grub2Mkconfig)));
    let step = after_attempt(Attempt::Grub2Mkconfig, not_run(true));
    assert!(matches!(step, UpdateStep::End(UpdateEnd::NoTool)));
    let step = after_attempt(Attempt::Grub2Mkconfig, not_run(false));
    assert!(matches!(
        step,
        UpdateStep::Error { message } if message == "Failed to run grub2-mkconfig: why"
    ));
}

#[test]
fn a_script_without_a_configured_menu_uses_the_defaults() {
    let config = create_default_config(true, &interfaces(), false, &vec![true]).ok().unwrap();
    let plan = plan_pairing_hook(&config, &vec![false, true], "http://ha/", "w", true).unwrap();
    assert_eq!(plan.grub.path, "/boot/grub2/grub.cfg");
    assert_eq!(plan.grub.network_wait, 10);
    assert_eq!(plan.boot_url, "http://ha/api/webhook/w");
    assert!(plan.update_grub);
    assert!(plan_pairing_hook(&config, &vec![false, false], "http://ha/", "w", true).is_none());
}

#[test]
fn a_new_configuration_takes_the_first_real_interface() {
    let config = create_default_config(false, &interfaces(), true, &vec![false, true]).ok().unwrap();
    assert_eq!(config.host.interface, "eth0");
    assert_eq!(config.daemon.as_ref().unwrap().port, 8081);
    assert!(config.wake_on_lan.is_none());
    let grub = config.grub.as_ref().unwrap();
    assert_eq!(grub.path, "/boot/grub2/grub.cfg");
    assert_eq!(grub.network_wait, 10);
    assert_eq!(grub.webhook_id, "");
    assert!(config.validate(true).is_ok());

    let config = create_default_config(true, &interfaces(), false, &vec![true, true]).ok().unwrap();
    assert!(config.daemon.is_none());
    assert!(config.grub.is_none());

    let only_loopback = vec![interface("lo", Some("m"), "127.0.0.1")];
    let error = create_default_config(true, &only_loopback, true, &vec![true, true]).err().unwrap();
    assert_eq!(error.message(), "No active ethernet interfaces found.");
}

fn existing(port: Option<u16>) -> Config {
    Config {
        host: HostConfig { interface: "eth0".to_string() },
        daemon: port.map(|port| DaemonConfig { port }),
        wake_on_lan: None,
        grub: None,
        webhook_id: None,
        api_key: None,
        ha_daemon_url: None,
        ha_grub_url: None,
    }
}

#[test]
fn setting_up_writes_the_configuration_and_a_pin() {
    let plan = wizard_init(existing(Some(9000)), false).ok().unwrap();
    assert_eq!(plan.config.daemon.as_ref().unwrap().port, 9000);
    assert!(plan.config.validate(false).is_ok());
    assert_eq!(plan.config_text, "host:\n  interface: eth0\ndaemon:\n  port: 9000\n");
    assert_eq!(plan.setup_pin.len(), 6);
    assert!(plan.setup_pin.chars().all(|c| c.is_ascii_digit()));
    assert_eq!(plan.state_text, setup_state_text(&plan.setup_pin));

    let plan = wizard_init(existing(None), false).ok().unwrap();
    assert_eq!(plan.config_text, "host:\n  interface: eth0\ndaemon:\n  port: 8081\n");
    let plan = wizard_init(plan.config, false).ok().unwrap();
    assert_eq!(plan.config_text, "host:\n  interface: eth0\ndaemon:\n  port: 8081\n");
    let plan = wizard_init(existing(Some(9000)), true).ok().unwrap();
    assert_eq!(plan.config_text, "host:\n  interface: eth0\n");
}

#[test]
fn a_host_waits_five_minutes() {
    assert_eq!(wait_on(0, false), Waiting::Wait);
    assert_eq!(wait_on(299_999, false), Waiting::Wait);
    assert_eq!(wait_on(300_000, false), Waiting::TimedOut);
    assert_eq!(wait_on(299_999, true), Waiting::Cancelled);
    assert_eq!(wait_on(300_001, true), Waiting::TimedOut);
}

#[test]
fn the_dump_describes_the_host() {
    let dump = get_json_dump("aa:bb", "10.0.0.5", "box", "Debian", &vec!["Ubuntu".to_string()]);
    assert_eq!(dump.len(), 5);
    assert_eq!(dump["mac"], "aa:bb");
    assert_eq!(dump["address"], "10.0.0.5");
    assert_eq!(dump["hostname"], "box");
    assert_eq!(dump["os"], "Debian");
    assert_eq!(dump["boot_options"][0], "Ubuntu");
    let text = dump_text("aa:bb", "10.0.0.5", "box", "Debian", &vec!["Ubuntu".to_string()]);
    assert_eq!(
        text,
        "{\n  \"address\": \"10.0.0.5\",\n  \"boot_options\": [\n    \"Ubuntu\"\n  ],\n  \
         \"hostname\": \"box\",\n  \"mac\": \"aa:bb\",\n  \"os\": \"Debian\"\n}"
    );
}
