use grubstation::command::CommandResult;
use grubstation::config::{Config, DaemonConfig, HostConfig};
use grubstation::mdns::{advertise_pairing, local_name, start_advertisement};
use grubstation::os::get_os_name;
use grubstation::secret::{generate_pin, generate_token, pin_text};
use grubstation::service::{install_and_start_service, install_shutdown_hook, Platform, ServicePlan};
use grubstation::shutdown::{trigger_shutdown, way_command, ShutdownRun, ShutdownStep, Way};

fn lines(plan: &ServicePlan) -> Vec<String> {
    plan.steps
        .iter()
        .map(|step| format!("{} {}", step.command.program, step.command.args.join(" ")))
        .collect()
}

fn ran(success: bool, status: &str) -> CommandResult {
    CommandResult::Ran { success, status: status.to_string() }
}

fn not_run(reason: &str) -> CommandResult {
    CommandResult::NotRun { reason: reason.to_string(), not_found: true }
}

fn next(step: ShutdownStep) -> ShutdownRun {
    match step {
        ShutdownStep::Next(run) => run,
        _ => panic!("no next way"),
    }
}

#[test]
fn the_release_file_names_the_system() {
    let release = "NAME=\"Ubuntu\"\nPRETTY_NAME=\"Ubuntu 24.04 LTS\"\nPRETTY_NAME=\"Other\"\n";
    assert_eq!(get_os_name(Some(release), "linux"), "Ubuntu 24.04 LTS");
    assert_eq!(get_os_name(Some("PRETTY_NAME=Arch\r\n"), "linux"), "Arch");
    assert_eq!(get_os_name(Some("PRETTY_NAME=\"\"\"\""), "linux"), "");
    assert_eq!(get_os_name(Some(" PRETTY_NAME=x\nNAME=y"), "linux"), "linux");
    assert_eq!(get_os_name(Some(""), "linux"), "linux");
    assert_eq!(get_os_name(None, "windows"), "windows");
}

#[test]
fn the_network_is_told_of_the_daemon() {
    let config = Config {
        host: HostConfig { interface: "eth0".to_string() },
        daemon: Some(DaemonConfig { port: 9000 }),
        wake_on_lan: None,
        grub: None,
        webhook_id: None,
        api_key: None,
        ha_daemon_url: None,
        ha_grub_url: None,
    };
    let told = start_advertisement(&config, "10.0.0.5", "box");
    assert_eq!(told.service_type, "_grubstation._tcp.local.");
    assert_eq!(told.instance, "10.0.0.5");
    assert_eq!(told.host_name, "box.local.");
    assert_eq!(told.address, "10.0.0.5");
    assert_eq!(told.port, 9000);
    assert_eq!((told.property.as_str(), told.value.as_str()), ("paired", "false"));

    let told = advertise_pairing("10.0.0.5", &local_name("box"), 9000, true);
    assert_eq!(told.service_type, "_grubstation._tcp.local.");
    assert_eq!(told.instance, "10.0.0.5");
    assert_eq!(told.host_name, "box.local.");
    assert_eq!(told.address, "");
    assert_eq!(told.port, 9000);
    assert_eq!((told.property.as_str(), told.value.as_str()), ("paired", "true"));
    assert_eq!(advertise_pairing("i", "h", 1, false).value, "false");
}

#[test]
fn the_service_is_installed_on_linux() {
    let template = "ExecStart={{EXE_PATH}} --config {{CONFIG_PATH}} run\n";
    let plan = install_and_start_service(Platform::Linux, template, "/bin/g", "/etc/c").ok().unwrap();
    let unit = plan.unit.as_ref().unwrap();
    assert_eq!(unit.path, "/etc/systemd/system/grubstation.service");
    assert_eq!(unit.content, "ExecStart=/bin/g --config /etc/c run\n");
    assert_eq!(
        lines(&plan),
        vec![
            "systemctl daemon-reload",
            "systemctl enable grubstation.service",
            "systemctl start grubstation.service",
        ]
    );
    assert!(plan.steps[0].outcome(true).is_ok());
    assert_eq!(plan.steps[0].outcome(false), Err("systemctl daemon-reload failed".to_string()));
    assert_eq!(plan.steps[1].failure, "Failed to enable grubstation service");
    assert_eq!(plan.steps[2].failure, "Failed to start grubstation service");
}

#[test]
fn the_service_is_installed_on_windows() {
    let plan = install_and_start_service(Platform::Windows, "", "C:\\g.exe", "C:\\c").ok().unwrap();
    assert!(plan.unit.is_none());
    assert_eq!(
        lines(&plan),
        vec![
            "sc create grubstation binPath= \"C:\\g.exe\" --config \"C:\\c\" run start= auto",
            "sc start grubstation",
        ]
    );
    assert_eq!(plan.steps[0].command.args.len(), 4);
    assert_eq!(plan.steps[0].failure, "Failed to create Windows service");
    assert_eq!(plan.steps[1].failure, "Failed to start Windows service");
}

#[test]
fn other_systems_have_no_service() {
    assert_eq!(
        install_and_start_service(Platform::Other, "", "e", "c").err().unwrap(),
        "Unsupported platform for service installation"
    );
    for platform in [Platform::Windows, Platform::Other] {
        assert_eq!(
            install_shutdown_hook(platform, "", "e", "c").err().unwrap(),
            "Shutdown hooks are only supported on Linux via systemd"
        );
    }
}

#[test]
fn the_shutdown_hook_is_enabled_and_not_started() {
    let plan = install_shutdown_hook(Platform::Linux, "{{EXE_PATH}}{{EXE_PATH}}", "e", "c").ok().unwrap();
    let unit = plan.unit.as_ref().unwrap();
    assert_eq!(unit.path, "/etc/systemd/system/grubstation-shutdown.service");
    assert_eq!(unit.content, "ee");
    assert_eq!(
        lines(&plan),
        vec!["systemctl daemon-reload", "systemctl enable grubstation-shutdown.service"]
    );
    assert_eq!(plan.steps[1].failure, "Failed to enable grubstation-shutdown service");
}

#[test]
fn every_way_to_shut_down_is_tried() {
    let run = trigger_shutdown(false);
    assert_eq!(run.way, Way::Shutdown);
    let run = next(run.report(ran(false, "exit status: 1")));
    assert_eq!(run.way, Way::Poweroff);
    let run = next(run.report(not_run("none")));
    assert_eq!(run.way, Way::Systemctl);
    let run = next(run.report(ran(false, "exit status: 5")));
    assert_eq!(run.way, Way::Init);
    match run.report(not_run("no init")) {
        ShutdownStep::Failed(notes) => assert_eq!(
            notes,
            vec![
                "shutdown -h now exited with status: exit status: 1",
                "failed to run poweroff: none",
                "systemctl poweroff exited with status: exit status: 5",
                "failed to run init: no init",
            ]
        ),
        _ => panic!("there is no other way"),
    }
    assert!(matches!(trigger_shutdown(false).report(ran(true, "")), ShutdownStep::Done));
}

#[test]
fn on_windows_it_is_enough_that_the_command_ran() {
    let run = trigger_shutdown(true);
    assert_eq!(run.way, Way::Windows);
    assert!(matches!(trigger_shutdown(true).report(ran(false, "1")), ShutdownStep::Done));
    let run = next(run.report(not_run("missing")));
    assert_eq!(run.way, Way::WindowsForced);
    match run.report(not_run("still missing")) {
        ShutdownStep::Failed(notes) => assert_eq!(notes, vec!["missing", "still missing"]),
        _ => panic!("there is no other way"),
    }
}

#[test]
fn every_way_has_its_command() {
    let line = |way: Way| {
        let command = way_command(way);
        format!("{} {}", command.program, command.args.join(" "))
    };
    assert_eq!(line(Way::Windows), "shutdown /s /t 0");
    assert_eq!(line(Way::WindowsForced), "shutdown /s /f /t 0");
    assert_eq!(line(Way::Shutdown), "shutdown -h now");
    assert_eq!(line(Way::Poweroff), "poweroff ");
    assert_eq!(line(Way::Systemctl), "systemctl poweroff");
    assert_eq!(line(Way::Init), "init 0");
}

#[test]
fn pins_have_six_digits() {
    assert_eq!(pin_text(0), "000000");
    assert_eq!(pin_text(42), "000042");
    assert_eq!(pin_text(999_999), "999999");
    assert_eq!(pin_text(1_234_567), "1234567");
    let mut seen: Vec<String> = Vec::new();
    for _ in 0..50 {
        let pin = generate_pin();
        assert_eq!(pin.len(), 6);
        assert!(pin.chars().all(|c| c.is_ascii_digit()));
        seen.push(pin);
    }
    seen.sort();
    seen.dedup();
    assert!(seen.len() > 1);
}

#[test]
fn tokens_are_random_letters_and_digits() {
    let token = generate_token();
    assert_eq!(token.len(), 32);
    assert!(token.chars().all(|c| c.is_ascii_alphanumeric()));
    assert_ne!(token, generate_token());
}
