//! The daemon as a service of the system.

use vstd::prelude::*;

use crate::command::{command, words1, words2, words4, Command};
use crate::text::{concat, concat3, replace, replaced};

verus! {

pub const SERVICE_UNIT_PATH: &'static str = "/etc/systemd/system/grubstation.service";

pub const SHUTDOWN_UNIT_PATH: &'static str = "/etc/systemd/system/grubstation-shutdown.service";

/// The kind of operating system.
#[derive(Clone, Copy, Debug, PartialEq, Eq, Structural)]
pub enum Platform {
    Linux,
    Windows,
    Other,
}

/// A file of the service manager.
pub struct UnitFile {
    pub path: String,
    pub content: String,
}

/// A command, and what its failure means.
pub struct Step {
    pub command: Command,
    pub failure: String,
}

/// How a service is installed: the file is written, then the commands run, one
/// after another, up to the first that fails.
pub struct ServicePlan {
    pub unit: Option<UnitFile>,
    pub steps: Vec<Step>,
}

/// The text of a unit file: the template with its marks filled in.
pub open spec fn unit_text(template: Seq<char>, exe: Seq<char>, config: Seq<char>) -> Seq<char> {
    replaced(replaced(template, "{{EXE_PATH}}"@, exe), "{{CONFIG_PATH}}"@, config)
}

impl Step {
    /// Whether this step runs `program` with `args`, and `failure` tells that it failed.
    pub open spec fn is(
        &self,
        program: Seq<char>,
        args: Seq<Seq<char>>,
        failure: Seq<char>,
    ) -> bool {
        self.command.is(program, args) && self.failure@ == failure
    }

    /// What it means that the command has ended.
    pub fn outcome(&self, success: bool) -> (r: Result<(), String>)
        ensures
            match r {
                Ok(()) => success,
                Err(message) => !success && message@ == self.failure@,
            },
    {
        if success {
            Ok(())
        } else {
            Err(self.failure.clone())
        }
    }
}

impl ServicePlan {
    /// Whether the plan writes this unit file.
    pub open spec fn writes(&self, path: Seq<char>, content: Seq<char>) -> bool {
        self.unit matches Some(unit) && unit.path@ == path && unit.content@ == content
    }
}

/// The command line of the service on Windows.
pub open spec fn windows_command_line(exe: Seq<char>, config: Seq<char>) -> Seq<char> {
    "binPath= \""@ + exe + "\" --config \""@ + config + "\" run"@
}

fn step(program: &str, args: Vec<String>, failure: &str) -> (r: Step)
    ensures
        r.is(program@, args.deep_view(), failure@),
{
    Step { command: command(program, args), failure: failure.to_string() }
}

/// Whether the daemon is installed and started as a service in this way.
pub open spec fn starts_service(
    platform: Platform,
    template: Seq<char>,
    exe_path: Seq<char>,
    config_path: Seq<char>,
    r: Result<ServicePlan, String>,
) -> bool {
    match platform {
        Platform::Linux => {
            &&& r matches Ok(plan)
            &&& plan.writes(
                SERVICE_UNIT_PATH@,
                unit_text(template, exe_path, config_path),
            )
            &&& plan.steps@.len() == 3
            &&& plan.steps@[0].is(
                "systemctl"@,
                seq!["daemon-reload"@],
                "systemctl daemon-reload failed"@,
            )
            &&& plan.steps@[1].is(
                "systemctl"@,
                seq!["enable"@, "grubstation.service"@],
                "Failed to enable grubstation service"@,
            )
            &&& plan.steps@[2].is(
                "systemctl"@,
                seq!["start"@, "grubstation.service"@],
                "Failed to start grubstation service"@,
            )
        },
        Platform::Windows => {
            &&& r matches Ok(plan)
            &&& plan.unit is None
            &&& plan.steps@.len() == 2
            &&& plan.steps@[0].is(
                "sc"@,
                seq![
                    "create"@,
                    "grubstation"@,
                    windows_command_line(exe_path, config_path),
                    "start= auto"@,
                ],
                "Failed to create Windows service"@,
            )
            &&& plan.steps@[1].is(
                "sc"@,
                seq!["start"@, "grubstation"@],
                "Failed to start Windows service"@,
            )
        },
        Platform::Other => r matches Err(message) && message@
            == "Unsupported platform for service installation"@,
    }
}

/// How the daemon is installed and started as a service, from the template of
/// its unit file, its program and its configuration file.
pub fn install_and_start_service(
    platform: Platform,
    template: &str,
    exe_path: &str,
    config_path: &str,
) -> (r: Result<ServicePlan, String>)
    ensures
        starts_service(platform, template@, exe_path@, config_path@, r),
{
    match platform {
        Platform::Linux => {
            let content = fill_unit(template, exe_path, config_path);
            let mut steps: Vec<Step> = Vec::new();
            steps.push(
                step("systemctl", words1("daemon-reload"), "systemctl daemon-reload failed"),
            );
            steps.push(
                step(
                    "systemctl",
                    words2("enable", "grubstation.service"),
                    "Failed to enable grubstation service",
                ),
            );
            steps.push(
                step(
                    "systemctl",
                    words2("start", "grubstation.service"),
                    "Failed to start grubstation service",
                ),
            );
            Ok(
                ServicePlan {
                    unit: Some(UnitFile { path: SERVICE_UNIT_PATH.to_string(), content }),
                    steps,
                },
            )
        },
        Platform::Windows => {
            let line = concat3(
                concat("binPath= \"", exe_path).as_str(),
                concat("\" --config \"", config_path).as_str(),
                "\" run",
            );
            assert(line@ =~= windows_command_line(exe_path@, config_path@));
            let mut steps: Vec<Step> = Vec::new();
            steps.push(
                step(
                    "sc",
                    words4("create", "grubstation", line.as_str(), "start= auto"),
                    "Failed to create Windows service",
                ),
            );
            steps.push(
                step("sc", words2("start", "grubstation"), "Failed to start Windows service"),
            );
            Ok(ServicePlan { unit: None, steps })
        },
        Platform::Other => Err("Unsupported platform for service installation".to_string()),
    }
}

/// The text of a unit file.
fn fill_unit(template: &str, exe_path: &str, config_path: &str) -> (r: String)
    ensures
        r@ == unit_text(template@, exe_path@, config_path@),
{
    let with_exe = replace(template, "{{EXE_PATH}}", exe_path);
    replace(with_exe.as_str(), "{{CONFIG_PATH}}", config_path)
}

/// Whether the program is made to run in this way when the host shuts down.
pub open spec fn hooks_shutdown(
    platform: Platform,
    template: Seq<char>,
    exe_path: Seq<char>,
    config_path: Seq<char>,
    r: Result<ServicePlan, String>,
) -> bool {
    match platform {
        Platform::Linux => {
            &&& r matches Ok(plan)
            &&& plan.writes(
                SHUTDOWN_UNIT_PATH@,
                unit_text(template, exe_path, config_path),
            )
            &&& plan.steps@.len() == 2
            &&& plan.steps@[0].is(
                "systemctl"@,
                seq!["daemon-reload"@],
                "systemctl daemon-reload failed"@,
            )
            &&& plan.steps@[1].is(
                "systemctl"@,
                seq!["enable"@, "grubstation-shutdown.service"@],
                "Failed to enable grubstation-shutdown service"@,
            )
        },
        _ => r matches Err(message) && message@
            == "Shutdown hooks are only supported on Linux via systemd"@,
    }
}

/// How the program is made to run when the host shuts down, from the template
/// of its unit file, the program and its configuration file.
pub fn install_shutdown_hook(
    platform: Platform,
    template: &str,
    exe_path: &str,
    config_path: &str,
) -> (r: Result<ServicePlan, String>)
    ensures
        hooks_shutdown(platform, template@, exe_path@, config_path@, r),
{
    match platform {
        Platform::Linux => {
            let content = fill_unit(template, exe_path, config_path);
            let mut steps: Vec<Step> = Vec::new();
            steps.push(
                step("systemctl", words1("daemon-reload"), "systemctl daemon-reload failed"),
            );
            steps.push(
                step(
                    "systemctl",
                    words2("enable", "grubstation-shutdown.service"),
                    "Failed to enable grubstation-shutdown service",
                ),
            );
            Ok(
                ServicePlan {
                    unit: Some(UnitFile { path: SHUTDOWN_UNIT_PATH.to_string(), content }),
                    steps,
                },
            )
        },
        _ => Err("Shutdown hooks are only supported on Linux via systemd".to_string()),
    }
}

} // verus!
