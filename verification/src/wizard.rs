//! Setting a host up.

use vstd::prelude::*;

use crate::config::{
    breaks, broken_rules, default_grub_file, default_network_wait, find_default_grub_file,
    valid_breaks_no_rule, Config, ConfigModel, DaemonConfig, FieldError, GrubConfig, GrubModel,
    HostConfig, DEFAULT_DAEMON_PORT, DEFAULT_NETWORK_WAIT,
};
use crate::json::{
    json_page, members, new_object, no_members, plain_survives, reads_as, set_text, set_texts,
    texts, write_page, Json, Members, Object,
};
use crate::mapping::yaml_written;
use crate::net::{first_usable, usable, Interface};
use crate::secret::{generate_pin, is_pin};
use crate::state_file::{setup_members, setup_state_text};
use crate::yaml::{config_entries, config_text};

verus! {

/// How long a host waits for its pairing.
pub const PAIRING_TIMEOUT_MILLIS: u64 = 300_000;

/// The host has no interface that can be used.
pub struct NoInterface;

impl NoInterface {
    /// The message of the error.
    pub fn message(&self) -> (r: String)
        ensures
            r@ == "No active ethernet interfaces found."@,
    {
        "No active ethernet interfaces found.".to_string()
    }
}

/// The configuration of a host that has none: its first interface, the daemon
/// unless the host does without, and the boot menu at a default place.
pub open spec fn default_config(
    interface: Seq<char>,
    daemonless: bool,
    on_linux: bool,
    present: Seq<bool>,
) -> ConfigModel {
    ConfigModel {
        interface,
        daemon_port: if daemonless {
            None
        } else {
            Some(DEFAULT_DAEMON_PORT)
        },
        wake_on_lan: None,
        grub: match default_grub_file(present) {
            Some(path) => if on_linux {
                Some(
                    GrubModel {
                        path,
                        network_wait: DEFAULT_NETWORK_WAIT,
                        webhook_id: Seq::empty(),
                    },
                )
            } else {
                None
            },
            None => None,
        },
        webhook_id: None,
        api_key: None,
        ha_daemon_url: None,
        ha_grub_url: None,
    }
}

/// The configuration of a host that has none, from its interfaces: none where
/// no interface can be offered.
pub open spec fn found_config(
    interfaces: Seq<Interface>,
    daemonless: bool,
    on_linux: bool,
    present: Seq<bool>,
) -> Option<ConfigModel> {
    if usable(interfaces).len() == 0 {
        None
    } else {
        Some(default_config(usable(interfaces)[0].name@, daemonless, on_linux, present))
    }
}

/// The configuration of a host that has none, from its interfaces, where
/// `present` says at which of the default places there is a boot menu.
pub fn create_default_config(
    daemonless: bool,
    interfaces: &Vec<Interface>,
    on_linux: bool,
    present: &Vec<bool>,
) -> (r: Result<Config, NoInterface>)
    ensures
        match r {
            Ok(config) => usable(interfaces@).len() > 0 && config@ == default_config(
                usable(interfaces@)[0].name@,
                daemonless,
                on_linux,
                present@,
            ),
            Err(_) => usable(interfaces@).len() == 0,
        },
        match found_config(interfaces@, daemonless, on_linux, present@) {
            Some(found) => r matches Ok(config) && config@ == found,
            None => r is Err,
        },
{
    let i = match first_usable(interfaces) {
        Some(i) => i,
        None => {
            return Err(NoInterface);
        },
    };
    let found = if on_linux {
        find_default_grub_file(present)
    } else {
        None
    };
    Ok(
        Config {
            host: HostConfig { interface: interfaces[i].name.clone() },
            daemon: if daemonless {
                None
            } else {
                Some(DaemonConfig { port: DEFAULT_DAEMON_PORT })
            },
            wake_on_lan: None,
            grub: match found {
                Some(path) => Some(
                    GrubConfig {
                        path,
                        network_wait: default_network_wait(),
                        webhook_id: String::new(),
                    },
                ),
                None => None,
            },
            webhook_id: None,
            api_key: None,
            ha_daemon_url: None,
            ha_grub_url: None,
        },
    )
}

/// The configuration with or without the daemon.
pub open spec fn with_daemon_mode(c: ConfigModel, daemonless: bool) -> ConfigModel {
    ConfigModel {
        daemon_port: if daemonless {
            None
        } else if c.daemon_port is Some {
            c.daemon_port
        } else {
            Some(DEFAULT_DAEMON_PORT)
        },
        ..c
    }
}

/// What setting a host up writes.
pub struct WizardPlan {
    /// The configuration.
    pub config: Config,
    /// The text of the configuration file.
    pub config_text: String,
    /// The PIN that the user enters in Home Assistant.
    pub setup_pin: String,
    /// The text of the state file.
    pub state_text: String,
}

/// Whether setting a host up writes this.
pub open spec fn sets_up(
    base: ConfigModel,
    daemonless: bool,
    r: Result<WizardPlan, String>,
) -> bool {
    match yaml_written(config_entries(with_daemon_mode(base, daemonless))) {
        Ok(text) => {
            &&& r matches Ok(plan)
            &&& plan.config@ == with_daemon_mode(base, daemonless)
            &&& plan.config_text@ == text
            &&& is_pin(plan.setup_pin@)
            &&& plan.state_text@ == json_page(Json::Object(setup_members(plan.setup_pin@)))
            &&& reads_as(plan.state_text@, setup_members(plan.setup_pin@))
        },
        Err(error) => r matches Err(message) && message@ == error,
    }
}

/// What setting a host up writes: its configuration, existing or new, with or
/// without the daemon, and a state that waits for a pairing with a new PIN.
pub fn wizard_init(base: Config, daemonless: bool) -> (r: Result<WizardPlan, String>)
    ensures
        sets_up(base@, daemonless, r),
{
    let mut config = base;
    if daemonless {
        config.daemon = None;
    } else if config.daemon.is_none() {
        config.daemon = Some(DaemonConfig { port: DEFAULT_DAEMON_PORT });
    }
    assert(config@ == with_daemon_mode(base@, daemonless));
    match config_text(&config) {
        Ok(text) => {
            let setup_pin = generate_pin();
            let state_text = setup_state_text(setup_pin.as_str());
            Ok(WizardPlan { config, config_text: text, setup_pin, state_text })
        },
        Err(message) => Err(message),
    }
}

/// What comes next while a host waits for its pairing.
#[derive(Clone, Copy, Debug, PartialEq, Eq, Structural)]
pub enum Waiting {
    /// It waits on.
    Wait,
    /// The user has cancelled.
    Cancelled,
    /// It has waited too long.
    TimedOut,
}

/// Whether a host waits on for its pairing.
pub open spec fn waiting_after(elapsed_millis: u64, cancelled: bool) -> Waiting {
    if elapsed_millis >= PAIRING_TIMEOUT_MILLIS {
        Waiting::TimedOut
    } else if cancelled {
        Waiting::Cancelled
    } else {
        Waiting::Wait
    }
}

/// Whether a host waits on for its pairing.
pub fn wait_on(elapsed_millis: u64, cancelled: bool) -> (r: Waiting)
    ensures
        r == waiting_after(elapsed_millis, cancelled),
{
    if elapsed_millis >= PAIRING_TIMEOUT_MILLIS {
        Waiting::TimedOut
    } else if cancelled {
        Waiting::Cancelled
    } else {
        Waiting::Wait
    }
}

/// The members that describe a host for a pairing by hand.
pub open spec fn dump_members(
    mac: Seq<char>,
    address: Seq<char>,
    hostname: Seq<char>,
    os: Seq<char>,
    entries: Seq<Seq<char>>,
) -> Members {
    no_members().insert("mac"@, Json::Text(mac)).insert("address"@, Json::Text(address)).insert(
        "hostname"@,
        Json::Text(hostname),
    ).insert("os"@, Json::Text(os)).insert("boot_options"@, texts(entries))
}

/// What describes a host for a pairing by hand.
pub fn get_json_dump(
    mac: &str,
    address: &str,
    hostname: &str,
    os: &str,
    entries: &Vec<String>,
) -> (r: Object)
    ensures
        members(r) == dump_members(mac@, address@, hostname@, os@, entries.deep_view()),
{
    let mut object = new_object();
    set_text(&mut object, "mac", mac);
    set_text(&mut object, "address", address);
    set_text(&mut object, "hostname", hostname);
    set_text(&mut object, "os", os);
    set_texts(&mut object, "boot_options", entries);
    object
}

/// What describes a host for a pairing by hand, on several lines. It reads back
/// as what it says.
pub fn dump_text(
    mac: &str,
    address: &str,
    hostname: &str,
    os: &str,
    entries: &Vec<String>,
) -> (r: String)
    ensures
        r@ == json_page(
            Json::Object(dump_members(mac@, address@, hostname@, os@, entries.deep_view())),
        ),
        reads_as(r@, dump_members(mac@, address@, hostname@, os@, entries.deep_view())),
{
    proof {
        plain_survives(dump_members(mac@, address@, hostname@, os@, entries.deep_view()));
    }
    write_page(&get_json_dump(mac, address, hostname, os, entries))
}

/// A directory above a path.
#[derive(Clone, Copy, Debug, PartialEq, Eq, Structural)]
pub struct Ancestor {
    /// Whether its name is empty, so that it is the current directory.
    pub is_empty: bool,
    pub exists: bool,
}

/// How to find out whether a file can be written.
#[derive(Clone, Copy, Debug, PartialEq, Eq, Structural)]
pub enum WriteProbe {
    /// It cannot: it is a directory.
    IsDirectory,
    /// By opening it.
    Open,
    /// By creating a file in the directory above it with this number.
    CreateIn(usize),
    /// By creating a file in the current directory.
    CreateHere,
}

/// Where to create a file in place of one that does not exist: in the nearest
/// directory above it that does, counted from `from` on.
pub open spec fn nearest(above: Seq<Ancestor>, from: nat) -> WriteProbe
    decreases above.len() - from,
{
    if from >= above.len() || above[from as int].is_empty {
        WriteProbe::CreateHere
    } else if above[from as int].exists || from + 1 == above.len() {
        WriteProbe::CreateIn(from as usize)
    } else {
        nearest(above, from + 1)
    }
}

/// How to find out whether a file can be written.
pub open spec fn probe_of(exists: bool, is_dir: bool, above: Seq<Ancestor>) -> WriteProbe {
    if exists && is_dir {
        WriteProbe::IsDirectory
    } else if exists {
        WriteProbe::Open
    } else {
        nearest(above, 0)
    }
}

/// How to find out whether a file can be written, from what is known of it and
/// of the directories above it, the nearest first.
pub fn check_write_permission(exists: bool, is_dir: bool, above: &Vec<Ancestor>) -> (r: WriteProbe)
    ensures
        r == probe_of(exists, is_dir, above@),
{
    if exists && is_dir {
        return WriteProbe::IsDirectory;
    }
    if exists {
        return WriteProbe::Open;
    }
    let mut i: usize = 0;
    while i < above.len()
        invariant
            !exists,
            i <= above.len(),
            nearest(above@, 0) == nearest(above@, i as nat),
        decreases above.len() - i,
    {
        if above[i].is_empty {
            return WriteProbe::CreateHere;
        }
        if above[i].exists || i + 1 == above.len() {
            return WriteProbe::CreateIn(i);
        }
        i += 1;
    }
    WriteProbe::CreateHere
}

/// The configuration of a host that has none keeps every rule, where its
/// interface has a name and its boot menu is a file.
pub proof fn default_config_is_valid(
    interface: Seq<char>,
    daemonless: bool,
    on_linux: bool,
    present: Seq<bool>,
)
    requires
        interface.len() > 0,
    ensures
        broken_rules(default_config(interface, daemonless, on_linux, present), true).len() == 0,
{
    valid_breaks_no_rule(default_config(interface, daemonless, on_linux, present), true);
}

/// Setting a host up twice in the same way gives the same configuration.
pub proof fn setting_up_twice_is_setting_up_once(c: ConfigModel, daemonless: bool)
    ensures
        with_daemon_mode(with_daemon_mode(c, daemonless), daemonless) == with_daemon_mode(
            c,
            daemonless,
        ),
{
}

/// Setting a host up keeps a valid configuration valid.
pub proof fn setting_up_keeps_rules(c: ConfigModel, daemonless: bool, grub_file_present: bool)
    requires
        broken_rules(c, grub_file_present).len() == 0,
    ensures
        broken_rules(with_daemon_mode(c, daemonless), grub_file_present).len() == 0,
{
    let after = with_daemon_mode(c, daemonless);
    valid_breaks_no_rule(c, grub_file_present);
    valid_breaks_no_rule(after, grub_file_present);
    assert forall|rule: FieldError| !breaks(after, grub_file_present, rule) by {
        assert(!breaks(c, grub_file_present, rule));
    }
}

/// A new configuration already has the daemon mode that it was made for.
pub proof fn new_config_has_its_mode(
    interface: Seq<char>,
    daemonless: bool,
    on_linux: bool,
    present: Seq<bool>,
)
    ensures
        with_daemon_mode(default_config(interface, daemonless, on_linux, present), daemonless)
            == default_config(interface, daemonless, on_linux, present),
{
}

} // verus!
