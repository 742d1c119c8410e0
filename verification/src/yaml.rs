//! The configuration file as it is written.

use vstd::prelude::*;

use crate::config::{
    with_defaults, Config, ConfigDocument, ConfigModel, DaemonSection, GrubModel, GrubSection,
    Section, WakeOnLanModel, WakeOnLanSection, DEFAULT_BROADCAST_ADDRESS, DEFAULT_BROADCAST_PORT,
    DEFAULT_DAEMON_PORT,
};

use crate::mapping::{
    add_number, add_table, add_text, names, names_of_pushed, new_mapping, no_entries, write_mapping,
    yaml_entries, yaml_written, Entries, Yaml,
};

verus! {

/// One entry.
pub open spec fn entry(name: Seq<char>, value: Yaml) -> Entries {
    seq![(name, value)]
}

/// The entry of an optional text: there is none where there is no text.
pub open spec fn optional_text(name: Seq<char>, text: Option<Seq<char>>) -> Entries {
    match text {
        Some(text) => entry(name, Yaml::Text(text)),
        None => no_entries(),
    }
}

/// The section `wake_on_lan`.
pub open spec fn wake_on_lan_entries(w: WakeOnLanModel) -> Entries {
    entry("broadcast_address"@, Yaml::Text(w.broadcast_address)) + entry(
        "broadcast_port"@,
        Yaml::Number(w.broadcast_port as nat),
    )
}

/// The section `grub`; an empty webhook is left out.
pub open spec fn grub_entries(g: GrubModel) -> Entries {
    entry("path"@, Yaml::Text(g.path)) + entry(
        "network_wait"@,
        Yaml::Number(g.network_wait as nat),
    ) + optional_text(
        "webhook_id"@,
        if g.webhook_id.len() == 0 {
            None
        } else {
            Some(g.webhook_id)
        },
    )
}

/// The section `host` of the file.
pub open spec fn host_part(c: ConfigModel) -> Entries {
    entry("host"@, Yaml::Table(entry("interface"@, Yaml::Text(c.interface))))
}

/// The section `daemon` of the file, if it is set.
pub open spec fn daemon_part(c: ConfigModel) -> Entries {
    match c.daemon_port {
        Some(port) => entry("daemon"@, Yaml::Table(entry("port"@, Yaml::Number(port as nat)))),
        None => no_entries(),
    }
}

/// The section `wake_on_lan` of the file, if it is set.
pub open spec fn wake_on_lan_part(c: ConfigModel) -> Entries {
    match c.wake_on_lan {
        Some(wake) => entry("wake_on_lan"@, Yaml::Table(wake_on_lan_entries(wake))),
        None => no_entries(),
    }
}

/// The section `grub` of the file, if it is set.
pub open spec fn grub_part(c: ConfigModel) -> Entries {
    match c.grub {
        Some(grub) => entry("grub"@, Yaml::Table(grub_entries(grub))),
        None => no_entries(),
    }
}

/// The configuration as the file holds it: what is not set is left out.
pub open spec fn config_entries(c: ConfigModel) -> Entries {
    host_part(c) + daemon_part(c) + wake_on_lan_part(c) + grub_part(c) + optional_text(
        "webhook_id"@,
        c.webhook_id,
    ) + optional_text("api_key"@, c.api_key) + optional_text("ha_daemon_url"@, c.ha_daemon_url)
        + optional_text("ha_grub_url"@, c.ha_grub_url)
}

/// The names of the sections and settings are different from one another.
proof fn names_differ()
    ensures
        "broadcast_address"@ != "broadcast_port"@,
        "path"@ != "network_wait"@,
        "path"@ != "webhook_id"@,
        "network_wait"@ != "webhook_id"@,
        "host"@ != "daemon"@,
        "host"@ != "wake_on_lan"@,
        "host"@ != "grub"@,
        "host"@ != "webhook_id"@,
        "host"@ != "api_key"@,
        "host"@ != "ha_daemon_url"@,
        "host"@ != "ha_grub_url"@,
        "daemon"@ != "wake_on_lan"@,
        "daemon"@ != "grub"@,
        "daemon"@ != "webhook_id"@,
        "daemon"@ != "api_key"@,
        "daemon"@ != "ha_daemon_url"@,
        "daemon"@ != "ha_grub_url"@,
        "wake_on_lan"@ != "grub"@,
        "wake_on_lan"@ != "webhook_id"@,
        "wake_on_lan"@ != "api_key"@,
        "wake_on_lan"@ != "ha_daemon_url"@,
        "wake_on_lan"@ != "ha_grub_url"@,
        "grub"@ != "webhook_id"@,
        "grub"@ != "api_key"@,
        "grub"@ != "ha_daemon_url"@,
        "grub"@ != "ha_grub_url"@,
        "webhook_id"@ != "api_key"@,
        "webhook_id"@ != "ha_daemon_url"@,
        "webhook_id"@ != "ha_grub_url"@,
        "api_key"@ != "ha_daemon_url"@,
        "api_key"@ != "ha_grub_url"@,
        "ha_daemon_url"@ != "ha_grub_url"@,
{
    reveal_strlit("broadcast_address");
    reveal_strlit("broadcast_port");
    reveal_strlit("path");
    reveal_strlit("network_wait");
    reveal_strlit("host");
    reveal_strlit("daemon");
    reveal_strlit("wake_on_lan");
    reveal_strlit("grub");
    reveal_strlit("webhook_id");
    reveal_strlit("api_key");
    reveal_strlit("ha_daemon_url");
    reveal_strlit("ha_grub_url");
    assert("broadcast_address"@.len() == 17);
    assert("broadcast_port"@.len() == 14);
    assert("path"@.len() == 4);
    assert("network_wait"@.len() == 12);
    assert("host"@.len() == 4);
    assert("daemon"@.len() == 6);
    assert("wake_on_lan"@.len() == 11);
    assert("grub"@.len() == 4);
    assert("webhook_id"@.len() == 10);
    assert("api_key"@.len() == 7);
    assert("ha_daemon_url"@.len() == 13);
    assert("ha_grub_url"@.len() == 11);
    assert("host"@[0] != "grub"@[0]);
    assert("wake_on_lan"@[0] != "ha_grub_url"@[0]);
}

/// Adds a text that may be missing.
fn add_optional(mapping: &mut serde_yaml::Mapping, name: &str, value: &Option<String>)
    requires
        !names(yaml_entries(*old(mapping)), name@),
    ensures
        yaml_entries(*final(mapping)) == yaml_entries(*old(mapping)) + optional_text(
            name@,
            value.deep_view(),
        ),
        forall|n: Seq<char>|
            n != name@ ==> (#[trigger] names(yaml_entries(*final(mapping)), n) <==> names(
                yaml_entries(*old(mapping)),
                n,
            )),
{
    let ghost before = yaml_entries(*mapping);
    match value {
        Some(text) => {
            proof {
                names_of_pushed(before, name@, Yaml::Text(text@));
                assert(before.push((name@, Yaml::Text(text@))) =~= before + entry(
                    name@,
                    Yaml::Text(text@),
                ));
            }
            add_text(mapping, name, text.as_str());
        },
        None => {
            assert(before + no_entries() =~= before);
        },
    }
}

/// The configuration as a mapping.
fn config_mapping(config: &Config) -> (r: serde_yaml::Mapping)
    ensures
        yaml_entries(r) == config_entries(config@),
{
    proof {
        names_differ();
    }
    let ghost c = config@;
    let mut all = new_mapping();
    let mut host = new_mapping();
    add_text(&mut host, "interface", config.host.interface.as_str());
    assert(yaml_entries(host) =~= entry("interface"@, Yaml::Text(c.interface)));
    let ghost before = yaml_entries(all);
    proof {
        names_of_pushed(before, "host"@, Yaml::Table(yaml_entries(host)));
    }
    add_table(&mut all, "host", host);
    assert(yaml_entries(all) =~= host_part(c));
    let ghost before = yaml_entries(all);
    if let Some(daemon) = &config.daemon {
        let mut section = new_mapping();
        add_number(&mut section, "port", daemon.port as u32);
        assert(yaml_entries(section) =~= entry("port"@, Yaml::Number(daemon.port as nat)));
        proof {
            names_of_pushed(before, "daemon"@, Yaml::Table(yaml_entries(section)));
        }
        add_table(&mut all, "daemon", section);
    }
    assert(yaml_entries(all) =~= before + daemon_part(c));
    let ghost before = yaml_entries(all);
    if let Some(wake) = &config.wake_on_lan {
        let mut section = new_mapping();
        add_text(&mut section, "broadcast_address", wake.broadcast_address.as_str());
        add_number(&mut section, "broadcast_port", wake.broadcast_port as u32);
        assert(yaml_entries(section) =~= wake_on_lan_entries(wake@));
        proof {
            names_of_pushed(before, "wake_on_lan"@, Yaml::Table(yaml_entries(section)));
        }
        add_table(&mut all, "wake_on_lan", section);
    }
    assert(yaml_entries(all) =~= before + wake_on_lan_part(c));
    let ghost before = yaml_entries(all);
    if let Some(grub) = &config.grub {
        let mut section = new_mapping();
        add_text(&mut section, "path", grub.path.as_str());
        add_number(&mut section, "network_wait", grub.network_wait);
        if !grub.webhook_id.as_str().is_empty() {
            add_text(&mut section, "webhook_id", grub.webhook_id.as_str());
        }
        assert(yaml_entries(section) =~= grub_entries(grub@));
        proof {
            names_of_pushed(before, "grub"@, Yaml::Table(yaml_entries(section)));
        }
        add_table(&mut all, "grub", section);
    }
    assert(yaml_entries(all) =~= before + grub_part(c));
    add_optional(&mut all, "webhook_id", &config.webhook_id);
    add_optional(&mut all, "api_key", &config.api_key);
    add_optional(&mut all, "ha_daemon_url", &config.ha_daemon_url);
    add_optional(&mut all, "ha_grub_url", &config.ha_grub_url);
    all
}

/// The text of the configuration file, or why it cannot be written.
pub fn config_text(config: &Config) -> (r: Result<String, String>)
    ensures
        match yaml_written(config_entries(config@)) {
            Ok(text) => r matches Ok(written) && written@ == text,
            Err(error) => r matches Err(message) && message@ == error,
        },
{
    write_mapping(&config_mapping(config))
}

/// The value of the first entry of this name.
pub open spec fn found(entries: Entries, name: Seq<char>) -> Option<Yaml>
    decreases entries.len(),
{
    if entries.len() == 0 {
        None
    } else if entries[0].0 == name {
        Some(entries[0].1)
    } else {
        found(entries.drop_first(), name)
    }
}

/// Whether the entry of this name is the text, or there is neither.
pub open spec fn gives_text(entries: Entries, name: Seq<char>, text: Option<Seq<char>>) -> bool {
    match found(entries, name) {
        Some(value) => value is Text && text == Some(value->Text_0),
        None => text is None,
    }
}

/// Whether the entry of this name is the number, or there is neither.
pub open spec fn gives_number(entries: Entries, name: Seq<char>, number: Option<nat>) -> bool {
    match found(entries, name) {
        Some(value) => value is Number && number == Some(value->Number_0),
        None => number is None,
    }
}

/// An optional port as a number.
pub open spec fn as_number(port: Option<u16>) -> Option<nat> {
    match port {
        Some(port) => Some(port as nat),
        None => None,
    }
}

/// Whether the entries spell the section `daemon`.
pub open spec fn spells_daemon(entries: Entries, daemon: DaemonSection) -> bool {
    gives_number(entries, "port"@, as_number(daemon.port))
}

/// Whether the entries spell the section `wake_on_lan`.
pub open spec fn spells_wake_on_lan(entries: Entries, wake: WakeOnLanSection) -> bool {
    &&& gives_text(entries, "broadcast_address"@, wake.broadcast_address.deep_view())
    &&& gives_number(entries, "broadcast_port"@, as_number(wake.broadcast_port))
}

/// Whether the entries spell the section `grub`.
pub open spec fn spells_grub(entries: Entries, grub: GrubSection) -> bool {
    &&& gives_text(entries, "path"@, Some(grub.path@))
    &&& gives_number(
        entries,
        "network_wait"@,
        match grub.network_wait {
            Some(wait) => Some(wait as nat),
            None => None,
        },
    )
    &&& gives_text(entries, "webhook_id"@, grub.webhook_id.deep_view())
}

/// Whether the entries of the configuration file spell this document.
pub open spec fn spells(entries: Entries, d: ConfigDocument) -> bool {
    &&& found(entries, "host"@) matches Some(Yaml::Table(host)) && gives_text(
        host,
        "interface"@,
        Some(d.host.interface@),
    )
    &&& match found(entries, "daemon"@) {
        Some(Yaml::Table(section)) => d.daemon matches Section::Given(daemon) && spells_daemon(
            section,
            daemon,
        ),
        Some(_) => false,
        None => d.daemon is Absent,
    }
    &&& match found(entries, "wake_on_lan"@) {
        Some(Yaml::Table(section)) => d.wake_on_lan matches Section::Given(wake)
            && spells_wake_on_lan(section, wake),
        Some(_) => false,
        None => d.wake_on_lan is Absent,
    }
    &&& match found(entries, "grub"@) {
        Some(Yaml::Table(section)) => d.grub matches Some(grub) && spells_grub(section, grub),
        Some(_) => false,
        None => d.grub is None,
    }
    &&& gives_text(entries, "webhook_id"@, d.webhook_id.deep_view())
    &&& gives_text(entries, "api_key"@, d.api_key.deep_view())
    &&& gives_text(entries, "ha_daemon_url"@, d.ha_daemon_url.deep_view())
    &&& gives_text(entries, "ha_grub_url"@, d.ha_grub_url.deep_view())
}

/// What is written is loaded back: the document that the file spells gives the
/// configuration that was written, where the daemon and wake-on-LAN come back
/// with their defaults if they were not set.
pub proof fn written_config_is_loaded_back(c: ConfigModel, d: ConfigDocument)
    requires
        spells(config_entries(c), d),
    ensures
        with_defaults(d) == (ConfigModel {
            daemon_port: if c.daemon_port is Some {
                c.daemon_port
            } else {
                Some(DEFAULT_DAEMON_PORT)
            },
            wake_on_lan: if c.wake_on_lan is Some {
                c.wake_on_lan
            } else {
                Some(
                    WakeOnLanModel {
                        broadcast_address: DEFAULT_BROADCAST_ADDRESS@,
                        broadcast_port: DEFAULT_BROADCAST_PORT,
                    },
                )
            },
            ..c
        }),
{
    names_differ();
    found_in_config(c);
    reveal_with_fuel(found, 2);
    if let Some(wake) = c.wake_on_lan {
        found_in_sum(
            entry("broadcast_address"@, Yaml::Text(wake.broadcast_address)),
            entry("broadcast_port"@, Yaml::Number(wake.broadcast_port as nat)),
        );
    }
    let loaded = with_defaults(d);
    assert(loaded.interface == c.interface);
    assert(c.daemon_port is Some ==> loaded.daemon_port == c.daemon_port);
    if let Some(wake) = c.wake_on_lan {
        assert(loaded.wake_on_lan->0.broadcast_address == wake.broadcast_address);
        assert(loaded.wake_on_lan->0.broadcast_port == wake.broadcast_port);
    }
    if let Some(grub) = c.grub {
        found_in_grub(grub);
        assert(loaded.grub->0.path == grub.path);
        assert(loaded.grub->0.network_wait == grub.network_wait);
        assert(loaded.grub->0.webhook_id =~= grub.webhook_id);
    }
    assert(loaded.grub == c.grub);
}

/// What is found under each name in the configuration file.
proof fn found_in_config(c: ConfigModel)
    ensures
        found(config_entries(c), "host"@) == Some(
            Yaml::Table(entry("interface"@, Yaml::Text(c.interface))),
        ),
        found(config_entries(c), "daemon"@) == found(daemon_part(c), "daemon"@),
        found(config_entries(c), "wake_on_lan"@) == found(wake_on_lan_part(c), "wake_on_lan"@),
        found(config_entries(c), "grub"@) == found(grub_part(c), "grub"@),
        gives_text(config_entries(c), "webhook_id"@, c.webhook_id),
        gives_text(config_entries(c), "api_key"@, c.api_key),
        gives_text(config_entries(c), "ha_daemon_url"@, c.ha_daemon_url),
        gives_text(config_entries(c), "ha_grub_url"@, c.ha_grub_url),
{
    names_differ();
    reveal_with_fuel(found, 2);
    let sections = host_part(c) + daemon_part(c) + wake_on_lan_part(c) + grub_part(c);
    let id = optional_text("webhook_id"@, c.webhook_id);
    let key = optional_text("api_key"@, c.api_key);
    let daemon_url = optional_text("ha_daemon_url"@, c.ha_daemon_url);
    found_in_sum(host_part(c), daemon_part(c));
    found_in_sum(host_part(c) + daemon_part(c), wake_on_lan_part(c));
    found_in_sum(host_part(c) + daemon_part(c) + wake_on_lan_part(c), grub_part(c));
    found_in_sum(sections, id);
    found_in_sum(sections + id, key);
    found_in_sum(sections + id + key, daemon_url);
    found_in_sum(sections + id + key + daemon_url, optional_text("ha_grub_url"@, c.ha_grub_url));
}

proof fn found_in_grub(grub: GrubModel)
    ensures
        found(grub_entries(grub), "path"@) == Some(Yaml::Text(grub.path)),
        found(grub_entries(grub), "network_wait"@) == Some(Yaml::Number(grub.network_wait as nat)),
        found(grub_entries(grub), "webhook_id"@) == if grub.webhook_id.len() == 0 {
            None
        } else {
            Some(Yaml::Text(grub.webhook_id))
        },
{
    names_differ();
    reveal_with_fuel(found, 2);
    let path = entry("path"@, Yaml::Text(grub.path));
    let wait = entry("network_wait"@, Yaml::Number(grub.network_wait as nat));
    let id = optional_text(
        "webhook_id"@,
        if grub.webhook_id.len() == 0 {
            None
        } else {
            Some(grub.webhook_id)
        },
    );
    found_in_sum(path, wait);
    found_in_sum(path + wait, id);
}

proof fn found_in_sum(a: Entries, b: Entries)
    ensures
        forall|name: Seq<char>| #[trigger]
            found(a + b, name) == if found(a, name) is Some {
                found(a, name)
            } else {
                found(b, name)
            },
{
    assert forall|name: Seq<char>| #[trigger]
        found(a + b, name) == if found(a, name) is Some {
            found(a, name)
        } else {
            found(b, name)
        } by {
        found_in_sum_of(a, b, name);
    }
}

proof fn found_in_sum_of(a: Entries, b: Entries, name: Seq<char>)
    ensures
        found(a + b, name) == if found(a, name) is Some {
            found(a, name)
        } else {
            found(b, name)
        },
    decreases a.len(),
{
    if a.len() == 0 {
        assert(a + b =~= b);
    } else {
        assert((a + b).drop_first() =~= a.drop_first() + b);
        found_in_sum_of(a.drop_first(), b, name);
    }
}

/// The configuration file names no section that is not set.
pub proof fn unset_sections_are_left_out(c: ConfigModel)
    ensures
        names(config_entries(c), "daemon"@) <==> c.daemon_port is Some,
        names(config_entries(c), "wake_on_lan"@) <==> c.wake_on_lan is Some,
        names(config_entries(c), "grub"@) <==> c.grub is Some,
        names(config_entries(c), "webhook_id"@) <==> c.webhook_id is Some,
        names(config_entries(c), "api_key"@) <==> c.api_key is Some,
        names(config_entries(c), "ha_daemon_url"@) <==> c.ha_daemon_url is Some,
        names(config_entries(c), "ha_grub_url"@) <==> c.ha_grub_url is Some,
{
    reveal_with_fuel(found, 2);
    found_in_config(c);
    let all = config_entries(c);
    named_is_found(all, "daemon"@);
    named_is_found(all, "wake_on_lan"@);
    named_is_found(all, "grub"@);
    named_is_found(all, "webhook_id"@);
    named_is_found(all, "api_key"@);
    named_is_found(all, "ha_daemon_url"@);
    named_is_found(all, "ha_grub_url"@);
}

proof fn named_is_found(entries: Entries, name: Seq<char>)
    ensures
        names(entries, name) <==> found(entries, name) is Some,
    decreases entries.len(),
{
    if entries.len() > 0 {
        let rest = entries.drop_first();
        named_is_found(rest, name);
        if names(entries, name) {
            let i = choose|i: int| 0 <= i < entries.len() && #[trigger] entries[i].0 == name;
            if i > 0 {
                assert(rest[i - 1].0 == name);
            }
        }
        if names(rest, name) {
            let i = choose|i: int| 0 <= i < rest.len() && #[trigger] rest[i].0 == name;
            assert(entries[i + 1].0 == name);
        }
        if entries[0].0 == name {
            assert(names(entries, name));
        }
    }
}

} // verus!
