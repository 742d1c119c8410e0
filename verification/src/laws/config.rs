//! What a configuration is, where it comes from and how it is written.

use vstd::prelude::*;

use crate::config::{
    address_check, all_rules, breaks, broken_rules, code_of, default_grub_file, dotted, field_of,
    file_check, is_ipv4, loads, port_of, stands_by_default, valid_breaks_no_rule, validates,
    with_defaults, Config, ConfigDocument, ConfigModel, DefaultPath, FieldError, GrubModel, Section,
    WakeOnLanModel,
};
use crate::json::{json_read, Json};
use crate::laws::network::usable_interfaces_are_kept_in_order;
use crate::laws::pairing::waiting_host_keeps_its_pin;
use crate::laws::text::{
    copies_are_taken_off_the_end, copies_are_taken_off_the_start, decimal_spells_the_number,
    number_spelled, pins_are_numbers,
};
use crate::mapping::{yaml_written, Entries, Yaml};
use crate::mdns::{first_told, local_name_of, told_of_pairing, Advertisement, AdvertisementModel};
use crate::net::{is_usable, usable, Interface};
use crate::os::{name_in_line, name_in_lines, os_name};
use crate::text::{decimal, digit, lines_of, trim_end_of, trim_start_of};
use crate::wizard::{
    default_config, found_config, nearest, probe_of, sets_up, waiting_after, with_daemon_mode,
    Ancestor, Waiting, WizardPlan, WriteProbe,
};
use crate::yaml::{config_entries, grub_entries, wake_on_lan_entries};

verus! {

/// Whether the text is a number of at most 255 in decimal, without a zero in front.
pub open spec fn spells_octet(s: Seq<char>) -> bool {
    &&& s.len() > 0
    &&& forall|i: int| 0 <= i < s.len() ==> 48 <= #[trigger] s[i] as int <= 57
    &&& s.len() > 1 ==> s[0] as int != 48
    &&& number_spelled(s) <= 255
}

/// Four texts with dots in between.
pub open spec fn with_dots(a: Seq<char>, b: Seq<char>, c: Seq<char>, d: Seq<char>) -> Seq<char> {
    a + seq!['.'] + b + seq!['.'] + c + seq!['.'] + d
}

proof fn spelled_is_decimal(s: Seq<char>)
    requires
        s.len() > 0,
        forall|i: int| 0 <= i < s.len() ==> 48 <= #[trigger] s[i] as int <= 57,
        s.len() > 1 ==> s[0] as int != 48,
    ensures
        number_spelled(s) >= 0,
        s.len() > 1 ==> number_spelled(s) >= 10,
        s == decimal(number_spelled(s) as nat),
    decreases s.len(),
{
    let before = s.drop_last();
    let last = s.last() as int - 48;
    assert(48 <= s[s.len() - 1] as int <= 57);
    if s.len() == 1 {
        assert(before =~= Seq::<char>::empty());
        reveal_with_fuel(number_spelled, 2);
        assert(s =~= seq![digit(last as nat)]);
    } else {
        assert forall|i: int| 0 <= i < before.len() implies 48 <= #[trigger] before[i] as int
            <= 57 by {
            assert(before[i] == s[i]);
        }
        assert(before[0] == s[0]);
        spelled_is_decimal(before);
        let m = number_spelled(before);
        if before.len() == 1 {
            assert(before.drop_last() =~= Seq::<char>::empty());
            reveal_with_fuel(number_spelled, 2);
            assert(before.last() == before[0]);
            assert(m > 0);
        }
        let n = number_spelled(s);
        assert(n == 10 * m + last);
        assert(n / 10 == m && n % 10 == last);
        assert(s =~= before.push(digit(last as nat)));
    }
}

/// An IPv4 address is four numbers of at most 255 in decimal, without zeros in
/// front, with dots in between, and nothing else is one.
pub proof fn addresses_are_four_numbers(
    a: Seq<char>,
    b: Seq<char>,
    c: Seq<char>,
    d: Seq<char>,
    s: Seq<char>,
)
    ensures
        spells_octet(a) && spells_octet(b) && spells_octet(c) && spells_octet(d) ==> is_ipv4(
            with_dots(a, b, c, d),
        ),
        is_ipv4(s) ==> exists|w: Seq<char>, x: Seq<char>, y: Seq<char>, z: Seq<char>|
            s == #[trigger] with_dots(w, x, y, z) && spells_octet(w) && spells_octet(x)
                && spells_octet(y) && spells_octet(z),
{
    if spells_octet(a) && spells_octet(b) && spells_octet(c) && spells_octet(d) {
        spelled_is_decimal(a);
        spelled_is_decimal(b);
        spelled_is_decimal(c);
        spelled_is_decimal(d);
        assert(with_dots(a, b, c, d) == dotted(
            number_spelled(a) as nat,
            number_spelled(b) as nat,
            number_spelled(c) as nat,
            number_spelled(d) as nat,
        ));
    }
    if is_ipv4(s) {
        let (k, l, m, n) = choose|k: nat, l: nat, m: nat, n: nat|
            k < 256 && l < 256 && m < 256 && n < 256 && s == #[trigger] dotted(k, l, m, n);
        decimal_spells_the_number(k);
        decimal_spells_the_number(l);
        decimal_spells_the_number(m);
        decimal_spells_the_number(n);
        assert(s == with_dots(decimal(k), decimal(l), decimal(m), decimal(n)));
    }
}

/// The rule, where it is broken.
pub open spec fn told_if(broken: bool, rule: FieldError) -> Seq<FieldError> {
    if broken {
        seq![rule]
    } else {
        Seq::empty()
    }
}

proof fn rule_is_told(rules: Seq<FieldError>, rule: FieldError, keep: spec_fn(FieldError) -> bool)
    ensures
        rules.push(rule).filter(keep) == rules.filter(keep) + told_if(keep(rule), rule),
{
    reveal(Seq::filter);
    assert(rules.push(rule).drop_last() =~= rules);
    assert(rules.push(rule).filter(keep) =~= rules.filter(keep) + told_if(keep(rule), rule));
}

/// A configuration breaks a rule where its interface has no name, its port is
/// reserved, its broadcast address is none or its broadcast port is zero, and
/// where GRUB has no menu or is to wait for more than five minutes; the rules
/// are told in this order, each once.
pub proof fn broken_rules_are_told_in_order(c: ConfigModel, grub_file_present: bool)
    ensures
        broken_rules(c, grub_file_present) == told_if(
            c.interface.len() == 0,
            FieldError::EmptyInterface,
        ) + told_if(
            c.daemon_port is Some && c.daemon_port->0 <= 1024,
            FieldError::DaemonPort,
        ) + told_if(
            c.wake_on_lan is Some && !is_ipv4(c.wake_on_lan->0.broadcast_address),
            FieldError::BroadcastAddress,
        ) + told_if(
            c.wake_on_lan is Some && c.wake_on_lan->0.broadcast_port == 0,
            FieldError::BroadcastPort,
        ) + told_if(c.grub is Some && !grub_file_present, FieldError::GrubFile) + told_if(
            c.grub is Some && c.grub->0.network_wait > 300,
            FieldError::NetworkWait,
        ),
{
    let keep = |rule: FieldError| breaks(c, grub_file_present, rule);
    let none = Seq::<FieldError>::empty();
    reveal(Seq::filter);
    assert(none.filter(keep) =~= none);
    let one = none.push(FieldError::EmptyInterface);
    let two = one.push(FieldError::DaemonPort);
    let three = two.push(FieldError::BroadcastAddress);
    let four = three.push(FieldError::BroadcastPort);
    let five = four.push(FieldError::GrubFile);
    rule_is_told(none, FieldError::EmptyInterface, keep);
    rule_is_told(one, FieldError::DaemonPort, keep);
    rule_is_told(two, FieldError::BroadcastAddress, keep);
    rule_is_told(three, FieldError::BroadcastPort, keep);
    rule_is_told(four, FieldError::GrubFile, keep);
    rule_is_told(five, FieldError::NetworkWait, keep);
    assert(five.push(FieldError::NetworkWait) =~= all_rules());
    assert(one.filter(keep) =~= told_if(c.interface.len() == 0, FieldError::EmptyInterface));
}

/// What the file gives is taken as it is, and only what it leaves out has a default.
pub proof fn defaults_fill_in_what_is_left_out(d: ConfigDocument)
    ensures
        with_defaults(d).interface == d.host.interface@,
        d.daemon is Absent ==> with_defaults(d).daemon_port == Some(8081u16),
        d.daemon is Null ==> with_defaults(d).daemon_port is None,
        d.daemon matches Section::Given(daemon) ==> match daemon.port {
            Some(port) => with_defaults(d).daemon_port == Some(port),
            None => with_defaults(d).daemon_port == Some(8081u16),
        },
        d.wake_on_lan is Null ==> with_defaults(d).wake_on_lan is None,
        d.wake_on_lan is Absent ==> with_defaults(d).wake_on_lan == Some(
            (WakeOnLanModel { broadcast_address: "255.255.255.255"@, broadcast_port: 9 }),
        ),
        d.wake_on_lan matches Section::Given(wake) ==> {
            &&& with_defaults(d).wake_on_lan matches Some(found)
            &&& match wake.broadcast_address {
                Some(address) => found.broadcast_address == address@,
                None => found.broadcast_address == "255.255.255.255"@,
            }
            &&& match wake.broadcast_port {
                Some(port) => found.broadcast_port == port,
                None => found.broadcast_port == 9,
            }
        },
        with_defaults(d).grub is Some <==> d.grub is Some,
        d.grub matches Some(grub) ==> {
            &&& with_defaults(d).grub->0.path == grub.path@
            &&& match grub.network_wait {
                Some(wait) => with_defaults(d).grub->0.network_wait == wait,
                None => with_defaults(d).grub->0.network_wait == 10,
            }
            &&& match grub.webhook_id {
                Some(id) => with_defaults(d).grub->0.webhook_id == id@,
                None => with_defaults(d).grub->0.webhook_id.len() == 0,
            }
        },
        with_defaults(d).webhook_id == d.webhook_id.deep_view(),
        with_defaults(d).api_key == d.api_key.deep_view(),
        with_defaults(d).ha_daemon_url == d.ha_daemon_url.deep_view(),
        with_defaults(d).ha_grub_url == d.ha_grub_url.deep_view(),
{
}

/// The daemon listens where the configuration says, and at 8081 where it does not say.
pub proof fn daemon_listens_where_configured(c: ConfigModel)
    ensures
        c.daemon_port matches Some(port) ==> port_of(c) == port,
        c.daemon_port is None ==> port_of(c) == 8081,
{
}

/// A new configuration has the interface, the daemon unless the host does
/// without, the boot menu that was found on Linux, and nothing else.
pub proof fn new_configuration_has_what_was_found(
    interface: Seq<char>,
    daemonless: bool,
    on_linux: bool,
    present: Seq<bool>,
)
    ensures
        ({
            let c = default_config(interface, daemonless, on_linux, present);
            &&& c.interface == interface
            &&& c.daemon_port == if daemonless {
                None
            } else {
                Some(8081u16)
            }
            &&& c.grub is Some <==> on_linux && default_grub_file(present) is Some
            &&& c.grub matches Some(grub) ==> Some(grub.path) == default_grub_file(present)
                && grub.network_wait == 10 && grub.webhook_id.len() == 0
            &&& c.wake_on_lan is None && c.webhook_id is None && c.api_key is None
            &&& c.ha_daemon_url is None && c.ha_grub_url is None
        }),
{
}

/// Setting a host up with the daemon keeps its port, and without it drops it;
/// all else stays.
pub proof fn setting_up_keeps_all_but_the_daemon(c: ConfigModel, daemonless: bool)
    ensures
        ({
            let after = with_daemon_mode(c, daemonless);
            &&& daemonless ==> after.daemon_port is None
            &&& !daemonless && c.daemon_port is Some ==> after.daemon_port == c.daemon_port
            &&& !daemonless && c.daemon_port is None ==> after.daemon_port == Some(8081u16)
            &&& after.interface == c.interface && after.wake_on_lan == c.wake_on_lan
            &&& after.grub == c.grub && after.webhook_id == c.webhook_id
            &&& after.api_key == c.api_key && after.ha_daemon_url == c.ha_daemon_url
            &&& after.ha_grub_url == c.ha_grub_url
        }),
{
}

/// An entry where there is a value for it.
pub open spec fn written_if(name: Seq<char>, value: Option<Yaml>) -> Entries {
    match value {
        Some(value) => seq![(name, value)],
        None => Seq::empty(),
    }
}

/// An optional text as a value.
pub open spec fn text_value(text: Option<Seq<char>>) -> Option<Yaml> {
    match text {
        Some(text) => Some(Yaml::Text(text)),
        None => None,
    }
}

/// The configuration file has an entry for each part that is set, in this order,
/// with the value that it is set to.
pub proof fn every_part_is_written(c: ConfigModel)
    ensures
        config_entries(c) == seq![
            ("host"@, Yaml::Table(seq![("interface"@, Yaml::Text(c.interface))])),
        ] + written_if(
            "daemon"@,
            match c.daemon_port {
                Some(port) => Some(
                    Yaml::Table(seq![("port"@, Yaml::Number(port as nat))]),
                ),
                None => None,
            },
        ) + written_if(
            "wake_on_lan"@,
            match c.wake_on_lan {
                Some(wake) => Some(Yaml::Table(wake_on_lan_entries(wake))),
                None => None,
            },
        ) + written_if(
            "grub"@,
            match c.grub {
                Some(grub) => Some(Yaml::Table(grub_entries(grub))),
                None => None,
            },
        ) + written_if("webhook_id"@, text_value(c.webhook_id)) + written_if(
            "api_key"@,
            text_value(c.api_key),
        ) + written_if("ha_daemon_url"@, text_value(c.ha_daemon_url)) + written_if(
            "ha_grub_url"@,
            text_value(c.ha_grub_url),
        ),
{
}

/// The section on wake-on-LAN has the address and the port; that on GRUB has the
/// path, the wait, and the webhook where it is not empty.
pub proof fn every_field_is_written(wake: WakeOnLanModel, grub: GrubModel)
    ensures
        wake_on_lan_entries(wake) == seq![
            ("broadcast_address"@, Yaml::Text(wake.broadcast_address)),
            ("broadcast_port"@, Yaml::Number(wake.broadcast_port as nat)),
        ],
        grub.webhook_id.len() == 0 ==> grub_entries(grub) == seq![
            ("path"@, Yaml::Text(grub.path)),
            ("network_wait"@, Yaml::Number(grub.network_wait as nat)),
        ],
        grub.webhook_id.len() > 0 ==> grub_entries(grub) == seq![
            ("path"@, Yaml::Text(grub.path)),
            ("network_wait"@, Yaml::Number(grub.network_wait as nat)),
            ("webhook_id"@, Yaml::Text(grub.webhook_id)),
        ],
{
    assert(wake_on_lan_entries(wake) =~= seq![
        ("broadcast_address"@, Yaml::Text(wake.broadcast_address)),
        ("broadcast_port"@, Yaml::Number(wake.broadcast_port as nat)),
    ]);
    if grub.webhook_id.len() == 0 {
        assert(grub_entries(grub) =~= seq![
            ("path"@, Yaml::Text(grub.path)),
            ("network_wait"@, Yaml::Number(grub.network_wait as nat)),
        ]);
    } else {
        assert(grub_entries(grub) =~= seq![
            ("path"@, Yaml::Text(grub.path)),
            ("network_wait"@, Yaml::Number(grub.network_wait as nat)),
            ("webhook_id"@, Yaml::Text(grub.webhook_id)),
        ]);
    }
}

/// A file that is there is tried by opening it, unless it is a directory; one
/// that is not is tried in the nearest directory above it that is there, else in
/// the last one, but in the current directory where a name is empty first.
pub proof fn nearest_directory_is_tried(is_dir: bool, above: Seq<Ancestor>, k: int)
    requires
        above.len() <= usize::MAX,
        0 <= k < above.len(),
        forall|j: int|
            0 <= j < k ==> !(#[trigger] above[j]).is_empty && !above[j].exists,
    ensures
        probe_of(true, true, above) == WriteProbe::IsDirectory,
        probe_of(true, false, above) == WriteProbe::Open,
        above[k].is_empty ==> probe_of(false, is_dir, above) == WriteProbe::CreateHere,
        !above[k].is_empty && (above[k].exists || k == above.len() - 1) ==> probe_of(
            false,
            is_dir,
            above,
        ) == WriteProbe::CreateIn(k as usize),
        probe_of(false, is_dir, Seq::empty()) == WriteProbe::CreateHere,
{
    nearest_from(above, 0, k);
}

proof fn nearest_from(above: Seq<Ancestor>, from: int, k: int)
    requires
        0 <= from <= k < above.len(),
        forall|j: int|
            0 <= j < k ==> !(#[trigger] above[j]).is_empty && !above[j].exists,
    ensures
        nearest(above, from as nat) == nearest(above, k as nat),
    decreases k - from,
{
    if from < k {
        assert(!above[from].is_empty);
        nearest_from(above, from + 1, k);
    }
}

/// A line gives a name exactly where it starts with the key; the name is all
/// behind it but for quotes at its ends.
pub proof fn name_stands_behind_its_key(
    line: Seq<char>,
    opening: Seq<char>,
    name: Seq<char>,
    closing: Seq<char>,
)
    requires
        forall|i: int| 0 <= i < opening.len() ==> #[trigger] opening[i] == '"',
        forall|i: int| 0 <= i < closing.len() ==> #[trigger] closing[i] == '"',
        name.len() > 0 ==> name[0] != '"' && name.last() != '"',
    ensures
        name_in_line("PRETTY_NAME="@ + (opening + name + closing)) == Some(name),
        name_in_line(line) is Some <==> "PRETTY_NAME="@.is_prefix_of(line),
{
    let key = "PRETTY_NAME="@;
    let value = opening + name + closing;
    let whole = key + value;
    assert(whole.subrange(0, key.len() as int) =~= key);
    assert(whole.skip(key.len() as int) =~= value);
    let k = copies_are_taken_off_the_start(value, '"');
    let n = opening.len() as int;
    if name.len() == 0 {
        if k < value.len() {
            assert(value[k] == if k < n {
                opening[k]
            } else {
                closing[k - n]
            });
        }
        assert(trim_start_of(value, '"') =~= name);
        assert(trim_end_of(name, '"') == name);
    } else {
        assert(value[n] == name[0]);
        if k < n {
            assert(value[k] == opening[k]);
        }
        assert(k == n);
        let rest = trim_start_of(value, '"');
        assert(rest =~= name + closing);
        let m = copies_are_taken_off_the_end(rest, '"');
        let l = name.len() as int;
        assert(rest[l - 1] == name.last());
        if m > l {
            assert(rest[m - 1] == closing[m - 1 - l]);
        }
        assert(m == l);
        assert(trim_end_of(rest, '"') =~= name);
    }
}

/// The first line that gives a name counts, whatever stands before and behind it.
pub proof fn first_name_counts(before: Seq<Seq<char>>, line: Seq<char>, behind: Seq<Seq<char>>)
    requires
        forall|i: int|
            0 <= i < before.len() ==> !"PRETTY_NAME="@.is_prefix_of(#[trigger] before[i]),
    ensures
        "PRETTY_NAME="@.is_prefix_of(line) ==> name_in_lines(before + seq![line] + behind)
            == name_in_line(line),
        name_in_lines(before) is None,
    decreases before.len(),
{
    let all = before + seq![line] + behind;
    if before.len() > 0 {
        let rest = before.drop_first();
        assert(all[0] == before[0]);
        assert forall|i: int| 0 <= i < rest.len() implies !"PRETTY_NAME="@.is_prefix_of(
            #[trigger] rest[i],
        ) by {
            assert(rest[i] == before[i + 1]);
        }
        first_name_counts(rest, line, behind);
        assert(all.drop_first() =~= rest + seq![line] + behind);
    } else {
        assert(all[0] == line);
    }
}

/// A system has the name in its release file, and the name of its family only
/// where the file gives none.
pub proof fn system_has_the_name_in_its_file(text: Seq<char>, family: Seq<char>)
    ensures
        name_in_lines(lines_of(text)) matches Some(name) ==> os_name(Some(text), family) == name,
        name_in_lines(lines_of(text)) is None ==> os_name(Some(text), family) == family,
        os_name(None, family) == family,
{
}

/// What the network is told is what there is to tell, and whether the daemon is
/// paired in one word.
pub proof fn network_is_told_each_value(a: Advertisement, m: AdvertisementModel, host: Seq<char>)
    requires
        a.tells(m),
    ensures
        a.service_type@ == "_grubstation._tcp.local."@,
        a.instance@ == m.instance,
        a.host_name@ == m.host_name,
        a.address@ == m.address,
        a.port == m.port,
        a.property@ == "paired"@,
        a.value@ == "true"@ <==> m.paired,
        a.value@ == "false"@ <==> !m.paired,
        local_name_of(host) == host + ".local."@,
{
    reveal_strlit("true");
    reveal_strlit("false");
    assert("true"@.len() == 4 && "false"@.len() == 5);
}

/// Each rule that is broken is told with its field and its kind.
pub proof fn rules_are_told_by_field()
    ensures
        field_of(FieldError::EmptyInterface) == "host.interface"@,
        code_of(FieldError::EmptyInterface) == "length"@,
        field_of(FieldError::DaemonPort) == "daemon.port"@,
        code_of(FieldError::DaemonPort) == "range"@,
        field_of(FieldError::BroadcastAddress) == "wake_on_lan.broadcast_address"@,
        code_of(FieldError::BroadcastAddress) == "invalid_ipv4"@,
        field_of(FieldError::BroadcastPort) == "wake_on_lan.broadcast_port"@,
        code_of(FieldError::BroadcastPort) == "range"@,
        field_of(FieldError::GrubFile) == "grub.path"@,
        code_of(FieldError::GrubFile) == "file_not_found"@,
        field_of(FieldError::NetworkWait) == "grub.network_wait"@,
        code_of(FieldError::NetworkWait) == "range"@,
{
}

/// A host waits for its pairing for five minutes, and no longer once it is cancelled.
pub proof fn host_waits_for_five_minutes(elapsed_millis: u64, cancelled: bool)
    ensures
        waiting_after(elapsed_millis, cancelled) == Waiting::TimedOut <==> elapsed_millis >= 5 * 60
            * 1000,
        waiting_after(elapsed_millis, cancelled) == Waiting::Cancelled <==> elapsed_millis < 5 * 60
            * 1000 && cancelled,
        waiting_after(elapsed_millis, cancelled) == Waiting::Wait <==> elapsed_millis < 5 * 60
            * 1000 && !cancelled,
{
}

/// A new configuration has the name of the first interface that can be offered,
/// whatever stands before and behind it.
pub proof fn first_usable_interface_is_configured(
    before: Seq<Interface>,
    interface: Interface,
    behind: Seq<Interface>,
    daemonless: bool,
    on_linux: bool,
    present: Seq<bool>,
)
    requires
        usable(before).len() == 0,
    ensures
        is_usable(interface) ==> found_config(
            before + seq![interface] + behind,
            daemonless,
            on_linux,
            present,
        ) == Some(default_config(interface.name@, daemonless, on_linux, present)),
        found_config(before, daemonless, on_linux, present) is None,
{
    usable_interfaces_are_kept_in_order(before, interface, seq![interface]);
    usable_interfaces_are_kept_in_order(before + seq![interface], interface, behind);
}

/// A daemon that starts is told under its address, with its host, its port and
/// that it is not paired; later it is told whether it is paired.
pub proof fn daemon_is_told_to_the_network(
    c: ConfigModel,
    address: Seq<char>,
    hostname: Seq<char>,
    instance: Seq<char>,
    port: u16,
    paired: bool,
)
    ensures
        first_told(c, address, hostname).instance == address,
        first_told(c, address, hostname).address == address,
        first_told(c, address, hostname).host_name == hostname + ".local."@,
        c.daemon_port is Some ==> first_told(c, address, hostname).port == c.daemon_port->0,
        !first_told(c, address, hostname).paired,
        told_of_pairing(instance, hostname, port, paired).instance == instance,
        told_of_pairing(instance, hostname, port, paired).host_name == hostname,
        told_of_pairing(instance, hostname, port, paired).address.len() == 0,
        told_of_pairing(instance, hostname, port, paired).port == port,
        told_of_pairing(instance, hostname, port, paired).paired == paired,
{
}

/// The model of a configuration has every field of it.
pub proof fn configuration_is_seen_whole(config: Config)
    ensures
        config@.interface == config.host.interface@,
        config@.daemon_port is Some <==> config.daemon is Some,
        config.daemon matches Some(daemon) ==> config@.daemon_port == Some(daemon.port),
        config@.wake_on_lan is Some <==> config.wake_on_lan is Some,
        config.wake_on_lan matches Some(wake) ==> config@.wake_on_lan->0.broadcast_address
            == wake.broadcast_address@ && config@.wake_on_lan->0.broadcast_port
            == wake.broadcast_port,
        config@.grub is Some <==> config.grub is Some,
        config.grub matches Some(grub) ==> config@.grub->0.path == grub.path@
            && config@.grub->0.network_wait == grub.network_wait && config@.grub->0.webhook_id
            == grub.webhook_id@,
        config@.webhook_id == config.webhook_id.deep_view(),
        config@.api_key == config.api_key.deep_view(),
        config@.ha_daemon_url == config.ha_daemon_url.deep_view(),
        config@.ha_grub_url == config.ha_grub_url.deep_view(),
{
}

/// An address and a file are found to be right exactly where they are.
pub proof fn checks_find_what_is_wrong(address: Seq<char>, exists_there: bool, is_file: bool)
    ensures
        address_check(address) is Ok <==> is_ipv4(address),
        address_check(address) is Err ==> address_check(address)->Err_0
            == FieldError::BroadcastAddress,
        file_check(exists_there, is_file) is Ok <==> exists_there && is_file,
        file_check(exists_there, is_file) is Err ==> file_check(exists_there, is_file)->Err_0
            == FieldError::GrubFile,
{
}

/// Unless the user says otherwise, the configuration file stands in one place on
/// Linux, and elsewhere in the user's directory, or where the program runs.
pub proof fn configuration_has_a_default_place(
    on_linux: bool,
    directory: Option<String>,
    r: DefaultPath,
)
    requires
        stands_by_default(on_linux, directory, r),
    ensures
        r matches DefaultPath::At(path) ==> (on_linux || directory is None) && path@
            == if on_linux {
            "/etc/grubstation/config.yaml"@
        } else {
            "config.yaml"@
        },
        r matches DefaultPath::Within { directory: found, file } ==> !on_linux && directory == Some(
            found,
        ) && file@ == "config.yaml"@,
{
}

/// A document is loaded exactly where it breaks no rule, with the interface, the
/// wait and the addresses that it gives.
pub proof fn valid_documents_are_loaded(
    d: ConfigDocument,
    grub_file_present: bool,
    r: Result<Config, Vec<FieldError>>,
)
    requires
        loads(d, grub_file_present, r),
    ensures
        r is Ok <==> broken_rules(with_defaults(d), grub_file_present).len() == 0,
        r matches Err(rules) ==> rules@ == broken_rules(with_defaults(d), grub_file_present),
        r matches Ok(config) ==> config@ == with_defaults(d) && config@.interface
            == d.host.interface@ && config@.interface.len() > 0 && config@.webhook_id
            == d.webhook_id.deep_view() && config@.api_key == d.api_key.deep_view(),
        r matches Ok(config) ==> (d.grub matches Some(grub) ==> config@.grub->0.path == grub.path@
            && grub_file_present && config@.grub->0.network_wait <= 300 && (
        grub.network_wait is Some ==> config@.grub->0.network_wait == grub.network_wait->0)),
        r matches Ok(config) ==> (config@.daemon_port matches Some(port) ==> port > 1024),
{
    rules_together(with_defaults(d), grub_file_present);
}

/// Setting a host up tells the user the PIN that is in the state file, in which
/// the host is not paired, and writes the configuration that it uses.
pub proof fn user_is_told_the_kept_pin(
    base: ConfigModel,
    daemonless: bool,
    r: Result<WizardPlan, String>,
)
    requires
        sets_up(base, daemonless, r),
    ensures
        r matches Ok(plan) ==> {
            &&& json_read(plan.state_text@) matches Ok(Json::Object(all))
            &&& all["setup_pin"@] == Json::Text(plan.setup_pin@)
            &&& all["paired"@] == Json::Bool(false)
            &&& plan.setup_pin@.len() == 6
            &&& yaml_written(config_entries(plan.config@)) == Ok::<Seq<char>, Seq<char>>(
                plan.config_text@,
            )
            &&& plan.config@.interface == base.interface
            &&& plan.config@.daemon_port is Some <==> !daemonless
        },
        r matches Err(message) ==> yaml_written(
            config_entries(with_daemon_mode(base, daemonless)),
        ) == Err::<Seq<char>, Seq<char>>(message@),
{
    if let Ok(plan) = r {
        waiting_host_keeps_its_pin(plan.setup_pin@);
        pins_are_numbers(plan.setup_pin@);
    }
}

/// A configuration is valid exactly where its interface has a name, its port is
/// not reserved, its broadcast address and port are right, and GRUB has a menu
/// and waits for at most five minutes.
pub proof fn validity_is_every_rule(
    c: ConfigModel,
    grub_file_present: bool,
    r: Result<(), Vec<FieldError>>,
)
    requires
        validates(c, grub_file_present, r),
    ensures
        r is Ok <==> {
            &&& c.interface.len() > 0
            &&& c.daemon_port matches Some(port) ==> port > 1024
            &&& c.wake_on_lan matches Some(wake) ==> is_ipv4(wake.broadcast_address)
                && wake.broadcast_port > 0
            &&& c.grub matches Some(grub) ==> grub_file_present && grub.network_wait <= 300
        },
        r matches Err(rules) ==> rules@ == broken_rules(c, grub_file_present),
{
    rules_together(c, grub_file_present);
}

proof fn rules_together(c: ConfigModel, grub_file_present: bool)
    ensures
        broken_rules(c, grub_file_present).len() == 0 <==> {
            &&& c.interface.len() > 0
            &&& c.daemon_port matches Some(port) ==> port > 1024
            &&& c.wake_on_lan matches Some(wake) ==> is_ipv4(wake.broadcast_address)
                && wake.broadcast_port > 0
            &&& c.grub matches Some(grub) ==> grub_file_present && grub.network_wait <= 300
        },
{
    valid_breaks_no_rule(c, grub_file_present);
    if broken_rules(c, grub_file_present).len() == 0 {
        assert(!breaks(c, grub_file_present, FieldError::EmptyInterface));
        assert(!breaks(c, grub_file_present, FieldError::DaemonPort));
        assert(!breaks(c, grub_file_present, FieldError::BroadcastAddress));
        assert(!breaks(c, grub_file_present, FieldError::BroadcastPort));
        assert(!breaks(c, grub_file_present, FieldError::GrubFile));
        assert(!breaks(c, grub_file_present, FieldError::NetworkWait));
    }
}

} // verus!
