//! The network interfaces of the host.

use vstd::prelude::*;

use crate::json::{
    members, new_object, no_members, set_text, set_texts, texts, Json, Members, Object,
};
use crate::text::{concat3, same, starts_with};

verus! {

/// An address of a network interface.
pub struct Address {
    pub ip: String,
    pub is_ipv4: bool,
}

/// A network interface, as the system lists it.
pub struct Interface {
    pub name: String,
    pub mac_addr: Option<String>,
    pub addresses: Vec<Address>,
}

/// What the daemon needs to know of its interface.
pub struct InterfaceDetails {
    pub mac: String,
    pub address: String,
}

/// Why an interface cannot be used.
#[derive(Clone, Copy, Debug, PartialEq, Eq, Structural)]
pub enum InterfaceError {
    NotFound,
    NoMacAddress,
    NoIpv4Address,
}

/// The first interface of this name.
pub open spec fn interface_named(all: Seq<Interface>, name: Seq<char>) -> Option<Interface>
    decreases all.len(),
{
    if all.len() == 0 {
        None
    } else if all[0].name@ == name {
        Some(all[0])
    } else {
        interface_named(all.drop_first(), name)
    }
}

/// The IPv4 addresses among the addresses, in order.
pub open spec fn ipv4_among(addresses: Seq<Address>) -> Seq<Seq<char>>
    decreases addresses.len(),
{
    if addresses.len() == 0 {
        Seq::empty()
    } else if addresses.last().is_ipv4 {
        ipv4_among(addresses.drop_last()).push(addresses.last().ip@)
    } else {
        ipv4_among(addresses.drop_last())
    }
}

/// The MAC address and the first IPv4 address of the first interface of this name.
pub open spec fn details_of(all: Seq<Interface>, name: Seq<char>) -> Result<
    (Seq<char>, Seq<char>),
    InterfaceError,
> {
    match interface_named(all, name) {
        None => Err(InterfaceError::NotFound),
        Some(interface) => match interface.mac_addr {
            None => Err(InterfaceError::NoMacAddress),
            Some(mac) => if ipv4_among(interface.addresses@).len() == 0 {
                Err(InterfaceError::NoIpv4Address)
            } else {
                Ok((mac@, ipv4_among(interface.addresses@)[0]))
            },
        },
    }
}

/// The message of an error about the interface of this name.
pub open spec fn interface_message(error: InterfaceError, name: Seq<char>) -> Seq<char> {
    "Interface '"@ + name + match error {
        InterfaceError::NotFound => "' not found"@,
        InterfaceError::NoMacAddress => "' has no MAC address"@,
        InterfaceError::NoIpv4Address => "' has no IPv4 address"@,
    }
}

impl InterfaceError {
    /// The message of the error about the interface of this name.
    pub fn message(&self, name: &str) -> (r: String)
        ensures
            r@ == interface_message(*self, name@),
    {
        let rest = match self {
            InterfaceError::NotFound => "' not found",
            InterfaceError::NoMacAddress => "' has no MAC address",
            InterfaceError::NoIpv4Address => "' has no IPv4 address",
        };
        concat3("Interface '", name, rest)
    }
}

/// The IPv4 addresses among the addresses, in order.
fn ipv4_addresses(addresses: &Vec<Address>) -> (r: Vec<String>)
    ensures
        r.deep_view() == ipv4_among(addresses@),
{
    let mut out: Vec<String> = Vec::new();
    let mut i: usize = 0;
    assert(out.deep_view() =~= ipv4_among(addresses@.take(0)));
    while i < addresses.len()
        invariant
            i <= addresses.len(),
            out.deep_view() == ipv4_among(addresses@.take(i as int)),
        decreases addresses.len() - i,
    {
        let ghost before = out.deep_view();
        assert(addresses@.take(i + 1).drop_last() =~= addresses@.take(i as int));
        if addresses[i].is_ipv4 {
            out.push(addresses[i].ip.clone());
            assert(out.deep_view() =~= before.push(addresses[i as int].ip@));
        }
        i += 1;
    }
    assert(addresses@.take(i as int) =~= addresses@);
    out
}

/// The MAC address and the first IPv4 address of the interface of this name.
pub fn resolve_interface_details(all: &Vec<Interface>, interface_name: &str) -> (r: Result<
    InterfaceDetails,
    InterfaceError,
>)
    ensures
        match details_of(all@, interface_name@) {
            Ok((mac, address)) => r matches Ok(details) && details.mac@ == mac
                && details.address@ == address,
            Err(error) => r == Err::<InterfaceDetails, InterfaceError>(error),
        },
{
    let mut i: usize = 0;
    assert(all@.skip(0) =~= all@);
    while i < all.len()
        invariant
            i <= all.len(),
            interface_named(all@, interface_name@) == interface_named(
                all@.skip(i as int),
                interface_name@,
            ),
        decreases all.len() - i,
    {
        assert(all@.skip(i as int)[0] == all[i as int]);
        if same(all[i].name.as_str(), interface_name) {
            let addresses = ipv4_addresses(&all[i].addresses);
            let ghost listed = addresses.deep_view();
            return match &all[i].mac_addr {
                None => Err(InterfaceError::NoMacAddress),
                Some(mac) => if addresses.len() == 0 {
                    Err(InterfaceError::NoIpv4Address)
                } else {
                    assert(listed[0] == addresses[0]@);
                    Ok(InterfaceDetails { mac: mac.clone(), address: addresses[0].clone() })
                },
            };
        }
        assert(all@.skip(i as int).drop_first() =~= all@.skip(i + 1));
        i += 1;
    }
    Err(InterfaceError::NotFound)
}

/// Whether an interface of this name is the loopback or made by software.
pub open spec fn is_virtual(name: Seq<char>) -> bool {
    ||| name == "lo"@
    ||| "loop"@.is_prefix_of(name)
    ||| "veth"@.is_prefix_of(name)
    ||| "docker"@.is_prefix_of(name)
    ||| "br-"@.is_prefix_of(name)
    ||| "virbr"@.is_prefix_of(name)
    ||| "any"@.is_prefix_of(name)
    ||| "tun"@.is_prefix_of(name)
    ||| "tap"@.is_prefix_of(name)
}

/// Whether the interface can be offered to the user: a real one, with a MAC
/// address and an IPv4 address.
pub open spec fn is_usable(interface: Interface) -> bool {
    &&& !is_virtual(interface.name@)
    &&& interface.mac_addr is Some
    &&& ipv4_among(interface.addresses@).len() > 0
}

/// The interfaces that can be offered, in order.
pub open spec fn usable(all: Seq<Interface>) -> Seq<Interface>
    decreases all.len(),
{
    if all.len() == 0 {
        Seq::empty()
    } else if is_usable(all.last()) {
        usable(all.drop_last()).push(all.last())
    } else {
        usable(all.drop_last())
    }
}

/// The members that describe an interface.
pub open spec fn interface_members(interface: Interface) -> Members {
    let addresses = ipv4_among(interface.addresses@);
    no_members().insert("name"@, Json::Text(interface.name@)).insert(
        "mac_address"@,
        Json::Text(interface.mac_addr->0@),
    ).insert("ip_address"@, Json::Text(addresses[0])).insert("ip_addresses"@, texts(addresses))
}

/// Whether an interface of this name is the loopback or made by software.
fn has_virtual_name(name: &str) -> (r: bool)
    ensures
        r == is_virtual(name@),
{
    same(name, "lo") || starts_with(name, "loop") || starts_with(name, "veth") || starts_with(
        name,
        "docker",
    ) || starts_with(name, "br-") || starts_with(name, "virbr") || starts_with(name, "any")
        || starts_with(name, "tun") || starts_with(name, "tap")
}

/// Whether the interface can be offered to the user.
pub fn can_use(interface: &Interface) -> (r: bool)
    ensures
        r == is_usable(*interface),
{
    !has_virtual_name(interface.name.as_str()) && interface.mac_addr.is_some() && ipv4_addresses(
        &interface.addresses,
    ).len() > 0
}

/// What is told of an interface that can be offered.
fn describe(interface: &Interface) -> (r: Object)
    requires
        is_usable(*interface),
    ensures
        members(r) == interface_members(*interface),
{
    let addresses = ipv4_addresses(&interface.addresses);
    assert(addresses.deep_view()[0] == addresses[0]@);
    let mut object = new_object();
    set_text(&mut object, "name", interface.name.as_str());
    if let Some(mac) = &interface.mac_addr {
        set_text(&mut object, "mac_address", mac.as_str());
    }
    set_text(&mut object, "ip_address", addresses[0].as_str());
    set_texts(&mut object, "ip_addresses", &addresses);
    object
}

/// What is told of the interfaces that can be offered, in order.
pub fn get_network_interfaces(all: &Vec<Interface>) -> (r: Vec<Object>)
    ensures
        r@.map_values(|object: Object| members(object)) == usable(all@).map_values(
            |interface: Interface| interface_members(interface),
        ),
{
    let mut out: Vec<Object> = Vec::new();
    let mut i: usize = 0;
    let ghost told = |interface: Interface| interface_members(interface);
    let ghost held = |object: Object| members(object);
    assert(out@.map_values(held) =~= usable(all@.take(0)).map_values(told));
    while i < all.len()
        invariant
            i <= all.len(),
            told == |interface: Interface| interface_members(interface),
            held == |object: Object| members(object),
            out@.map_values(held) == usable(all@.take(i as int)).map_values(told),
        decreases all.len() - i,
    {
        let ghost before = out@;
        let ghost earlier = usable(all@.take(i as int));
        assert(all@.take(i + 1).drop_last() =~= all@.take(i as int));
        if can_use(&all[i]) {
            let object = describe(&all[i]);
            out.push(object);
            assert(out@.map_values(held) =~= before.map_values(held).push(members(object)));
            assert(earlier.push(all[i as int]).map_values(told) =~= earlier.map_values(told).push(
                interface_members(all[i as int]),
            ));
        }
        i += 1;
    }
    assert(all@.take(i as int) =~= all@);
    out
}

/// The first interface that can be offered.
pub fn first_usable(all: &Vec<Interface>) -> (r: Option<usize>)
    ensures
        match r {
            Some(i) => i < all.len() && usable(all@).len() > 0 && usable(all@)[0] == all[i as int],
            None => usable(all@).len() == 0,
        },
{
    let mut i: usize = 0;
    while i < all.len()
        invariant
            i <= all.len(),
            usable(all@.take(i as int)).len() == 0,
        decreases all.len() - i,
    {
        assert(all@.take(i + 1).drop_last() =~= all@.take(i as int));
        if can_use(&all[i]) {
            proof {
                usable_of_start(all@, i + 1);
                let some = usable(all@.take(i + 1));
                assert(some[0] == usable(all@).subrange(0, some.len() as int)[0]);
            }
            return Some(i);
        }
        i += 1;
    }
    assert(all@.take(i as int) =~= all@);
    None
}

/// An interface that is offered can be chosen: under its name, where no other
/// interface has that name, are found the addresses that were told of it.
pub proof fn offered_interface_resolves(all: Seq<Interface>, i: int)
    requires
        0 <= i < all.len(),
        is_usable(all[i]),
        forall|j: int| 0 <= j < all.len() && j != i ==> (#[trigger] all[j]).name@ != all[i].name@,
    ensures
        usable(all).contains(all[i]),
        details_of(all, all[i].name@) matches Ok((mac, address)) && interface_members(
            all[i],
        )["mac_address"@] == Json::Text(mac) && interface_members(all[i])["ip_address"@]
            == Json::Text(address),
{
    reveal_strlit("name");
    reveal_strlit("mac_address");
    reveal_strlit("ip_address");
    reveal_strlit("ip_addresses");
    assert("name"@.len() == 4);
    assert("mac_address"@.len() == 11);
    assert("ip_address"@.len() == 10);
    assert("ip_addresses"@.len() == 12);
    usable_is_offered(all, i);
    only_one_is_named(all, i);
}

proof fn usable_is_offered(all: Seq<Interface>, i: int)
    requires
        0 <= i < all.len(),
        is_usable(all[i]),
    ensures
        usable(all).contains(all[i]),
    decreases all.len(),
{
    let rest = usable(all.drop_last());
    if i == all.len() - 1 {
        assert(usable(all)[rest.len() as int] == all[i]);
    } else {
        usable_is_offered(all.drop_last(), i);
        let k = choose|k: int| 0 <= k < rest.len() && rest[k] == all.drop_last()[i];
        assert(usable(all)[k] == all[i]);
    }
}

proof fn only_one_is_named(all: Seq<Interface>, i: int)
    requires
        0 <= i < all.len(),
        forall|j: int| 0 <= j < all.len() && j != i ==> (#[trigger] all[j]).name@ != all[i].name@,
    ensures
        interface_named(all, all[i].name@) == Some(all[i]),
    decreases all.len(),
{
    if i > 0 {
        assert(all[0].name@ != all[i].name@);
        let rest = all.drop_first();
        assert forall|j: int| 0 <= j < rest.len() && j != i - 1 implies (#[trigger] rest[j]).name@
            != rest[i - 1].name@ by {
            assert(rest[j] == all[j + 1]);
        }
        only_one_is_named(rest, i - 1);
    }
}

proof fn usable_of_start(all: Seq<Interface>, n: int)
    requires
        0 <= n <= all.len(),
    ensures
        usable(all.take(n)).len() <= usable(all).len(),
        usable(all.take(n)).is_prefix_of(usable(all)),
    decreases all.len(),
{
    if n < all.len() {
        assert(all.drop_last().take(n) =~= all.take(n));
        usable_of_start(all.drop_last(), n);
        let some = usable(all.take(n));
        assert(usable(all.drop_last()).push(all.last()).subrange(0, some.len() as int) =~= usable(
            all.drop_last(),
        ).subrange(0, some.len() as int));
    } else {
        assert(all.take(n) =~= all);
        assert(usable(all).subrange(0, usable(all).len() as int) =~= usable(all));
    }
}

} // verus!
