//! Which interface of the host is used, and how it is known.

use vstd::prelude::*;

use crate::net::{
    details_of, interface_message, interface_named, ipv4_among, is_usable, is_virtual, usable,
    Address, Interface, InterfaceError,
};

verus! {

/// The interface of a name is the first one that has it, whole, whatever stands
/// before and behind it; there is none where no interface has it.
pub proof fn first_of_the_name_is_taken(
    before: Seq<Interface>,
    interface: Interface,
    behind: Seq<Interface>,
    name: Seq<char>,
)
    requires
        forall|i: int| 0 <= i < before.len() ==> (#[trigger] before[i]).name@ != name,
    ensures
        interface.name@ == name ==> interface_named(before + seq![interface] + behind, name)
            == Some(interface),
        interface_named(before, name) is None,
    decreases before.len(),
{
    let all = before + seq![interface] + behind;
    if before.len() > 0 {
        let rest = before.drop_first();
        assert(all[0] == before[0]);
        assert forall|i: int| 0 <= i < rest.len() implies (#[trigger] rest[i]).name@ != name by {
            assert(rest[i] == before[i + 1]);
        }
        first_of_the_name_is_taken(rest, interface, behind, name);
        assert(all.drop_first() =~= rest + seq![interface] + behind);
    } else {
        assert(all[0] == interface);
    }
}

/// The IPv4 addresses are kept, whole and in order, and no others.
pub proof fn ipv4_addresses_are_kept_in_order(
    a: Seq<Address>,
    address: Address,
    b: Seq<Address>,
)
    ensures
        ipv4_among(Seq::empty()) == Seq::<Seq<char>>::empty(),
        address.is_ipv4 ==> ipv4_among(seq![address]) == seq![address.ip@],
        !address.is_ipv4 ==> ipv4_among(seq![address]) == Seq::<Seq<char>>::empty(),
        ipv4_among(a + b) == ipv4_among(a) + ipv4_among(b),
    decreases b.len(),
{
    let one = seq![address];
    assert(one.drop_last() =~= Seq::<Address>::empty());
    reveal_with_fuel(ipv4_among, 2);
    assert(ipv4_among(Seq::empty()) =~= Seq::<Seq<char>>::empty());
    if address.is_ipv4 {
        assert(ipv4_among(one) =~= seq![address.ip@]);
    }
    if b.len() > 0 {
        ipv4_addresses_are_kept_in_order(a, address, b.drop_last());
        assert((a + b).drop_last() =~= a + b.drop_last());
        assert((a + b).last() == b.last());
        assert(ipv4_among(a + b) =~= ipv4_among(a) + ipv4_among(b));
    } else {
        assert(a + b =~= a);
        assert(ipv4_among(a + b) =~= ipv4_among(a) + ipv4_among(b));
    }
}

/// The interfaces that can be offered are kept in order, and no others.
pub proof fn usable_interfaces_are_kept_in_order(
    a: Seq<Interface>,
    interface: Interface,
    b: Seq<Interface>,
)
    ensures
        usable(Seq::empty()) == Seq::<Interface>::empty(),
        is_usable(interface) ==> usable(seq![interface]) == seq![interface],
        !is_usable(interface) ==> usable(seq![interface]) == Seq::<Interface>::empty(),
        usable(a + b) == usable(a) + usable(b),
    decreases b.len(),
{
    let one = seq![interface];
    assert(one.drop_last() =~= Seq::<Interface>::empty());
    reveal_with_fuel(usable, 2);
    assert(usable(Seq::empty()) =~= Seq::<Interface>::empty());
    if is_usable(interface) {
        assert(usable(one) =~= seq![interface]);
    }
    if b.len() > 0 {
        usable_interfaces_are_kept_in_order(a, interface, b.drop_last());
        assert((a + b).drop_last() =~= a + b.drop_last());
        assert((a + b).last() == b.last());
        assert(usable(a + b) =~= usable(a) + usable(b));
    } else {
        assert(a + b =~= a);
        assert(usable(a + b) =~= usable(a) + usable(b));
    }
}

/// Whether the text starts with these characters.
pub open spec fn starts(s: Seq<char>, with: Seq<char>) -> bool {
    s.len() >= with.len() && forall|i: int| 0 <= i < with.len() ==> s[i] == #[trigger] with[i]
}

proof fn prefix_by_characters(s: Seq<char>, with: Seq<char>)
    ensures
        with.is_prefix_of(s) <==> starts(s, with),
{
    if with.is_prefix_of(s) {
        assert forall|i: int| 0 <= i < with.len() implies s[i] == #[trigger] with[i] by {
            assert(s.subrange(0, with.len() as int)[i] == s[i]);
        }
    }
    if starts(s, with) {
        assert(s.subrange(0, with.len() as int) =~= with);
    }
}

/// An interface is made by software exactly where its name says so.
pub proof fn software_interfaces_are_known_by_name(name: Seq<char>)
    ensures
        is_virtual(name) <==> (name == seq!['l', 'o'] || starts(name, seq!['l', 'o', 'o', 'p'])
            || starts(name, seq!['v', 'e', 't', 'h']) || starts(
            name,
            seq!['d', 'o', 'c', 'k', 'e', 'r'],
        ) || starts(name, seq!['b', 'r', '-']) || starts(name, seq!['v', 'i', 'r', 'b', 'r'])
            || starts(name, seq!['a', 'n', 'y']) || starts(name, seq!['t', 'u', 'n']) || starts(
            name,
            seq!['t', 'a', 'p'],
        )),
{
    reveal_strlit("lo");
    reveal_strlit("loop");
    reveal_strlit("veth");
    reveal_strlit("docker");
    reveal_strlit("br-");
    reveal_strlit("virbr");
    reveal_strlit("any");
    reveal_strlit("tun");
    reveal_strlit("tap");
    assert("lo"@ =~= seq!['l', 'o']);
    assert("loop"@ =~= seq!['l', 'o', 'o', 'p']);
    assert("veth"@ =~= seq!['v', 'e', 't', 'h']);
    assert("docker"@ =~= seq!['d', 'o', 'c', 'k', 'e', 'r']);
    assert("br-"@ =~= seq!['b', 'r', '-']);
    assert("virbr"@ =~= seq!['v', 'i', 'r', 'b', 'r']);
    assert("any"@ =~= seq!['a', 'n', 'y']);
    assert("tun"@ =~= seq!['t', 'u', 'n']);
    assert("tap"@ =~= seq!['t', 'a', 'p']);
    prefix_by_characters(name, "loop"@);
    prefix_by_characters(name, "veth"@);
    prefix_by_characters(name, "docker"@);
    prefix_by_characters(name, "br-"@);
    prefix_by_characters(name, "virbr"@);
    prefix_by_characters(name, "any"@);
    prefix_by_characters(name, "tun"@);
    prefix_by_characters(name, "tap"@);
}

proof fn some_is_ipv4(addresses: Seq<Address>)
    ensures
        ipv4_among(addresses).len() > 0 <==> exists|i: int|
            0 <= i < addresses.len() && (#[trigger] addresses[i]).is_ipv4,
    decreases addresses.len(),
{
    if addresses.len() > 0 {
        let before = addresses.drop_last();
        some_is_ipv4(before);
        if ipv4_among(addresses).len() > 0 {
            if addresses.last().is_ipv4 {
                assert(addresses[addresses.len() - 1].is_ipv4);
            } else {
                let i = choose|i: int| 0 <= i < before.len() && (#[trigger] before[i]).is_ipv4;
                assert(addresses[i].is_ipv4);
            }
        }
        if exists|i: int| 0 <= i < addresses.len() && (#[trigger] addresses[i]).is_ipv4 {
            let i = choose|i: int| 0 <= i < addresses.len() && (#[trigger] addresses[i]).is_ipv4;
            if i < before.len() {
                assert(before[i].is_ipv4);
            }
        }
    }
}

/// An interface can be offered exactly where it is real, has a MAC address, and
/// one of its addresses is of IPv4.
pub proof fn offered_interfaces_are_real_and_reachable(interface: Interface)
    ensures
        is_usable(interface) <==> !is_virtual(interface.name@) && interface.mac_addr is Some
            && exists|i: int|
            0 <= i < interface.addresses@.len() && (#[trigger] interface.addresses@[i]).is_ipv4,
{
    some_is_ipv4(interface.addresses@);
}

proof fn first_ipv4_leads(before: Seq<Address>, address: Address, behind: Seq<Address>)
    requires
        forall|i: int| 0 <= i < before.len() ==> !(#[trigger] before[i]).is_ipv4,
        address.is_ipv4,
    ensures
        ipv4_among(before + seq![address] + behind).len() > 0,
        ipv4_among(before + seq![address] + behind)[0] == address.ip@,
{
    some_is_ipv4(before);
    ipv4_addresses_are_kept_in_order(before, address, seq![address]);
    ipv4_addresses_are_kept_in_order(before + seq![address], address, behind);
}

/// A host is known by the MAC address of its interface and the first of its IPv4
/// addresses, whatever stands before and behind them.
pub proof fn host_is_known_by_its_interface(
    all: Seq<Interface>,
    name: Seq<char>,
    before: Seq<Address>,
    address: Address,
    behind: Seq<Address>,
)
    requires
        interface_named(all, name) is Some,
        interface_named(all, name)->0.mac_addr is Some,
        interface_named(all, name)->0.addresses@ == before + seq![address] + behind,
        forall|i: int| 0 <= i < before.len() ==> !(#[trigger] before[i]).is_ipv4,
        address.is_ipv4,
    ensures
        details_of(all, name) == Ok::<(Seq<char>, Seq<char>), InterfaceError>(
            (interface_named(all, name)->0.mac_addr->0@, address.ip@),
        ),
{
    first_ipv4_leads(before, address, behind);
}

/// Why a host is not known: there is no interface of the name, or the interface
/// has no MAC address, or it has one but no IPv4 address.
pub proof fn unknown_hosts_are_told_apart(all: Seq<Interface>, name: Seq<char>)
    ensures
        details_of(all, name) == Err::<(Seq<char>, Seq<char>), InterfaceError>(
            InterfaceError::NotFound,
        ) <==> forall|i: int| 0 <= i < all.len() ==> (#[trigger] all[i]).name@ != name,
        details_of(all, name) == Err::<(Seq<char>, Seq<char>), InterfaceError>(
            InterfaceError::NoMacAddress,
        ) <==> interface_named(all, name) is Some && interface_named(all, name)->0.mac_addr is None,
        details_of(all, name) == Err::<(Seq<char>, Seq<char>), InterfaceError>(
            InterfaceError::NoIpv4Address,
        ) <==> interface_named(all, name) is Some && interface_named(all, name)->0.mac_addr is Some
            && forall|i: int|
            0 <= i < interface_named(all, name)->0.addresses@.len() ==> !(
            #[trigger] interface_named(all, name)->0.addresses@[i]).is_ipv4,
{
    named_is_one_of_them(all, name);
    if interface_named(all, name) is Some {
        some_is_ipv4(interface_named(all, name)->0.addresses@);
    }
}

proof fn named_is_one_of_them(all: Seq<Interface>, name: Seq<char>)
    ensures
        interface_named(all, name) is None <==> forall|i: int|
            0 <= i < all.len() ==> (#[trigger] all[i]).name@ != name,
    decreases all.len(),
{
    if all.len() > 0 {
        let rest = all.drop_first();
        named_is_one_of_them(rest, name);
        if forall|i: int| 0 <= i < rest.len() ==> (#[trigger] rest[i]).name@ != name {
            assert forall|i: int| 0 <= i < all.len() && i > 0 implies (#[trigger] all[i]).name@
                != name by {
                assert(rest[i - 1] == all[i]);
            }
        }
        if forall|i: int| 0 <= i < all.len() ==> (#[trigger] all[i]).name@ != name {
            assert(all[0].name@ != name);
            assert forall|i: int| 0 <= i < rest.len() implies (#[trigger] rest[i]).name@
                != name by {
                assert(rest[i] == all[i + 1]);
            }
        }
    }
}

/// An error about an interface gives its whole name, in quotes, and what it lacks.
pub proof fn errors_name_the_interface(name: Seq<char>)
    ensures
        interface_message(InterfaceError::NotFound, name) == "Interface '"@ + name + "' not found"@,
        interface_message(InterfaceError::NoMacAddress, name) == "Interface '"@ + name
            + "' has no MAC address"@,
        interface_message(InterfaceError::NoIpv4Address, name) == "Interface '"@ + name
            + "' has no IPv4 address"@,
{
}

} // verus!
