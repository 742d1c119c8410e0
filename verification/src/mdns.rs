//! How the daemon makes itself known on the network.

use vstd::prelude::*;

use crate::config::{daemon_port, port_of, Config, ConfigModel};
use crate::text::concat;

verus! {

pub const SERVICE_TYPE: &'static str = "_grubstation._tcp.local.";

/// What the network is told of the daemon.
pub struct Advertisement {
    pub service_type: String,
    pub instance: String,
    pub host_name: String,
    pub address: String,
    pub port: u16,
    pub property: String,
    pub value: String,
}

/// What the network is told of the daemon.
pub struct AdvertisementModel {
    pub instance: Seq<char>,
    pub host_name: Seq<char>,
    pub address: Seq<char>,
    pub port: u16,
    pub paired: bool,
}

impl Advertisement {
    /// Whether the network is told this: the service of the daemon, with the
    /// property `paired`.
    pub open spec fn tells(&self, m: AdvertisementModel) -> bool {
        &&& self.service_type@ == SERVICE_TYPE@
        &&& self.instance@ == m.instance
        &&& self.host_name@ == m.host_name
        &&& self.address@ == m.address
        &&& self.port == m.port
        &&& self.property@ == "paired"@
        &&& self.value@ == if m.paired {
            "true"@
        } else {
            "false"@
        }
    }
}

/// The name of a host on the local network.
pub open spec fn local_name_of(hostname: Seq<char>) -> Seq<char> {
    hostname + ".local."@
}

/// The name of a host on the local network.
pub fn local_name(hostname: &str) -> (r: String)
    ensures
        r@ == local_name_of(hostname@),
{
    concat(hostname, ".local.")
}

/// What the network is told when the daemon starts.
pub open spec fn first_told(
    c: ConfigModel,
    address: Seq<char>,
    hostname: Seq<char>,
) -> AdvertisementModel {
    AdvertisementModel {
        instance: address,
        host_name: local_name_of(hostname),
        address,
        port: port_of(c),
        paired: false,
    }
}

/// What the network is told when the pairing has changed.
pub open spec fn told_of_pairing(
    instance: Seq<char>,
    host_name: Seq<char>,
    port: u16,
    paired: bool,
) -> AdvertisementModel {
    AdvertisementModel { instance, host_name, address: Seq::empty(), port, paired }
}

/// What the network is told when the daemon starts: it is not paired.
pub fn start_advertisement(config: &Config, address: &str, hostname: &str) -> (r: Advertisement)
    ensures
        r.tells(first_told(config@, address@, hostname@)),
{
    Advertisement {
        service_type: SERVICE_TYPE.to_string(),
        instance: address.to_string(),
        host_name: local_name(hostname),
        address: address.to_string(),
        port: daemon_port(config),
        property: "paired".to_string(),
        value: "false".to_string(),
    }
}

/// What the network is told when the pairing has changed.
pub fn advertise_pairing(instance: &str, host_name: &str, port: u16, paired: bool) -> (r:
    Advertisement)
    ensures
        r.tells(told_of_pairing(instance@, host_name@, port, paired)),
{
    Advertisement {
        service_type: SERVICE_TYPE.to_string(),
        instance: instance.to_string(),
        host_name: host_name.to_string(),
        address: String::new(),
        port,
        property: "paired".to_string(),
        value: if paired {
            "true".to_string()
        } else {
            "false".to_string()
        },
    }
}

} // verus!
