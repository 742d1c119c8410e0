//! The configuration file: its sections, its defaults and its rules.

use vstd::prelude::*;

use crate::text::{chars_of, decimal, decimal_is_digits, digit, is_digit};

verus! {

pub const DEFAULT_BROADCAST_ADDRESS: &'static str = "255.255.255.255";

pub const DEFAULT_BROADCAST_PORT: u16 = 9;

pub const DEFAULT_DAEMON_PORT: u16 = 8081;

pub const DEFAULT_NETWORK_WAIT: u32 = 10;

/// Where GRUB keeps its configuration, the likelier place first.
pub const DEFAULT_GRUB_PATHS: [&'static str; 2] = ["/boot/grub/grub.cfg", "/boot/grub2/grub.cfg"];

pub const MIN_BROADCAST_PORT: u16 = 1;

pub const MIN_PORT: u16 = 1025;

pub const MAX_NETWORK_WAIT: u32 = 300;

/// The configuration of one host.
pub struct Config {
    pub host: HostConfig,
    pub daemon: Option<DaemonConfig>,
    pub wake_on_lan: Option<WakeOnLanConfig>,
    pub grub: Option<GrubConfig>,
    pub webhook_id: Option<String>,
    pub api_key: Option<String>,
    pub ha_daemon_url: Option<String>,
    pub ha_grub_url: Option<String>,
}

/// The host's own network interface.
pub struct HostConfig {
    pub interface: String,
}

/// Where the daemon listens.
pub struct DaemonConfig {
    pub port: u16,
}

/// Where wake-up packets go.
pub struct WakeOnLanConfig {
    pub broadcast_address: String,
    pub broadcast_port: u16,
}

/// The GRUB configuration file, and how GRUB reaches the network.
pub struct GrubConfig {
    pub path: String,
    pub network_wait: u32,
    pub webhook_id: String,
}

/// What a `WakeOnLanConfig` says.
pub struct WakeOnLanModel {
    pub broadcast_address: Seq<char>,
    pub broadcast_port: u16,
}

/// What a `GrubConfig` says.
pub struct GrubModel {
    pub path: Seq<char>,
    pub network_wait: u32,
    pub webhook_id: Seq<char>,
}

/// What a `Config` says.
pub struct ConfigModel {
    pub interface: Seq<char>,
    pub daemon_port: Option<u16>,
    pub wake_on_lan: Option<WakeOnLanModel>,
    pub grub: Option<GrubModel>,
    pub webhook_id: Option<Seq<char>>,
    pub api_key: Option<Seq<char>>,
    pub ha_daemon_url: Option<Seq<char>>,
    pub ha_grub_url: Option<Seq<char>>,
}

impl View for WakeOnLanConfig {
    type V = WakeOnLanModel;

    open spec fn view(&self) -> WakeOnLanModel {
        WakeOnLanModel {
            broadcast_address: self.broadcast_address@,
            broadcast_port: self.broadcast_port,
        }
    }
}

impl View for GrubConfig {
    type V = GrubModel;

    open spec fn view(&self) -> GrubModel {
        GrubModel {
            path: self.path@,
            network_wait: self.network_wait,
            webhook_id: self.webhook_id@,
        }
    }
}

impl View for Config {
    type V = ConfigModel;

    open spec fn view(&self) -> ConfigModel {
        ConfigModel {
            interface: self.host.interface@,
            daemon_port: match self.daemon {
                Some(daemon) => Some(daemon.port),
                None => None,
            },
            wake_on_lan: match self.wake_on_lan {
                Some(wake) => Some(wake@),
                None => None,
            },
            grub: match self.grub {
                Some(grub) => Some(grub@),
                None => None,
            },
            webhook_id: self.webhook_id.deep_view(),
            api_key: self.api_key.deep_view(),
            ha_daemon_url: self.ha_daemon_url.deep_view(),
            ha_grub_url: self.ha_grub_url.deep_view(),
        }
    }
}

/// Four numbers with dots in between.
pub open spec fn dotted(a: nat, b: nat, c: nat, d: nat) -> Seq<char> {
    decimal(a) + seq!['.'] + decimal(b) + seq!['.'] + decimal(c) + seq!['.'] + decimal(d)
}

/// Whether the text is an IPv4 address: four bytes in decimal, with dots in between.
pub open spec fn is_ipv4(s: Seq<char>) -> bool {
    exists|a: nat, b: nat, c: nat, d: nat|
        a < 256 && b < 256 && c < 256 && d < 256 && s == #[trigger] dotted(a, b, c, d)
}

/// Whether the text is a byte in decimal.
spec fn is_octet(s: Seq<char>) -> bool {
    exists|n: nat| n < 256 && s == #[trigger] decimal(n)
}

/// The decimal forms of the numbers below one thousand.
proof fn decimal_forms(n: nat)
    requires
        n < 1000,
    ensures
        n < 10 ==> decimal(n) == seq![digit(n)],
        10 <= n < 100 ==> decimal(n) == seq![digit(n / 10), digit(n % 10)],
        100 <= n ==> decimal(n) == seq![digit(n / 100), digit(n / 10 % 10), digit(n % 10)],
{
    reveal_with_fuel(decimal, 3);
    if n < 10 {
    } else if n < 100 {
        assert(decimal(n) =~= seq![digit(n / 10), digit(n % 10)]);
    } else {
        assert(n / 10 / 10 == n / 100);
        assert(decimal(n) =~= seq![digit(n / 100), digit(n / 10 % 10), digit(n % 10)]);
    }
}

proof fn decimal_digits(n: nat)
    requires
        n < 256,
    ensures
        1 <= decimal(n).len() <= 3,
        forall|i: int| 0 <= i < decimal(n).len() ==> is_digit(#[trigger] decimal(n)[i]),
{
    decimal_forms(n);
    decimal_is_digits(n);
}

/// The number that a digit stands for.
spec fn worth(c: char) -> int {
    c as int - '0' as int
}

/// What a byte in decimal looks like: one to three digits, no zero in front of
/// another digit, and at most 255 in all.
spec fn looks_like_octet(s: Seq<char>) -> bool {
    ||| s.len() == 1
    ||| s.len() == 2 && s[0] != '0'
    ||| s.len() == 3 && s[0] != '0' && worth(s[0]) * 100 + worth(s[1]) * 10 + worth(s[2]) < 256
}

proof fn octet_looks(n: nat)
    requires
        n < 256,
    ensures
        looks_like_octet(decimal(n)),
{
    decimal_forms(n);
    if n >= 100 {
        let s = decimal(n);
        assert(worth(s[0]) == n / 100);
        assert(worth(s[1]) == n / 10 % 10);
        assert(worth(s[2]) == n % 10);
    }
}

proof fn looks_octet(s: Seq<char>)
    requires
        looks_like_octet(s),
        forall|i: int| 0 <= i < s.len() ==> is_digit(#[trigger] s[i]),
    ensures
        is_octet(s),
{
    let x = worth(s[0]);
    assert(is_digit(s[0]));
    if s.len() == 1 {
        decimal_forms(x as nat);
        assert(s =~= decimal(x as nat));
    } else if s.len() == 2 {
        let y = worth(s[1]);
        let n = (x * 10 + y) as nat;
        assert(is_digit(s[1]));
        decimal_forms(n);
        assert(n / 10 == x && n % 10 == y);
        assert(s =~= decimal(n));
    } else {
        let y = worth(s[1]);
        let z = worth(s[2]);
        let n = (x * 100 + y * 10 + z) as nat;
        assert(is_digit(s[1]) && is_digit(s[2]));
        decimal_forms(n);
        assert(n / 100 == x && n / 10 % 10 == y && n % 10 == z);
        assert(s =~= decimal(n));
    }
}

proof fn octet_is_what_looks_like_it(s: Seq<char>)
    requires
        forall|i: int| 0 <= i < s.len() ==> is_digit(#[trigger] s[i]),
    ensures
        is_octet(s) == looks_like_octet(s),
{
    if is_octet(s) {
        octet_looks(choose|n: nat| n < 256 && s == #[trigger] decimal(n));
    }
    if looks_like_octet(s) {
        looks_octet(s);
    }
}

/// Whether the digits from `from` up to `to` are a byte in decimal.
fn octet(v: &Vec<char>, from: usize, to: usize) -> (r: bool)
    requires
        from <= to <= v.len(),
        forall|i: int| from <= i < to ==> is_digit(#[trigger] v[i]),
    ensures
        r == is_octet(v@.subrange(from as int, to as int)),
{
    proof {
        let s = v@.subrange(from as int, to as int);
        assert forall|i: int| 0 <= i < s.len() implies is_digit(#[trigger] s[i]) by {
            assert(s[i] == v[from + i]);
        }
        octet_is_what_looks_like_it(s);
    }
    if to - from == 1 {
        true
    } else if to - from == 2 {
        v[from] != '0'
    } else if to - from == 3 {
        assert(is_digit(v[from as int]) && is_digit(v[from + 1]) && is_digit(v[from + 2]));
        let hundreds: u32 = v[from] as u32 - 48;
        let tens: u32 = v[from + 1] as u32 - 48;
        let ones: u32 = v[from + 2] as u32 - 48;
        v[from] != '0' && hundreds * 100 + tens * 10 + ones < 256
    } else {
        false
    }
}

/// Where the digits that start at `from` end.
fn digits_end(v: &Vec<char>, from: usize) -> (r: usize)
    requires
        from <= v.len(),
    ensures
        from <= r <= v.len(),
        forall|i: int| from <= i < r ==> is_digit(#[trigger] v[i]),
        r < v.len() ==> !is_digit(v[r as int]),
{
    let mut i: usize = from;
    while i < v.len() && '0' <= v[i] && v[i] <= '9'
        invariant
            from <= i <= v.len(),
            forall|j: int| from <= j < i ==> is_digit(#[trigger] v[j]),
        decreases v.len() - i,
    {
        i += 1;
    }
    i
}

/// Where the four bytes of an address stand in its text.
spec fn split_at_dots(s: Seq<char>, p: int, q: int, r: int) -> bool {
    &&& 0 <= p < q < r < s.len()
    &&& s[p] == '.'
    &&& s[q] == '.'
    &&& s[r] == '.'
    &&& is_octet(s.subrange(0, p))
    &&& is_octet(s.subrange(p + 1, q))
    &&& is_octet(s.subrange(q + 1, r))
    &&& is_octet(s.subrange(r + 1, s.len() as int))
    &&& forall|i: int| 0 <= i < s.len() && i != p && i != q && i != r ==> is_digit(#[trigger] s[i])
}

proof fn dots_of_address(a: nat, b: nat, c: nat, d: nat)
    requires
        a < 256,
        b < 256,
        c < 256,
        d < 256,
    ensures
        exists|p: int, q: int, r: int| split_at_dots(dotted(a, b, c, d), p, q, r),
{
    decimal_digits(a);
    decimal_digits(b);
    decimal_digits(c);
    decimal_digits(d);
    let s = dotted(a, b, c, d);
    let p = decimal(a).len() as int;
    let q = p + 1 + decimal(b).len();
    let r = q + 1 + decimal(c).len();
    assert(s.subrange(0, p) =~= decimal(a));
    assert(s.subrange(p + 1, q) =~= decimal(b));
    assert(s.subrange(q + 1, r) =~= decimal(c));
    assert(s.subrange(r + 1, s.len() as int) =~= decimal(d));
    assert forall|i: int| 0 <= i < s.len() && i != p && i != q && i != r implies is_digit(
        #[trigger] s[i],
    ) by {
        if i < p {
            assert(s[i] == decimal(a)[i]);
        } else if i < q {
            assert(s[i] == decimal(b)[i - p - 1]);
        } else if i < r {
            assert(s[i] == decimal(c)[i - q - 1]);
        } else {
            assert(s[i] == decimal(d)[i - r - 1]);
        }
    }
    assert(split_at_dots(s, p, q, r));
}

proof fn address_of_dots(s: Seq<char>, p: int, q: int, r: int)
    requires
        split_at_dots(s, p, q, r),
    ensures
        is_ipv4(s),
{
    let a = choose|n: nat| n < 256 && s.subrange(0, p) == #[trigger] decimal(n);
    let b = choose|n: nat| n < 256 && s.subrange(p + 1, q) == #[trigger] decimal(n);
    let c = choose|n: nat| n < 256 && s.subrange(q + 1, r) == #[trigger] decimal(n);
    let d = choose|n: nat| n < 256 && s.subrange(r + 1, s.len() as int) == #[trigger] decimal(n);
    assert(s =~= dotted(a, b, c, d));
}

/// Whether the text is an IPv4 address.
fn reads_as_ipv4(address: &str) -> (r: bool)
    ensures
        r == is_ipv4(address@),
{
    let v = chars_of(address);
    let ghost s = address@;
    proof {
        if is_ipv4(s) {
            let (a, b, c, d) = choose|a: nat, b: nat, c: nat, d: nat|
                a < 256 && b < 256 && c < 256 && d < 256 && s == #[trigger] dotted(a, b, c, d);
            dots_of_address(a, b, c, d);
        }
    }
    let p = digits_end(&v, 0);
    if p == v.len() || v[p] != '.' || !octet(&v, 0, p) {
        return false;
    }
    let q = digits_end(&v, p + 1);
    if q == v.len() || v[q] != '.' || !octet(&v, p + 1, q) {
        return false;
    }
    let r = digits_end(&v, q + 1);
    if r == v.len() || v[r] != '.' || !octet(&v, q + 1, r) {
        return false;
    }
    let end = digits_end(&v, r + 1);
    if end < v.len() || !octet(&v, r + 1, end) {
        return false;
    }
    proof {
        if is_octet(s.subrange(r + 1, s.len() as int)) {
            let last = s.subrange(r + 1, s.len() as int);
            let n = choose|n: nat| n < 256 && last == #[trigger] decimal(n);
            decimal_digits(n);
        }
        assert(split_at_dots(s, p as int, q as int, r as int));
        address_of_dots(s, p as int, q as int, r as int);
    }
    true
}

/// A rule of the configuration that does not hold.
#[derive(Clone, Copy, Debug, PartialEq, Eq, Structural)]
pub enum FieldError {
    /// The interface has no name.
    EmptyInterface,
    /// The daemon's port is reserved.
    DaemonPort,
    /// The broadcast address is no IPv4 address.
    BroadcastAddress,
    /// The broadcast port is zero.
    BroadcastPort,
    /// There is no file at the path of the GRUB configuration.
    GrubFile,
    /// GRUB is to wait too long for the network.
    NetworkWait,
}

/// The field that breaks the rule.
pub open spec fn field_of(rule: FieldError) -> Seq<char> {
    match rule {
        FieldError::EmptyInterface => "host.interface"@,
        FieldError::DaemonPort => "daemon.port"@,
        FieldError::BroadcastAddress => "wake_on_lan.broadcast_address"@,
        FieldError::BroadcastPort => "wake_on_lan.broadcast_port"@,
        FieldError::GrubFile => "grub.path"@,
        FieldError::NetworkWait => "grub.network_wait"@,
    }
}

/// The rule that the field breaks.
pub open spec fn code_of(rule: FieldError) -> Seq<char> {
    match rule {
        FieldError::EmptyInterface => "length"@,
        FieldError::DaemonPort => "range"@,
        FieldError::BroadcastAddress => "invalid_ipv4"@,
        FieldError::BroadcastPort => "range"@,
        FieldError::GrubFile => "file_not_found"@,
        FieldError::NetworkWait => "range"@,
    }
}

impl FieldError {
    /// The field that breaks the rule.
    pub fn field(&self) -> (r: &'static str)
        ensures
            r@ == field_of(*self),
    {
        match self {
            FieldError::EmptyInterface => "host.interface",
            FieldError::DaemonPort => "daemon.port",
            FieldError::BroadcastAddress => "wake_on_lan.broadcast_address",
            FieldError::BroadcastPort => "wake_on_lan.broadcast_port",
            FieldError::GrubFile => "grub.path",
            FieldError::NetworkWait => "grub.network_wait",
        }
    }

    /// The rule that the field breaks.
    pub fn code(&self) -> (r: &'static str)
        ensures
            r@ == code_of(*self),
    {
        match self {
            FieldError::EmptyInterface => "length",
            FieldError::DaemonPort => "range",
            FieldError::BroadcastAddress => "invalid_ipv4",
            FieldError::BroadcastPort => "range",
            FieldError::GrubFile => "file_not_found",
            FieldError::NetworkWait => "range",
        }
    }
}

/// Whether the configuration breaks the rule, where `grub_file_present` says
/// whether there is a file at the path of its GRUB configuration.
pub open spec fn breaks(c: ConfigModel, grub_file_present: bool, rule: FieldError) -> bool {
    match rule {
        FieldError::EmptyInterface => c.interface.len() == 0,
        FieldError::DaemonPort => c.daemon_port is Some && c.daemon_port->0 < MIN_PORT,
        FieldError::BroadcastAddress => c.wake_on_lan is Some && !is_ipv4(
            c.wake_on_lan->0.broadcast_address,
        ),
        FieldError::BroadcastPort => c.wake_on_lan is Some && c.wake_on_lan->0.broadcast_port
            < MIN_BROADCAST_PORT,
        FieldError::GrubFile => c.grub is Some && !grub_file_present,
        FieldError::NetworkWait => c.grub is Some && c.grub->0.network_wait > MAX_NETWORK_WAIT,
    }
}

/// All the rules, in the order of the fields.
pub open spec fn all_rules() -> Seq<FieldError> {
    seq![
        FieldError::EmptyInterface,
        FieldError::DaemonPort,
        FieldError::BroadcastAddress,
        FieldError::BroadcastPort,
        FieldError::GrubFile,
        FieldError::NetworkWait,
    ]
}

/// The rules that the configuration breaks, in the order of the fields.
pub open spec fn broken_rules(c: ConfigModel, grub_file_present: bool) -> Seq<FieldError> {
    all_rules().filter(|rule: FieldError| breaks(c, grub_file_present, rule))
}

/// What is found of a text that is to be an IPv4 address.
pub open spec fn address_check(address: Seq<char>) -> Result<(), FieldError> {
    if is_ipv4(address) {
        Ok(())
    } else {
        Err(FieldError::BroadcastAddress)
    }
}

/// What is found of the path of the GRUB configuration.
pub open spec fn file_check(exists: bool, is_file: bool) -> Result<(), FieldError> {
    if exists && is_file {
        Ok(())
    } else {
        Err(FieldError::GrubFile)
    }
}

/// Checks that the text is an IPv4 address.
pub fn validate_ipv4(address: &str) -> (r: Result<(), FieldError>)
    ensures
        r == address_check(address@),
{
    if reads_as_ipv4(address) {
        Ok(())
    } else {
        Err(FieldError::BroadcastAddress)
    }
}

/// Checks that there is a file at the path of the GRUB configuration.
pub fn validate_file_exists(exists: bool, is_file: bool) -> (r: Result<(), FieldError>)
    ensures
        r == file_check(exists, is_file),
{
    if exists && is_file {
        Ok(())
    } else {
        Err(FieldError::GrubFile)
    }
}

/// How long GRUB waits for the network where the configuration does not say.
pub fn default_network_wait() -> (r: u32)
    ensures
        r == DEFAULT_NETWORK_WAIT,
{
    DEFAULT_NETWORK_WAIT
}

proof fn filter_step(rules: Seq<FieldError>, rule: FieldError, keep: spec_fn(FieldError) -> bool)
    ensures
        rules.push(rule).filter(keep) == if keep(rule) {
            rules.filter(keep).push(rule)
        } else {
            rules.filter(keep)
        },
{
    reveal(Seq::filter);
    assert(rules.push(rule).drop_last() =~= rules);
}

/// A configuration is valid exactly where it breaks none of the rules.
pub proof fn valid_breaks_no_rule(c: ConfigModel, grub_file_present: bool)
    ensures
        broken_rules(c, grub_file_present).len() == 0 <==> forall|rule: FieldError|
            !breaks(c, grub_file_present, rule),
{
    let keep = |rule: FieldError| breaks(c, grub_file_present, rule);
    let broken = broken_rules(c, grub_file_present);
    if broken.len() == 0 {
        assert forall|rule: FieldError| !breaks(c, grub_file_present, rule) by {
            if keep(rule) {
                let rules = all_rules();
                assert(rules[0] is EmptyInterface && rules[1] is DaemonPort);
                assert(rules[2] is BroadcastAddress && rules[3] is BroadcastPort);
                assert(rules[4] is GrubFile && rules[5] is NetworkWait);
                assert(rules.contains(rule));
                let i = choose|i: int| 0 <= i < rules.len() && rules[i] == rule;
                rules.lemma_filter_contains(keep, i);
            }
        }
    }
    if broken.len() > 0 {
        all_rules().lemma_filter_pred(keep, 0);
    }
}

/// Whether this is what checking the configuration gives: the rules that it
/// breaks, if there are any.
pub open spec fn validates(
    c: ConfigModel,
    grub_file_present: bool,
    r: Result<(), Vec<FieldError>>,
) -> bool {
    match r {
        Ok(()) => broken_rules(c, grub_file_present).len() == 0,
        Err(rules) => rules@ == broken_rules(c, grub_file_present) && rules@.len() > 0,
    }
}

impl Config {
    /// Checks every rule of the configuration, where `grub_file_present` says
    /// whether there is a file at the path of its GRUB configuration.
    pub fn validate(&self, grub_file_present: bool) -> (r: Result<(), Vec<FieldError>>)
        ensures
            validates(self@, grub_file_present, r),
    {
        let ghost keep = |rule: FieldError| breaks(self@, grub_file_present, rule);
        let mut rules: Vec<FieldError> = Vec::new();
        proof {
            reveal(Seq::filter);
            assert(Seq::<FieldError>::empty().filter(keep) =~= rules@);
        }
        let ghost seen = Seq::<FieldError>::empty();
        if self.host.interface.as_str().is_empty() {
            rules.push(FieldError::EmptyInterface);
        }
        proof {
            filter_step(seen, FieldError::EmptyInterface, keep);
        }
        let ghost seen = seen.push(FieldError::EmptyInterface);
        assert(rules@ =~= seen.filter(keep));
        if let Some(daemon) = &self.daemon {
            if daemon.port < MIN_PORT {
                rules.push(FieldError::DaemonPort);
            }
        }
        proof {
            filter_step(seen, FieldError::DaemonPort, keep);
        }
        let ghost seen = seen.push(FieldError::DaemonPort);
        assert(rules@ =~= seen.filter(keep));
        if let Some(wake) = &self.wake_on_lan {
            if let Err(rule) = validate_ipv4(wake.broadcast_address.as_str()) {
                rules.push(rule);
            }
        }
        proof {
            filter_step(seen, FieldError::BroadcastAddress, keep);
        }
        let ghost seen = seen.push(FieldError::BroadcastAddress);
        assert(rules@ =~= seen.filter(keep));
        if let Some(wake) = &self.wake_on_lan {
            if wake.broadcast_port < MIN_BROADCAST_PORT {
                rules.push(FieldError::BroadcastPort);
            }
        }
        proof {
            filter_step(seen, FieldError::BroadcastPort, keep);
        }
        let ghost seen = seen.push(FieldError::BroadcastPort);
        assert(rules@ =~= seen.filter(keep));
        if let Some(grub) = &self.grub {
            if !grub_file_present {
                rules.push(FieldError::GrubFile);
            }
        }
        proof {
            filter_step(seen, FieldError::GrubFile, keep);
        }
        let ghost seen = seen.push(FieldError::GrubFile);
        assert(rules@ =~= seen.filter(keep));
        if let Some(grub) = &self.grub {
            if grub.network_wait > MAX_NETWORK_WAIT {
                rules.push(FieldError::NetworkWait);
            }
        }
        proof {
            filter_step(seen, FieldError::NetworkWait, keep);
            assert(seen.push(FieldError::NetworkWait) =~= all_rules());
        }
        if rules.len() == 0 {
            Ok(())
        } else {
            Err(rules)
        }
    }
}

/// A copy of an optional text.
pub fn copy_text(text: &Option<String>) -> (r: Option<String>)
    ensures
        r == *text,
{
    match text {
        Some(text) => Some(text.clone()),
        None => None,
    }
}

impl Clone for GrubConfig {
    fn clone(&self) -> (r: GrubConfig)
        ensures
            r == *self,
    {
        GrubConfig {
            path: self.path.clone(),
            network_wait: self.network_wait,
            webhook_id: self.webhook_id.clone(),
        }
    }
}

impl Clone for Config {
    fn clone(&self) -> (r: Config)
        ensures
            r == *self,
    {
        Config {
            host: HostConfig { interface: self.host.interface.clone() },
            daemon: match &self.daemon {
                Some(daemon) => Some(DaemonConfig { port: daemon.port }),
                None => None,
            },
            wake_on_lan: match &self.wake_on_lan {
                Some(wake) => Some(
                    WakeOnLanConfig {
                        broadcast_address: wake.broadcast_address.clone(),
                        broadcast_port: wake.broadcast_port,
                    },
                ),
                None => None,
            },
            grub: match &self.grub {
                Some(grub) => Some(grub.clone()),
                None => None,
            },
            webhook_id: copy_text(&self.webhook_id),
            api_key: copy_text(&self.api_key),
            ha_daemon_url: copy_text(&self.ha_daemon_url),
            ha_grub_url: copy_text(&self.ha_grub_url),
        }
    }
}

/// A section of the configuration file.
pub enum Section<T> {
    /// The file does not mention the section.
    Absent,
    /// The file says that there is none.
    Null,
    /// The file gives it.
    Given(T),
}

/// The section `daemon`, as the file gives it.
pub struct DaemonSection {
    pub port: Option<u16>,
}

/// The section `wake_on_lan`, as the file gives it.
pub struct WakeOnLanSection {
    pub broadcast_address: Option<String>,
    pub broadcast_port: Option<u16>,
}

/// The section `grub`, as the file gives it.
pub struct GrubSection {
    pub path: String,
    pub network_wait: Option<u32>,
    pub webhook_id: Option<String>,
}

/// The configuration file, before defaults are filled in.
pub struct ConfigDocument {
    pub host: HostConfig,
    pub daemon: Section<DaemonSection>,
    pub wake_on_lan: Section<WakeOnLanSection>,
    pub grub: Option<GrubSection>,
    pub webhook_id: Option<String>,
    pub api_key: Option<String>,
    pub ha_daemon_url: Option<String>,
    pub ha_grub_url: Option<String>,
}

/// The value where there is one, else the default.
pub open spec fn or_default<T>(given: Option<T>, default: T) -> T {
    match given {
        Some(value) => value,
        None => default,
    }
}

/// What the configuration file says once defaults are filled in: the daemon and
/// wake-on-LAN have defaults for every setting that the file leaves open, and
/// there is none of them only where the file says so.
pub open spec fn with_defaults(d: ConfigDocument) -> ConfigModel {
    ConfigModel {
        interface: d.host.interface@,
        daemon_port: match d.daemon {
            Section::Absent => Some(DEFAULT_DAEMON_PORT),
            Section::Null => None,
            Section::Given(daemon) => Some(or_default(daemon.port, DEFAULT_DAEMON_PORT)),
        },
        wake_on_lan: match d.wake_on_lan {
            Section::Absent => Some(
                WakeOnLanModel {
                    broadcast_address: DEFAULT_BROADCAST_ADDRESS@,
                    broadcast_port: DEFAULT_BROADCAST_PORT,
                },
            ),
            Section::Null => None,
            Section::Given(wake) => Some(
                WakeOnLanModel {
                    broadcast_address: or_default(
                        wake.broadcast_address.deep_view(),
                        DEFAULT_BROADCAST_ADDRESS@,
                    ),
                    broadcast_port: or_default(wake.broadcast_port, DEFAULT_BROADCAST_PORT),
                },
            ),
        },
        grub: match d.grub {
            Some(grub) => Some(
                GrubModel {
                    path: grub.path@,
                    network_wait: or_default(grub.network_wait, DEFAULT_NETWORK_WAIT),
                    webhook_id: or_default(grub.webhook_id.deep_view(), Seq::empty()),
                },
            ),
            None => None,
        },
        webhook_id: d.webhook_id.deep_view(),
        api_key: d.api_key.deep_view(),
        ha_daemon_url: d.ha_daemon_url.deep_view(),
        ha_grub_url: d.ha_grub_url.deep_view(),
    }
}

/// Fills in the defaults of a configuration file.
fn fill_in(document: ConfigDocument) -> (r: Config)
    ensures
        r@ == with_defaults(document),
{
    Config {
        host: document.host,
        daemon: match document.daemon {
            Section::Absent => Some(DaemonConfig { port: DEFAULT_DAEMON_PORT }),
            Section::Null => None,
            Section::Given(daemon) => Some(
                DaemonConfig { port: daemon.port.unwrap_or(DEFAULT_DAEMON_PORT) },
            ),
        },
        wake_on_lan: match document.wake_on_lan {
            Section::Absent => Some(
                WakeOnLanConfig {
                    broadcast_address: DEFAULT_BROADCAST_ADDRESS.to_string(),
                    broadcast_port: DEFAULT_BROADCAST_PORT,
                },
            ),
            Section::Null => None,
            Section::Given(wake) => Some(
                WakeOnLanConfig {
                    broadcast_address: match wake.broadcast_address {
                        Some(address) => address,
                        None => DEFAULT_BROADCAST_ADDRESS.to_string(),
                    },
                    broadcast_port: wake.broadcast_port.unwrap_or(DEFAULT_BROADCAST_PORT),
                },
            ),
        },
        grub: match document.grub {
            Some(grub) => Some(
                GrubConfig {
                    path: grub.path,
                    network_wait: match grub.network_wait {
                        Some(seconds) => seconds,
                        None => default_network_wait(),
                    },
                    webhook_id: match grub.webhook_id {
                        Some(id) => id,
                        None => String::new(),
                    },
                },
            ),
            None => None,
        },
        webhook_id: document.webhook_id,
        api_key: document.api_key,
        ha_daemon_url: document.ha_daemon_url,
        ha_grub_url: document.ha_grub_url,
    }
}

/// Whether this is what loading the document gives: the configuration with
/// defaults filled in, or the rules that it breaks.
pub open spec fn loads(
    document: ConfigDocument,
    grub_file_present: bool,
    r: Result<Config, Vec<FieldError>>,
) -> bool {
    match r {
        Ok(config) => config@ == with_defaults(document) && broken_rules(
            config@,
            grub_file_present,
        ).len() == 0,
        Err(rules) => rules@ == broken_rules(with_defaults(document), grub_file_present)
            && rules@.len() > 0,
    }
}

/// The configuration that the file gives, with defaults filled in, or the rules
/// that it breaks; `grub_file_present` says whether there is a file at the path
/// of its GRUB configuration.
pub fn load_config(document: ConfigDocument, grub_file_present: bool) -> (r: Result<
    Config,
    Vec<FieldError>,
>)
    ensures
        loads(document, grub_file_present, r),
{
    let config = fill_in(document);
    match config.validate(grub_file_present) {
        Ok(()) => Ok(config),
        Err(rules) => Err(rules),
    }
}

/// The daemon's port: the configured one, or the default.
pub open spec fn port_of(c: ConfigModel) -> u16 {
    or_default(c.daemon_port, DEFAULT_DAEMON_PORT)
}

/// The port that the daemon listens on.
pub fn daemon_port(config: &Config) -> (r: u16)
    ensures
        r == port_of(config@),
{
    match &config.daemon {
        Some(daemon) => daemon.port,
        None => DEFAULT_DAEMON_PORT,
    }
}

/// The first default place of the GRUB configuration that is present.
pub open spec fn default_grub_file(present: Seq<bool>) -> Option<Seq<char>> {
    if present.len() > 0 && present[0] {
        Some(DEFAULT_GRUB_PATHS@[0]@)
    } else if present.len() > 1 && present[1] {
        Some(DEFAULT_GRUB_PATHS@[1]@)
    } else {
        None
    }
}

/// The GRUB configuration file: the configured one, else the first default
/// place that is present.
pub open spec fn grub_file(c: ConfigModel, present: Seq<bool>) -> Option<Seq<char>> {
    match c.grub {
        Some(grub) => Some(grub.path),
        None => default_grub_file(present),
    }
}

/// The first of the default places of the GRUB configuration at which there is
/// something, where `present` says so of each of them.
pub fn find_default_grub_file(present: &Vec<bool>) -> (r: Option<String>)
    ensures
        r.deep_view() == default_grub_file(present@),
{
    if present.len() > 0 && present[0] {
        Some(DEFAULT_GRUB_PATHS[0].to_string())
    } else if present.len() > 1 && present[1] {
        Some(DEFAULT_GRUB_PATHS[1].to_string())
    } else {
        None
    }
}

/// The GRUB configuration file to read, where `present` says at which of the
/// default places there is something.
pub fn find_grub_file(config: &Config, present: &Vec<bool>) -> (r: Option<String>)
    ensures
        r.deep_view() == grub_file(config@, present@),
{
    match &config.grub {
        Some(grub) => Some(grub.path.clone()),
        None => find_default_grub_file(present),
    }
}

/// Where the configuration file stands unless the user says otherwise.
pub enum DefaultPath {
    /// At this path.
    At(String),
    /// In this directory, under this name.
    Within { directory: String, file: String },
}

/// Whether the configuration file stands there unless the user says otherwise.
pub open spec fn stands_by_default(
    on_linux: bool,
    project_directory: Option<String>,
    r: DefaultPath,
) -> bool {
    &&& on_linux ==> (r matches DefaultPath::At(path) && path@ == "/etc/grubstation/config.yaml"@)
    &&& !on_linux && project_directory is Some ==> (r matches DefaultPath::Within {
        directory,
        file,
    } && directory == project_directory->0 && file@ == "config.yaml"@)
    &&& !on_linux && project_directory is None ==> (r matches DefaultPath::At(path) && path@
        == "config.yaml"@)
}

/// Where the configuration file stands unless the user says otherwise; off
/// Linux this depends on the user's own directory for the project, if any.
pub fn get_default_config_path(on_linux: bool, project_directory: Option<String>) -> (r:
    DefaultPath)
    ensures
        stands_by_default(on_linux, project_directory, r),
{
    if on_linux {
        DefaultPath::At("/etc/grubstation/config.yaml".to_string())
    } else {
        match project_directory {
            Some(directory) => DefaultPath::Within { directory, file: "config.yaml".to_string() },
            None => DefaultPath::At("config.yaml".to_string()),
        }
    }
}

} // verus!
