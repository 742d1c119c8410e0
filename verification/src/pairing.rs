//! The hand-over of the configuration from Home Assistant.
//!
//! The hand-over goes through fixed steps, each of which takes what the outside
//! world answered to the step before: the request is authorised, its body read,
//! the interface resolved, the boot menu read and the script installed. Only
//! then does the daemon become paired.

use vstd::prelude::*;

use crate::config::{
    breaks, broken_rules, find_grub_file, grub_file, valid_breaks_no_rule, Config, ConfigModel,
    FieldError,
};
use crate::daemon::{
    can_become, holds_token, matches_secret, paired_up, restored, startup_sync, DaemonModel,
    DaemonState, PersistedModel, PersistedState, SyncJob, SyncModel,
};
use crate::hook::{copy_plan, hook_view, pairing_hook, plan_pairing_hook, HookModel, HookPlan};
use crate::net::InterfaceDetails;
use crate::reply::{
    error_reply, success_reply, Reply, BAD_REQUEST, INTERNAL_SERVER_ERROR, UNAUTHORIZED,
};
use crate::request::{bearer_token, get_bearer_token, Header};
use crate::secret::{generate_token, is_token};
use crate::text::{concat, same};

verus! {

/// What Home Assistant hands over.
pub struct PairRequest {
    pub webhook_id: String,
    pub api_key: String,
    pub ha_url: String,
    pub update_grub: bool,
    pub interface: String,
}

/// What Home Assistant hands over.
pub struct PairModel {
    pub webhook_id: Seq<char>,
    pub api_key: Seq<char>,
    pub ha_url: Seq<char>,
    pub update_grub: bool,
    pub interface: Seq<char>,
}

impl View for PairRequest {
    type V = PairModel;

    open spec fn view(&self) -> PairModel {
        PairModel {
            webhook_id: self.webhook_id@,
            api_key: self.api_key@,
            ha_url: self.ha_url@,
            update_grub: self.update_grub,
            interface: self.interface@,
        }
    }
}

/// What came of reading the body of a request.
pub enum Received<T> {
    Unreadable { reason: String },
    Malformed { reason: String },
    Parsed(T),
}

/// The message to a request whose body cannot be used.
pub open spec fn body_error<T>(received: Received<T>) -> Option<Seq<char>> {
    match received {
        Received::Unreadable { reason } => Some("Failed to read request body: "@ + reason@),
        Received::Malformed { reason } => Some("Invalid JSON payload: "@ + reason@),
        Received::Parsed(_) => None,
    }
}

/// The body of a request, or the answer where it cannot be used.
pub fn accept_body<T>(received: Received<T>) -> (r: Result<T, Reply>)
    ensures
        match r {
            Ok(parsed) => received == Received::Parsed(parsed),
            Err(reply) => body_error(received) matches Some(message) && reply.is_error(
                BAD_REQUEST,
                message,
            ),
        },
{
    match received {
        Received::Unreadable { reason } => Err(
            error_reply(
                BAD_REQUEST,
                concat("Failed to read request body: ", reason.as_str()).as_str(),
            ),
        ),
        Received::Malformed { reason } => Err(
            error_reply(BAD_REQUEST, concat("Invalid JSON payload: ", reason.as_str()).as_str()),
        ),
        Received::Parsed(parsed) => Ok(parsed),
    }
}

/// The configuration with the interface that Home Assistant has chosen.
pub open spec fn with_interface(c: ConfigModel, interface: Seq<char>) -> ConfigModel {
    ConfigModel { interface, ..c }
}

/// Takes up the interface that Home Assistant has chosen; says whether that
/// changes the configuration.
pub fn adopt_interface(config: &mut Config, interface: &str) -> (changed: bool)
    ensures
        final(config)@ == with_interface(old(config)@, interface@),
        changed == changes_interface(old(config)@, interface@),
{
    if same(config.host.interface.as_str(), interface) {
        false
    } else {
        config.host.interface = interface.to_string();
        true
    }
}

/// Whether taking up the interface changes the configuration.
pub open spec fn changes_interface(c: ConfigModel, interface: Seq<char>) -> bool {
    c.interface != interface
}

/// The message to a request whose interface cannot be used.
pub open spec fn interface_error(reason: Seq<char>) -> Seq<char> {
    "Failed to resolve interface details: "@ + reason
}

/// The message to a request whose script could not be installed.
pub open spec fn script_error(reason: Seq<char>) -> Seq<char> {
    "Failed to apply GRUB configuration: "@ + reason
}

/// A host without a boot menu cannot be paired by hand.
pub struct NoMenu;

impl NoMenu {
    /// The message of the error.
    pub fn message(&self) -> (r: String)
        ensures
            r@ == "No GRUB configuration file found at default paths."@,
    {
        "No GRUB configuration file found at default paths.".to_string()
    }
}

/// The boot menu of a host that is paired by hand, where `present` says at
/// which of the default places there is one.
pub fn menu_to_pair(config: &Config, present: &Vec<bool>) -> (r: Result<String, NoMenu>)
    ensures
        match grub_file(config@, present@) {
            Some(found) => r matches Ok(path) && path@ == found,
            None => r is Err,
        },
{
    match find_grub_file(config, present) {
        Some(path) => Ok(path),
        None => Err(NoMenu),
    }
}

/// A hand-over whose request is authorised.
pub struct PairAuthorized {
    config: Config,
}

impl PairAuthorized {
    /// The configuration at hand.
    pub closed spec fn config(&self) -> ConfigModel {
        self.config@
    }
}

/// Whether the hand-over may go on: the request carries the session token.
/// Otherwise the answer.
pub fn handle_pair(state: &DaemonState, headers: &Vec<Header>, config: Config) -> (r: Result<
    PairAuthorized,
    Reply,
>)
    ensures
        match r {
            Ok(next) => holds_token(state@, bearer_token(headers@)) && next.config() == config@,
            Err(reply) => !holds_token(state@, bearer_token(headers@)) && reply.is_error(
                UNAUTHORIZED,
                "invalid_token"@,
            ),
        },
{
    let given = get_bearer_token(headers);
    if matches_secret(&state.token, &given) {
        Ok(PairAuthorized { config })
    } else {
        Err(error_reply(UNAUTHORIZED, "invalid_token"))
    }
}

/// A hand-over whose request has been read.
pub struct PairParsed {
    config: Config,
    request: PairRequest,
}

impl PairAuthorized {
    /// Goes on with the body of the request, or answers where it cannot be used.
    pub fn payload(self, received: Received<PairRequest>) -> (r: Result<PairParsed, Reply>)
        ensures
            match r {
                Ok(next) => received matches Received::Parsed(request) && next.request()
                    == request@ && next.config() == self.config(),
                Err(reply) => body_error(received) matches Some(message) && reply.is_error(
                    BAD_REQUEST,
                    message,
                ),
            },
    {
        match accept_body(received) {
            Ok(request) => Ok(PairParsed { config: self.config, request }),
            Err(reply) => Err(reply),
        }
    }
}

impl PairParsed {
    /// The configuration at hand.
    pub closed spec fn config(&self) -> ConfigModel {
        self.config@
    }

    /// What Home Assistant hands over.
    pub closed spec fn request(&self) -> PairModel {
        self.request@
    }

    /// The interface that is to be resolved.
    pub fn interface(&self) -> (r: String)
        ensures
            r@ == self.request().interface,
    {
        self.request.interface.clone()
    }

    /// Goes on with the addresses of the interface, or answers where it cannot
    /// be used. The configuration takes up the interface.
    pub fn resolved(self, details: Result<InterfaceDetails, String>) -> (r: Result<
        PairResolved,
        Reply,
    >)
        ensures
            match r {
                Ok(next) => {
                    &&& details matches Ok(found)
                    &&& next.mac() == found.mac@
                    &&& next.address() == found.address@
                    &&& next.request() == self.request()
                    &&& next.config() == with_interface(self.config(), self.request().interface)
                    &&& next.changed() == changes_interface(
                        self.config(),
                        self.request().interface,
                    )
                },
                Err(reply) => details matches Err(reason) && reply.is_error(
                    BAD_REQUEST,
                    interface_error(reason@),
                ),
            },
    {
        match details {
            Ok(details) => {
                let mut config = self.config;
                let changed = adopt_interface(&mut config, self.request.interface.as_str());
                Ok(PairResolved { config, changed, request: self.request, details })
            },
            Err(reason) => Err(
                error_reply(
                    BAD_REQUEST,
                    concat("Failed to resolve interface details: ", reason.as_str()).as_str(),
                ),
            ),
        }
    }
}

/// A hand-over whose interface is resolved.
pub struct PairResolved {
    config: Config,
    changed: bool,
    request: PairRequest,
    details: InterfaceDetails,
}

impl PairResolved {
    /// The configuration with the chosen interface.
    pub closed spec fn config(&self) -> ConfigModel {
        self.config@
    }

    /// Whether the chosen interface is another one than before.
    pub closed spec fn changed(&self) -> bool {
        self.changed
    }

    /// What Home Assistant hands over.
    pub closed spec fn request(&self) -> PairModel {
        self.request@
    }

    /// The MAC address of the interface.
    pub closed spec fn mac(&self) -> Seq<char> {
        self.details.mac@
    }

    /// The address of the interface.
    pub closed spec fn address(&self) -> Seq<char> {
        self.details.address@
    }

    /// The configuration that is to be written, if it has changed.
    pub fn changed_config(&self) -> (r: Option<Config>)
        ensures
            match r {
                Some(config) => self.changed() && config@ == self.config(),
                None => !self.changed(),
            },
    {
        if self.changed {
            Some(self.config.clone())
        } else {
            None
        }
    }

    /// The boot menu that is to be read, where `present` says at which of the
    /// default places there is one.
    pub fn menu_file(&self, present: &Vec<bool>) -> (r: Option<String>)
        ensures
            r.deep_view() == grub_file(self.config(), present@),
    {
        find_grub_file(&self.config, present)
    }

    /// Goes on with the entries of the boot menu.
    pub fn menu(self, present: &Vec<bool>, entries: Vec<String>) -> (next: PairPrepared)
        ensures
            next.config() == self.config(),
            next.request() == self.request(),
            next.mac() == self.mac(),
            next.address() == self.address(),
            next.entries() == entries.deep_view(),
            next.hook() == pairing_hook(
                self.config(),
                present@,
                self.request().ha_url,
                self.request().webhook_id,
                self.request().update_grub,
            ),
    {
        let hook = plan_pairing_hook(
            &self.config,
            present,
            self.request.ha_url.as_str(),
            self.request.webhook_id.as_str(),
            self.request.update_grub,
        );
        PairPrepared {
            config: self.config,
            request: self.request,
            details: self.details,
            entries,
            hook,
        }
    }
}

/// A hand-over that only waits for the script to be installed.
pub struct PairPrepared {
    config: Config,
    request: PairRequest,
    details: InterfaceDetails,
    entries: Vec<String>,
    hook: Option<HookPlan>,
}

/// A hand-over that is done.
pub struct PairCommit {
    /// What is kept of the pairing.
    pub persisted: PersistedState,
    /// The answer.
    pub reply: Reply,
    /// The address under which the network is told of the pairing.
    pub address: String,
    /// Where the boot options go.
    pub sync: SyncJob,
    /// The MAC address that the boot options are sent for.
    pub mac: String,
    /// The boot options.
    pub entries: Vec<String>,
}

/// What is kept of a pairing with this token.
pub open spec fn kept_of(request: PairModel, token: Seq<char>) -> PersistedModel {
    PersistedModel {
        paired: true,
        token: Some(token),
        setup_pin: None,
        webhook_id: Some(request.webhook_id),
        api_key: Some(request.api_key),
        ha_url: Some(request.ha_url),
    }
}

/// Where the boot options of a pairing go.
pub open spec fn sync_of(request: PairModel) -> SyncModel {
    SyncModel {
        ha_url: request.ha_url,
        webhook_id: request.webhook_id,
        api_key: request.api_key,
    }
}

/// Whether the hand-over ends with this: the pairing that was handed over is
/// kept with the token that was held, or a new one where none was, and the boot
/// options go where it says.
pub open spec fn commits(
    commit: PairCommit,
    request: PairModel,
    held: Option<Seq<char>>,
    mac: Seq<char>,
    address: Seq<char>,
    entries: Seq<Seq<char>>,
) -> bool {
    &&& commit.persisted@.token matches Some(token) && commit.persisted@ == kept_of(request, token)
        && match held {
        Some(held) => token == held,
        None => is_token(token),
    }
    &&& commit.reply.is_success()
    &&& commit.address@ == address
    &&& commit.sync@ == sync_of(request)
    &&& commit.mac@ == mac
    &&& commit.entries.deep_view() == entries
}

impl PairPrepared {
    /// The configuration with the chosen interface.
    pub closed spec fn config(&self) -> ConfigModel {
        self.config@
    }

    /// What Home Assistant hands over.
    pub closed spec fn request(&self) -> PairModel {
        self.request@
    }

    /// The MAC address of the interface.
    pub closed spec fn mac(&self) -> Seq<char> {
        self.details.mac@
    }

    /// The address of the interface.
    pub closed spec fn address(&self) -> Seq<char> {
        self.details.address@
    }

    /// The entries of the boot menu.
    pub closed spec fn entries(&self) -> Seq<Seq<char>> {
        self.entries.deep_view()
    }

    /// The script that is to be installed.
    pub closed spec fn hook(&self) -> Option<HookModel> {
        hook_view(self.hook)
    }

    /// The script that is to be installed, if any.
    pub fn hook_plan(&self) -> (r: Option<HookPlan>)
        ensures
            hook_view(r) == self.hook(),
    {
        copy_plan(&self.hook)
    }

    /// The configuration that the script is installed for.
    pub fn host_config(&self) -> (r: Config)
        ensures
            r@ == self.config(),
    {
        self.config.clone()
    }

    /// Ends the hand-over once the script is installed: the daemon is paired,
    /// its PIN is spent, and its session token stays. Where the script could not
    /// be installed, nothing changes and the answer says why.
    pub fn finish(self, installed: Result<(), String>, state: &mut DaemonState) -> (r: Result<
        PairCommit,
        Reply,
    >)
        ensures
            match r {
                Ok(commit) => {
                    &&& installed is Ok
                    &&& final(state)@ == paired_up(old(state)@)
                    &&& forall|given: Option<Seq<char>>| #[trigger]
                        holds_token(old(state)@, given) ==> can_become(
                            old(state)@,
                            given,
                            final(state)@,
                        )
                    &&& commits(
                        commit,
                        self.request(),
                        old(state)@.token,
                        self.mac(),
                        self.address(),
                        self.entries(),
                    )
                },
                Err(reply) => {
                    &&& installed matches Err(reason) && reply.is_error(
                        INTERNAL_SERVER_ERROR,
                        script_error(reason@),
                    )
                    &&& *final(state) == *old(state)
                },
            },
    {
        if let Err(reason) = installed {
            return Err(
                error_reply(
                    INTERNAL_SERVER_ERROR,
                    concat("Failed to apply GRUB configuration: ", reason.as_str()).as_str(),
                ),
            );
        }
        state.paired = true;
        state.setup_pin = None;
        let token = match &state.token {
            Some(token) => token.clone(),
            None => generate_token(),
        };
        let request = self.request;
        Ok(
            PairCommit {
                persisted: PersistedState {
                    paired: true,
                    token: Some(token),
                    setup_pin: None,
                    webhook_id: Some(request.webhook_id.clone()),
                    api_key: Some(request.api_key.clone()),
                    ha_url: Some(request.ha_url.clone()),
                },
                reply: success_reply(),
                address: self.details.address,
                sync: SyncJob {
                    ha_url: request.ha_url,
                    webhook_id: request.webhook_id,
                    api_key: request.api_key,
                },
                mac: self.details.mac,
                entries: self.entries,
            },
        )
    }
}

/// A pairing outlives a restart: what is kept of it gives the daemon back its
/// state, and the boot options go where Home Assistant said.
pub proof fn pairing_outlives_restart(s: DaemonModel, request: PairModel, token: Seq<char>)
    requires
        s.token == Some(token),
    ensures
        restored(Some(kept_of(request, token))) == paired_up(s),
        startup_sync(Some(kept_of(request, token))) == Some(sync_of(request)),
{
}

/// A hand-over keeps a valid configuration valid, where the interface has a name.
pub proof fn adopting_keeps_rules(c: ConfigModel, interface: Seq<char>, grub_file_present: bool)
    requires
        broken_rules(c, grub_file_present).len() == 0,
        interface.len() > 0,
    ensures
        broken_rules(with_interface(c, interface), grub_file_present).len() == 0,
{
    let after = with_interface(c, interface);
    valid_breaks_no_rule(c, grub_file_present);
    valid_breaks_no_rule(after, grub_file_present);
    assert forall|rule: FieldError| !breaks(after, grub_file_present, rule) by {
        assert(!breaks(c, grub_file_present, rule));
    }
}

/// The chosen interface stays chosen: handing it over again changes nothing.
pub proof fn adopting_twice_is_adopting_once(c: ConfigModel, interface: Seq<char>)
    ensures
        with_interface(with_interface(c, interface), interface) == with_interface(c, interface),
        with_interface(c, interface).interface == interface,
{
}

} // verus!
