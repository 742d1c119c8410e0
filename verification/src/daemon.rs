//! The daemon's pairing state, and the requests that only need that state.

use vstd::prelude::*;

use crate::client::{tells_unregistered, PushError};
use crate::config::{daemon_port, port_of, Config, ConfigModel};
use crate::json::{
    all_plain, members, new_object, no_members, plain_list_survives, set_flag, set_text, set_texts,
    survives, texts, Json, Members, Object,
};
use crate::net::{get_network_interfaces, interface_members, usable, Interface};
use crate::reply::{
    error_members, error_reply, success_members, success_reply, Body, Reply, BAD_REQUEST, CONFLICT, OK,
    UNAUTHORIZED,
};
use crate::request::{bearer_token, get_bearer_token, sent_token_is_read, Header};
use crate::secret::{generate_token, is_pin, is_token, secrets_are_trimmed};
use crate::text::same;

verus! {

/// What the daemon knows of its pairing.
pub struct DaemonState {
    pub paired: bool,
    pub token: Option<String>,
    pub setup_pin: Option<String>,
}

/// What the daemon knows of its pairing.
pub struct DaemonModel {
    pub paired: bool,
    pub token: Option<Seq<char>>,
    pub setup_pin: Option<Seq<char>>,
}

impl View for DaemonState {
    type V = DaemonModel;

    open spec fn view(&self) -> DaemonModel {
        DaemonModel {
            paired: self.paired,
            token: self.token.deep_view(),
            setup_pin: self.setup_pin.deep_view(),
        }
    }
}

/// What is kept of the pairing while the daemon does not run.
pub struct PersistedState {
    pub paired: bool,
    pub token: Option<String>,
    pub setup_pin: Option<String>,
    pub webhook_id: Option<String>,
    pub api_key: Option<String>,
    pub ha_url: Option<String>,
}

/// What is kept of the pairing while the daemon does not run.
pub struct PersistedModel {
    pub paired: bool,
    pub token: Option<Seq<char>>,
    pub setup_pin: Option<Seq<char>>,
    pub webhook_id: Option<Seq<char>>,
    pub api_key: Option<Seq<char>>,
    pub ha_url: Option<Seq<char>>,
}

impl View for PersistedState {
    type V = PersistedModel;

    open spec fn view(&self) -> PersistedModel {
        PersistedModel {
            paired: self.paired,
            token: self.token.deep_view(),
            setup_pin: self.setup_pin.deep_view(),
            webhook_id: self.webhook_id.deep_view(),
            api_key: self.api_key.deep_view(),
            ha_url: self.ha_url.deep_view(),
        }
    }
}

/// Where boot options go.
pub struct SyncJob {
    pub ha_url: String,
    pub webhook_id: String,
    pub api_key: String,
}

/// Where boot options go.
pub struct SyncModel {
    pub ha_url: Seq<char>,
    pub webhook_id: Seq<char>,
    pub api_key: Seq<char>,
}

impl View for SyncJob {
    type V = SyncModel;

    open spec fn view(&self) -> SyncModel {
        SyncModel {
            ha_url: self.ha_url@,
            webhook_id: self.webhook_id@,
            api_key: self.api_key@,
        }
    }
}

/// Whether the credentials are the session token.
pub open spec fn holds_token(s: DaemonModel, given: Option<Seq<char>>) -> bool {
    given is Some && s.token == given
}

/// Whether the credentials are the setup PIN.
pub open spec fn holds_pin(s: DaemonModel, given: Option<Seq<char>>) -> bool {
    given is Some && s.setup_pin == given
}

/// Whether the credentials are the token of a finished pairing.
pub open spec fn holds_session(s: DaemonModel, given: Option<Seq<char>>) -> bool {
    s.paired && holds_token(s, given)
}

/// Whether both are there and the same.
pub fn matches_secret(secret: &Option<String>, given: &Option<String>) -> (r: bool)
    ensures
        r == (given.deep_view() is Some && secret.deep_view() == given.deep_view()),
{
    match (secret, given) {
        (Some(secret), Some(given)) => same(secret.as_str(), given.as_str()),
        _ => false,
    }
}

/// The answer to a request with the wrong credentials, or none where it may go on.
pub open spec fn verify_refusal(s: DaemonModel, given: Option<Seq<char>>) -> Option<
    (u16, Members),
> {
    if holds_pin(s, given) {
        None
    } else if s.paired && s.setup_pin is None {
        Some(
            (
                CONFLICT,
                no_members().insert("error"@, Json::Text("already_paired"@)).insert(
                    "hint"@,
                    Json::Text(
                        "Run `grubstation reset-pin` on the host to generate a new pairing PIN."@,
                    ),
                ),
            ),
        )
    } else {
        Some((UNAUTHORIZED, no_members().insert("error"@, Json::Text("invalid_pin"@))))
    }
}

/// The members of the answer that tells the daemon's status.
pub open spec fn status_members(paired: bool, os: Seq<char>, version: Seq<char>) -> Members {
    no_members().insert("paired"@, Json::Bool(paired)).insert("os"@, Json::Text(os)).insert(
        "version"@,
        Json::Text(version),
    )
}

/// Tells the daemon's status.
pub fn handle_status(state: &DaemonState, os: &str, version: &str) -> (r: Reply)
    ensures
        r.says(OK, status_members(state.paired, os@, version@)),
{
    let mut object = new_object();
    set_flag(&mut object, "paired", state.paired);
    set_text(&mut object, "os", os);
    set_text(&mut object, "version", version);
    Reply { status: OK, body: Body::One(object) }
}

/// Whether the interfaces may be listed: the credentials are the session token
/// or the setup PIN.
pub open spec fn may_list(s: DaemonModel, given: Option<Seq<char>>) -> bool {
    holds_token(s, given) || holds_pin(s, given)
}

/// Whether the interfaces may be listed: the request carries the session token
/// or the setup PIN. Otherwise the answer.
pub fn handle_interfaces(state: &DaemonState, headers: &Vec<Header>) -> (r: Result<(), Reply>)
    ensures
        match r {
            Ok(()) => holds_token(state@, bearer_token(headers@)) || holds_pin(
                state@,
                bearer_token(headers@),
            ),
            Err(reply) => !holds_token(state@, bearer_token(headers@)) && !holds_pin(
                state@,
                bearer_token(headers@),
            ) && reply.is_error(UNAUTHORIZED, "invalid_token"@),
        },
        r is Ok <==> may_list(state@, bearer_token(headers@)),
{
    let given = get_bearer_token(headers);
    if matches_secret(&state.token, &given) || matches_secret(&state.setup_pin, &given) {
        Ok(())
    } else {
        Err(error_reply(UNAUTHORIZED, "invalid_token"))
    }
}

/// What is told of the interfaces that can be offered, in order.
pub open spec fn listed(all: Seq<Interface>) -> Json {
    Json::Array(usable(all).map_values(|i: Interface| Json::Object(interface_members(i))))
}

/// Lists the interfaces that can be offered.
pub fn interfaces_reply(all: &Vec<Interface>) -> (r: Reply)
    ensures
        r.status == OK,
        r.body@ == listed(all@),
{
    let list = get_network_interfaces(all);
    let r = Reply { status: OK, body: Body::Many(list) };
    proof {
        let held = list@.map_values(|object: Object| members(object));
        let told = usable(all@).map_values(|i: Interface| interface_members(i));
        assert(held == told);
        assert(held.len() == told.len());
        assert forall|k: int| 0 <= k < list@.len() implies members(#[trigger] list@[k])
            == interface_members(usable(all@)[k]) by {
            assert(held[k] == members(list@[k]));
            assert(told[k] == interface_members(usable(all@)[k]));
        }
        assert(list@.map_values(|object: Object| Json::Object(members(object))) =~= usable(
            all@,
        ).map_values(|i: Interface| Json::Object(interface_members(i))));
    }
    r
}

/// The list of interfaces comes back as it is when it is written and read.
pub proof fn listed_interfaces_survive(all: Seq<Interface>)
    ensures
        survives(listed(all)),
{
    let items = usable(all).map_values(|i: Interface| Json::Object(interface_members(i)));
    assert forall|k: int| 0 <= k < items.len() implies (#[trigger] items[k]) is Object && all_plain(
        items[k]->Object_0,
    ) by {
        assert(items[k] == Json::Object(interface_members(usable(all)[k])));
    }
    plain_list_survives(items);
}

/// Hands out a new session token, in place of any other, for a request that
/// carries the setup PIN. Otherwise the answer, and nothing changes.
pub fn handle_pair_verify(state: &mut DaemonState, headers: &Vec<Header>) -> (r: Result<
    String,
    Reply,
>)
    ensures
        match r {
            Ok(token) => verify_refusal(old(state)@, bearer_token(headers@)) is None && is_token(
                token@,
            ) && final(state)@ == granted(old(state)@, token@),
            Err(reply) => verify_refusal(old(state)@, bearer_token(headers@)) matches Some((
                status,
                all,
            )) && reply.says(status, all) && *final(state) == *old(state),
        },
        can_become(old(state)@, bearer_token(headers@), final(state)@),
{
    let given = get_bearer_token(headers);
    if matches_secret(&state.setup_pin, &given) {
        let token = generate_token();
        state.token = Some(token.clone());
        Ok(token)
    } else if state.paired && state.setup_pin.is_none() {
        let mut object = new_object();
        set_text(&mut object, "error", "already_paired");
        set_text(
            &mut object,
            "hint",
            "Run `grubstation reset-pin` on the host to generate a new pairing PIN.",
        );
        Err(Reply { status: CONFLICT, body: Body::One(object) })
    } else {
        Err(error_reply(UNAUTHORIZED, "invalid_pin"))
    }
}

/// The members of the answer to a request with the right PIN.
pub open spec fn verified_members(
    token: Seq<char>,
    mac: Seq<char>,
    hostname: Seq<char>,
    os: Seq<char>,
    entries: Seq<Seq<char>>,
) -> Members {
    no_members().insert("success"@, Json::Bool(true)).insert("token"@, Json::Text(token)).insert(
        "mac"@,
        Json::Text(mac),
    ).insert("hostname"@, Json::Text(hostname)).insert("os"@, Json::Text(os)).insert(
        "boot_options"@,
        texts(entries),
    )
}

/// The answer to a request with the right PIN.
pub fn verified_reply(
    token: &str,
    mac: &str,
    hostname: &str,
    os: &str,
    entries: &Vec<String>,
) -> (r: Reply)
    ensures
        r.says(OK, verified_members(token@, mac@, hostname@, os@, entries.deep_view())),
{
    let mut object = new_object();
    set_flag(&mut object, "success", true);
    set_text(&mut object, "token", token);
    set_text(&mut object, "mac", mac);
    set_text(&mut object, "hostname", hostname);
    set_text(&mut object, "os", os);
    set_texts(&mut object, "boot_options", entries);
    Reply { status: OK, body: Body::One(object) }
}

/// The state once the pairing has ended.
pub open spec fn unpaired(s: DaemonModel) -> DaemonModel {
    DaemonModel { paired: false, token: None, ..s }
}

/// The answer to a request to end the pairing that cannot be granted, or none
/// where it has the token of the pairing.
pub open spec fn unpair_refusal(s: DaemonModel, given: Option<Seq<char>>) -> Option<
    (u16, Members),
> {
    if !s.paired {
        Some((BAD_REQUEST, error_members("Not paired"@)))
    } else if !holds_token(s, given) {
        Some((UNAUTHORIZED, error_members("Unauthorized"@)))
    } else {
        None
    }
}

/// Ends the pairing, for a request that carries its token. `Ok` where it has
/// ended.
pub fn handle_unpair(state: &mut DaemonState, headers: &Vec<Header>) -> (r: Result<Reply, Reply>)
    ensures
        match r {
            Ok(reply) => holds_session(old(state)@, bearer_token(headers@)) && reply.is_success()
                && final(state)@ == unpaired(old(state)@),
            Err(reply) => !holds_session(old(state)@, bearer_token(headers@)) && *final(state)
                == *old(state) && (if old(state)@.paired {
                reply.is_error(UNAUTHORIZED, "Unauthorized"@)
            } else {
                reply.is_error(BAD_REQUEST, "Not paired"@)
            }),
        },
        match unpair_refusal(old(state)@, bearer_token(headers@)) {
            Some((status, all)) => r matches Err(reply) && reply.says(status, all),
            None => r is Ok,
        },
        can_become(old(state)@, bearer_token(headers@), final(state)@),
{
    let given = get_bearer_token(headers);
    if !state.paired {
        Err(error_reply(BAD_REQUEST, "Not paired"))
    } else if !matches_secret(&state.token, &given) {
        Err(error_reply(UNAUTHORIZED, "Unauthorized"))
    } else {
        state.paired = false;
        state.token = None;
        Ok(success_reply())
    }
}

/// The members of the answer to a request to shut the host down that is granted.
pub open spec fn shutdown_members() -> Members {
    success_members().insert("message"@, Json::Text("Shutting down..."@))
}

/// Whether the host may be shut down: the request carries the token of a
/// finished pairing. `Ok` where it is to be shut down.
pub fn handle_shutdown(state: &DaemonState, headers: &Vec<Header>) -> (r: Result<Reply, Reply>)
    ensures
        match r {
            Ok(reply) => holds_session(state@, bearer_token(headers@)) && reply.says(
                OK,
                shutdown_members(),
            ),
            Err(reply) => !holds_session(state@, bearer_token(headers@)) && reply.is_error(
                UNAUTHORIZED,
                "Unauthorized"@,
            ),
        },
{
    let given = get_bearer_token(headers);
    if state.paired && matches_secret(&state.token, &given) {
        let mut object = new_object();
        set_flag(&mut object, "success", true);
        set_text(&mut object, "message", "Shutting down...");
        Ok(Reply { status: OK, body: Body::One(object) })
    } else {
        Err(error_reply(UNAUTHORIZED, "Unauthorized"))
    }
}

/// What the daemon does when it starts.
pub struct Startup {
    /// Where it listens.
    pub port: u16,
    /// What it knows of its pairing.
    pub state: DaemonState,
    /// Whether it tells the network that it is paired.
    pub advertise_paired: bool,
    /// Where it sends the boot options first.
    pub sync: Option<SyncJob>,
}

/// The state of a daemon that has just started.
pub open spec fn restored(kept: Option<PersistedModel>) -> DaemonModel {
    match kept {
        Some(kept) => DaemonModel {
            paired: kept.paired,
            token: kept.token,
            setup_pin: kept.setup_pin,
        },
        None => DaemonModel { paired: false, token: None, setup_pin: None },
    }
}

/// Where a daemon that has just started sends the boot options.
pub open spec fn startup_sync(kept: Option<PersistedModel>) -> Option<SyncModel> {
    match kept {
        Some(kept) => if kept.paired && kept.webhook_id is Some && kept.ha_url is Some {
            Some(
                SyncModel {
                    ha_url: kept.ha_url->0,
                    webhook_id: kept.webhook_id->0,
                    api_key: match kept.api_key {
                        Some(key) => key,
                        None => Seq::empty(),
                    },
                },
            )
        } else {
            None
        },
        None => None,
    }
}

/// The view of what was kept, if anything was.
pub open spec fn kept_view(kept: Option<PersistedState>) -> Option<PersistedModel> {
    match kept {
        Some(kept) => Some(kept@),
        None => None,
    }
}

/// The view of where boot options go, if anywhere.
pub open spec fn sync_view(sync: Option<SyncJob>) -> Option<SyncModel> {
    match sync {
        Some(sync) => Some(sync@),
        None => None,
    }
}

/// Whether the daemon starts in this way, with this configuration and from what
/// was kept of its pairing.
pub open spec fn starts(c: ConfigModel, kept: Option<PersistedModel>, r: Startup) -> bool {
    &&& r.port == port_of(c)
    &&& r.state@ == restored(kept)
    &&& r.advertise_paired == r.state.paired
    &&& sync_view(r.sync) == startup_sync(kept)
}

/// What the daemon does when it starts, from what was kept of its pairing.
pub fn start_server(config: &Config, kept: Option<PersistedState>) -> (r: Startup)
    ensures
        starts(config@, kept_view(kept), r),
{
    let port = daemon_port(config);
    match kept {
        None => Startup {
            port,
            state: DaemonState { paired: false, token: None, setup_pin: None },
            advertise_paired: false,
            sync: None,
        },
        Some(kept) => {
            let paired = kept.paired;
            let api_key = match kept.api_key {
                Some(key) => key,
                None => String::new(),
            };
            let sync = match (kept.webhook_id, kept.ha_url) {
                (Some(webhook_id), Some(ha_url)) => if paired {
                    Some(SyncJob { ha_url, webhook_id, api_key })
                } else {
                    None
                },
                _ => None,
            };
            Startup {
                port,
                state: DaemonState { paired, token: kept.token, setup_pin: kept.setup_pin },
                advertise_paired: paired,
                sync,
            }
        },
    }
}

/// The state after boot options could not be sent: the pairing has ended where
/// Home Assistant has dropped the webhook.
pub open spec fn after_failure(s: DaemonModel, error: PushError) -> DaemonModel {
    if tells_unregistered(error) {
        unpaired(s)
    } else {
        s
    }
}

/// Ends the pairing where the error tells that Home Assistant has dropped the
/// webhook; says whether it did.
pub fn after_failed_sync(state: &mut DaemonState, error: &PushError) -> (dropped: bool)
    ensures
        dropped == tells_unregistered(*error),
        final(state)@ == if dropped {
            unpaired(old(state)@)
        } else {
            old(state)@
        },
        final(state)@ == after_failure(old(state)@, *error),
        can_become(old(state)@, None, final(state)@),
{
    if error.is_unregistered() {
        state.paired = false;
        state.token = None;
        true
    } else {
        false
    }
}

/// The state once a session token has been handed out.
pub open spec fn granted(s: DaemonModel, token: Seq<char>) -> DaemonModel {
    DaemonModel { token: Some(token), ..s }
}

/// The state once the hand-over is done: the PIN is spent.
pub open spec fn paired_up(s: DaemonModel) -> DaemonModel {
    DaemonModel { paired: true, setup_pin: None, ..s }
}

/// Whether a request with these credentials, or the news that Home Assistant
/// has dropped the webhook, can turn the state `s` into the state `t`.
pub open spec fn can_become(s: DaemonModel, given: Option<Seq<char>>, t: DaemonModel) -> bool {
    ||| t == s
    ||| holds_pin(s, given) && t.token is Some && t == granted(s, t.token->0)
    ||| holds_token(s, given) && t == paired_up(s)
    ||| t == unpaired(s)
}

/// A request without credentials is never authorised.
pub proof fn no_credentials_no_access(s: DaemonModel)
    ensures
        !holds_token(s, None),
        !holds_pin(s, None),
        !holds_session(s, None),
        verify_refusal(s, None) is Some,
{
}

/// A daemon that waits with a PIN hands out a token for a request that carries
/// that PIN in the bearer scheme.
pub proof fn sent_pin_is_accepted(kept: PersistedModel, headers: Seq<Header>, pin: Seq<char>)
    requires
        is_pin(pin),
        kept.setup_pin == Some(pin),
        headers.len() > 0,
        headers[0].field@ == "Authorization"@,
        headers[0].value@ == "Bearer "@ + pin,
    ensures
        verify_refusal(restored(Some(kept)), bearer_token(headers)) is None,
{
    sent_token_is_read(headers, pin);
    secrets_are_trimmed(pin);
}

/// A token that was handed out is accepted from a request that carries it in
/// the bearer scheme.
pub proof fn sent_token_is_accepted(s: DaemonModel, headers: Seq<Header>, token: Seq<char>)
    requires
        is_token(token),
        headers.len() > 0,
        headers[0].field@ == "Authorization"@,
        headers[0].value@ == "Bearer "@ + token,
    ensures
        holds_token(granted(s, token), bearer_token(headers)),
        holds_session(paired_up(granted(s, token)), bearer_token(headers)),
{
    sent_token_is_read(headers, token);
    secrets_are_trimmed(token);
}

/// The token that is handed out for the PIN opens the hand-over and the list of
/// interfaces, and no other token does.
pub proof fn granted_token_opens_pairing(s: DaemonModel, token: Seq<char>, other: Seq<char>)
    ensures
        holds_token(granted(s, token), Some(token)),
        other != token ==> !holds_token(granted(s, token), Some(other)),
{
}

/// A session token alone neither shuts the host down nor changes anything
/// before the pairing is done.
pub proof fn token_is_no_session_before_pairing(s: DaemonModel, given: Option<Seq<char>>)
    requires
        !s.paired,
    ensures
        !holds_session(s, given),
{
}

/// The token that has opened the hand-over is the token of the pairing.
pub proof fn pairing_keeps_token(s: DaemonModel, given: Option<Seq<char>>)
    requires
        holds_token(s, given),
    ensures
        holds_session(paired_up(s), given),
{
}

/// Once paired, the PIN is spent: whatever is given, no token is handed out
/// until the PIN is reset, and the answer says so.
pub proof fn paired_daemon_refuses_pins(s: DaemonModel, given: Option<Seq<char>>)
    ensures
        verify_refusal(paired_up(s), given) matches Some((status, _)) && status == CONFLICT,
{
}

/// Once the pairing has ended, its token opens nothing any more.
pub proof fn ended_pairing_refuses_token(s: DaemonModel, given: Option<Seq<char>>)
    ensures
        !holds_token(unpaired(s), given),
        !holds_session(unpaired(s), given),
{
}

/// Ending a pairing leaves no PIN behind: after that, only a reset of the PIN
/// allows a new pairing.
pub proof fn ended_pairing_refuses_pins(s: DaemonModel, given: Option<Seq<char>>)
    ensures
        verify_refusal(unpaired(paired_up(s)), given) matches Some((status, _)) && status
            == UNAUTHORIZED,
{
}

/// A paired daemon always has a token, whatever requests it gets.
pub proof fn paired_daemon_has_token(s: DaemonModel, given: Option<Seq<char>>, t: DaemonModel)
    requires
        s.paired ==> s.token is Some,
        can_become(s, given, t),
    ensures
        t.paired ==> t.token is Some,
{
}

/// A daemon becomes paired only by a request with its session token, and gets a
/// token only by a request with its PIN; the PIN never comes back.
pub proof fn access_needs_credentials(s: DaemonModel, given: Option<Seq<char>>, t: DaemonModel)
    requires
        can_become(s, given, t),
    ensures
        !s.paired && t.paired ==> holds_token(s, given),
        t.token is Some && t.token != s.token ==> holds_pin(s, given),
        t.setup_pin is Some ==> t.setup_pin == s.setup_pin,
{
}

} // verus!
