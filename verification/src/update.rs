//! A change of Home Assistant's address.
//!
//! Like the hand-over, a change goes through fixed steps: the request is
//! authorised, its body read, the kept state read, and the script installed.

use vstd::prelude::*;

use crate::client::{webhook_address, webhook_url};
use crate::config::{Config, ConfigModel};
use crate::daemon::{
    holds_session, kept_view, matches_secret, startup_sync, sync_view, DaemonState, PersistedModel,
    PersistedState, SyncJob, SyncModel,
};
use crate::hook::{copy_plan, hook_view, pairing_hook, HookModel, HookPlan};
use crate::pairing::{accept_body, body_error, kept_of, script_error, PairModel, Received};
use crate::reply::{
    error_reply, success_reply, Reply, BAD_REQUEST, INTERNAL_SERVER_ERROR, UNAUTHORIZED,
};
use crate::request::{bearer_token, get_bearer_token, Header};
use crate::text::concat;

verus! {

/// What Home Assistant changes.
pub struct UpdateRequest {
    pub ha_url: Option<String>,
    pub update_grub: bool,
}

/// A change whose request is authorised.
pub struct UpdateAuthorized(());

/// Whether the change may go on: the request carries the token of a finished
/// pairing. Otherwise the answer.
pub fn handle_update(state: &DaemonState, headers: &Vec<Header>) -> (r: Result<
    UpdateAuthorized,
    Reply,
>)
    ensures
        match r {
            Ok(_) => holds_session(state@, bearer_token(headers@)),
            Err(reply) => !holds_session(state@, bearer_token(headers@)) && reply.is_error(
                UNAUTHORIZED,
                "Unauthorized"@,
            ),
        },
{
    let given = get_bearer_token(headers);
    if state.paired && matches_secret(&state.token, &given) {
        Ok(UpdateAuthorized(()))
    } else {
        Err(error_reply(UNAUTHORIZED, "Unauthorized"))
    }
}

/// A change whose request has been read.
pub struct UpdateParsed {
    request: UpdateRequest,
}

impl UpdateAuthorized {
    /// Goes on with the body of the request, or answers where it cannot be used.
    pub fn payload(self, received: Received<UpdateRequest>) -> (r: Result<UpdateParsed, Reply>)
        ensures
            match r {
                Ok(next) => received matches Received::Parsed(request) && next.ha_url()
                    == request.ha_url.deep_view() && next.update_grub() == request.update_grub,
                Err(reply) => body_error(received) matches Some(message) && reply.is_error(
                    BAD_REQUEST,
                    message,
                ),
            },
    {
        match accept_body(received) {
            Ok(request) => Ok(UpdateParsed { request }),
            Err(reply) => Err(reply),
        }
    }
}

/// The address after the change: the new one, else the one that was kept.
pub open spec fn changed_url(new: Option<Seq<char>>, kept: PersistedModel) -> Seq<char> {
    match new {
        Some(url) => url,
        None => match kept.ha_url {
            Some(url) => url,
            None => Seq::empty(),
        },
    }
}

/// The address that the script asks after the change.
pub open spec fn changed_boot_url(ha_url: Seq<char>, kept: PersistedModel) -> Seq<char> {
    match kept.webhook_id {
        Some(id) => webhook_address(ha_url, id),
        None => Seq::empty(),
    }
}

/// What is kept of the pairing after the change: all of it, but for the address.
pub open spec fn changed_state(new: Option<Seq<char>>, kept: PersistedModel) -> PersistedModel {
    PersistedModel { ha_url: Some(changed_url(new, kept)), ..kept }
}

/// The script that the change installs: one where it is asked for and GRUB is
/// configured.
pub open spec fn changed_hook(
    c: ConfigModel,
    boot_url: Seq<char>,
    update_grub: bool,
) -> Option<HookModel> {
    match c.grub {
        Some(grub) => if update_grub {
            Some(HookModel { grub, boot_url, update_grub: true })
        } else {
            None
        },
        None => None,
    }
}

/// The script that a change with this address installs, from what was kept.
pub open spec fn planned_hook(
    c: ConfigModel,
    new: Option<Seq<char>>,
    kept: PersistedModel,
    update_grub: bool,
) -> Option<HookModel> {
    changed_hook(c, changed_boot_url(changed_url(new, kept), kept), update_grub)
}

/// Where the boot options go after the change.
pub open spec fn changed_sync(kept: PersistedModel) -> Option<SyncModel> {
    if kept.webhook_id is Some && kept.api_key is Some && kept.ha_url is Some {
        Some(
            SyncModel {
                ha_url: kept.ha_url->0,
                webhook_id: kept.webhook_id->0,
                api_key: kept.api_key->0,
            },
        )
    } else {
        None
    }
}

impl UpdateParsed {
    /// The new address, if there is one.
    pub closed spec fn ha_url(&self) -> Option<Seq<char>> {
        self.request.ha_url.deep_view()
    }

    /// Whether the script is to be installed anew.
    pub closed spec fn update_grub(&self) -> bool {
        self.request.update_grub
    }

    /// Goes on with what was kept of the pairing, or answers where it cannot be
    /// read.
    pub fn stored(self, kept: Option<PersistedState>, config: &Config) -> (r: Result<
        UpdatePlanned,
        Reply,
    >)
        ensures
            match r {
                Ok(next) => {
                    &&& kept_view(kept) matches Some(before)
                    &&& next.kept() == changed_state(self.ha_url(), before)
                    &&& next.hook() == planned_hook(
                        config@,
                        self.ha_url(),
                        before,
                        self.update_grub(),
                    )
                },
                Err(reply) => kept is None && reply.is_error(
                    INTERNAL_SERVER_ERROR,
                    "Failed to read state"@,
                ),
            },
    {
        let before = match kept {
            Some(kept) => kept,
            None => {
                return Err(error_reply(INTERNAL_SERVER_ERROR, "Failed to read state"));
            },
        };
        let ha_url = match self.request.ha_url {
            Some(url) => url,
            None => match &before.ha_url {
                Some(url) => url.clone(),
                None => String::new(),
            },
        };
        let boot_url = match &before.webhook_id {
            Some(id) => webhook_url(ha_url.as_str(), id.as_str()),
            None => String::new(),
        };
        let hook = match &config.grub {
            Some(grub) => if self.request.update_grub {
                Some(HookPlan { grub: grub.clone(), boot_url, update_grub: true })
            } else {
                None
            },
            None => None,
        };
        Ok(UpdatePlanned { kept: PersistedState { ha_url: Some(ha_url), ..before }, hook })
    }
}

/// A change that only waits for the script to be installed.
pub struct UpdatePlanned {
    kept: PersistedState,
    hook: Option<HookPlan>,
}

/// A change that is done.
pub struct UpdateCommit {
    /// What is kept of the pairing.
    pub persisted: PersistedState,
    /// The answer.
    pub reply: Reply,
    /// Where the boot options go, if they are sent anew.
    pub sync: Option<SyncJob>,
}

impl UpdatePlanned {
    /// What is to be kept of the pairing.
    pub closed spec fn kept(&self) -> PersistedModel {
        self.kept@
    }

    /// The script that is to be installed.
    pub closed spec fn hook(&self) -> Option<HookModel> {
        hook_view(self.hook)
    }

    /// The script that is to be installed, if any.
    pub fn hook_plan(&self) -> (r: Option<HookPlan>)
        ensures
            hook_view(r) == self.hook(),
    {
        copy_plan(&self.hook)
    }

    /// Ends the change once the script is installed, or answers why it could
    /// not be.
    pub fn finish(self, installed: Result<(), String>) -> (r: Result<UpdateCommit, Reply>)
        ensures
            match r {
                Ok(commit) => installed is Ok && commit.persisted@ == self.kept()
                    && commit.reply.is_success() && sync_view(commit.sync) == changed_sync(
                    self.kept(),
                ),
                Err(reply) => installed matches Err(reason) && reply.is_error(
                    INTERNAL_SERVER_ERROR,
                    script_error(reason@),
                ),
            },
    {
        if let Err(reason) = installed {
            return Err(
                error_reply(
                    INTERNAL_SERVER_ERROR,
                    concat("Failed to apply GRUB configuration: ", reason.as_str()).as_str(),
                ),
            );
        }
        let sync = match (&self.kept.webhook_id, &self.kept.api_key, &self.kept.ha_url) {
            (Some(webhook_id), Some(api_key), Some(ha_url)) => Some(
                SyncJob {
                    ha_url: ha_url.clone(),
                    webhook_id: webhook_id.clone(),
                    api_key: api_key.clone(),
                },
            ),
            _ => None,
        };
        Ok(UpdateCommit { persisted: self.kept, reply: success_reply(), sync })
    }
}

/// After a change, a daemon that starts sends the boot options to the new
/// address, with the same webhook and key as before.
pub proof fn change_outlives_restart(kept: PersistedModel, url: Seq<char>)
    requires
        kept.paired,
        kept.webhook_id is Some,
        kept.api_key is Some,
    ensures
        ({
            let after = changed_state(Some(url), kept);
            startup_sync(Some(after)) == Some(
                SyncModel {
                    ha_url: url,
                    webhook_id: kept.webhook_id->0,
                    api_key: kept.api_key->0,
                },
            ) && startup_sync(Some(after)) == changed_sync(after)
        }),
{
}

/// A request that names no address leaves what is kept as it was.
pub proof fn empty_change_keeps_state(kept: PersistedModel)
    requires
        kept.ha_url is Some,
    ensures
        changed_state(None, kept) == kept,
{
}

/// The script that a change installs asks the same address as the one that the
/// pairing would have installed with the changed address.
pub proof fn change_asks_the_same_webhook(
    c: ConfigModel,
    present: Seq<bool>,
    request: PairModel,
    token: Seq<char>,
    url: Seq<char>,
)
    requires
        c.grub is Some,
    ensures
        changed_hook(c, changed_boot_url(url, kept_of(request, token)), true)->0.boot_url
            == pairing_hook(c, present, url, request.webhook_id, true)->0.boot_url,
{
}

} // verus!
