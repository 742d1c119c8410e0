//! Sending the boot options on demand.

use vstd::prelude::*;

use crate::client::{build_boot_options_payload, payload_members, payload_survives};
use crate::config::Config;
use crate::daemon::{
    restored, startup_sync, verify_refusal, PersistedModel, SyncJob, SyncModel,
};
use crate::json::{
    flag_in, get_text, json_line, json_page, json_read, members, new_object, read_object, reads_as,
    reads_like, text_in, write_line, write_page, Json, Members, Object,
};
use crate::pairing::{sync_of, PairModel};
use crate::state_file::{
    kept_members, manual_members, member_names_differ, object_says_paired, reset_members,
    says_paired, setup_members, state_members,
};
use crate::text::concat;

verus! {

/// What there is of the state file.
pub enum StateFile {
    Missing,
    Unreadable { reason: String },
    Text(String),
}

/// Why the boot options cannot be sent.
pub enum SyncError {
    /// No GRUB configuration is configured.
    NoGrub,
    /// There is no state file.
    NoState,
    /// The state file cannot be read.
    Unreadable { reason: String },
    /// The state file is no JSON.
    Unparsable { reason: String },
    /// The daemon is not paired.
    NotPaired,
    /// The state file names no webhook.
    NoWebhook,
    /// The state file names no address of Home Assistant.
    NoUrl,
}

/// What the state file lacks.
#[derive(Clone, Copy, Debug, PartialEq, Eq, Structural)]
pub enum Lack {
    Pairing,
    Webhook,
    Url,
}

/// The message of an error.
pub open spec fn sync_message(error: SyncError) -> Seq<char> {
    match error {
        SyncError::NoGrub => "No GRUB configuration found to sync."@,
        SyncError::NoState => "Daemon is not paired. Please pair the daemon first or ensure state.json exists."@,
        SyncError::Unreadable { reason } => "Failed to read state.json: "@ + reason@,
        SyncError::Unparsable { reason } => "Failed to parse state.json: "@ + reason@,
        SyncError::NotPaired => "Daemon is not paired. Please pair the daemon first."@,
        SyncError::NoWebhook => "Missing webhook_id in state.json"@,
        SyncError::NoUrl => "Missing ha_url in state.json"@,
    }
}

impl SyncError {
    /// The message of the error.
    pub fn message(&self) -> (r: String)
        ensures
            r@ == sync_message(*self),
    {
        match self {
            SyncError::NoGrub => "No GRUB configuration found to sync.".to_string(),
            SyncError::NoState => "Daemon is not paired. Please pair the daemon first or ensure state.json exists.".to_string(),
            SyncError::Unreadable { reason } => concat(
                "Failed to read state.json: ",
                reason.as_str(),
            ),
            SyncError::Unparsable { reason } => concat(
                "Failed to parse state.json: ",
                reason.as_str(),
            ),
            SyncError::NotPaired => "Daemon is not paired. Please pair the daemon first.".to_string(),
            SyncError::NoWebhook => "Missing webhook_id in state.json".to_string(),
            SyncError::NoUrl => "Missing ha_url in state.json".to_string(),
        }
    }
}

/// Where the boot options go, from the members of the state file, or what they lack.
pub open spec fn sync_target(all: Members) -> Result<SyncModel, Lack> {
    if !says_paired(all) {
        Err(Lack::Pairing)
    } else {
        match (text_in(all, "webhook_id"@), text_in(all, "ha_url"@)) {
            (None, _) => Err(Lack::Webhook),
            (_, None) => Err(Lack::Url),
            (Some(webhook_id), Some(ha_url)) => Ok(
                SyncModel {
                    ha_url,
                    webhook_id,
                    api_key: match text_in(all, "api_key"@) {
                        Some(key) => key,
                        None => Seq::empty(),
                    },
                },
            ),
        }
    }
}

/// Where the boot options go, from the object of the state file, or what it lacks.
pub fn target_of(object: &Object) -> (r: Result<SyncJob, Lack>)
    ensures
        match sync_target(members(*object)) {
            Ok(target) => r matches Ok(job) && job@ == target,
            Err(lack) => r == Err::<SyncJob, Lack>(lack),
        },
{
    if !object_says_paired(object) {
        return Err(Lack::Pairing);
    }
    let webhook_id = match get_text(object, "webhook_id") {
        Some(id) => id,
        None => {
            return Err(Lack::Webhook);
        },
    };
    let api_key = match get_text(object, "api_key") {
        Some(key) => key,
        None => String::new(),
    };
    match get_text(object, "ha_url") {
        Some(ha_url) => Ok(SyncJob { ha_url, webhook_id, api_key }),
        None => Err(Lack::Url),
    }
}

/// The error that tells a lack.
pub open spec fn lack_error(lack: Lack) -> SyncError {
    match lack {
        Lack::Pairing => SyncError::NotPaired,
        Lack::Webhook => SyncError::NoWebhook,
        Lack::Url => SyncError::NoUrl,
    }
}

/// The boot menu whose entries are sent: the configured one.
pub fn menu_to_sync(config: &Config) -> (r: Result<String, SyncError>)
    ensures
        match config@.grub {
            Some(grub) => r matches Ok(path) && path@ == grub.path,
            None => r == Err::<String, SyncError>(SyncError::NoGrub),
        },
{
    match &config.grub {
        Some(grub) => Ok(grub.path.clone()),
        None => Err(SyncError::NoGrub),
    }
}

/// What a dry run shows: the message that would be sent, on several lines. It
/// reads back as the message.
pub fn dry_run_text(mac: &str, entries: &Vec<String>) -> (r: String)
    ensures
        r@ == json_page(Json::Object(payload_members(mac@, entries.deep_view()))),
        reads_as(r@, payload_members(mac@, entries.deep_view())),
{
    proof {
        payload_survives(mac@, entries.deep_view());
    }
    write_page(&build_boot_options_payload(mac, entries))
}

/// The message that is sent, on one line. It reads back as the message.
pub fn payload_text(mac: &str, entries: &Vec<String>) -> (r: String)
    ensures
        r@ == json_line(Json::Object(payload_members(mac@, entries.deep_view()))),
        reads_as(r@, payload_members(mac@, entries.deep_view())),
{
    proof {
        payload_survives(mac@, entries.deep_view());
    }
    write_line(&build_boot_options_payload(mac, entries))
}

/// Whether the boot options go there, or cannot be sent for that reason, where
/// this is what there is of the state file.
pub open spec fn sends_by(state: StateFile, r: Result<SyncJob, SyncError>) -> bool {
    match state {
        StateFile::Missing => r == Err::<SyncJob, SyncError>(SyncError::NoState),
        StateFile::Unreadable { reason } => r == Err::<SyncJob, SyncError>(
            SyncError::Unreadable { reason },
        ),
        StateFile::Text(text) => match json_read(text@) {
            Err(error) => r matches Err(SyncError::Unparsable { reason }) && reason@ == error,
            Ok(document) => match sync_target(state_members(document)) {
                Ok(target) => r matches Ok(job) && job@ == target,
                Err(lack) => r == Err::<SyncJob, SyncError>(lack_error(lack)),
            },
        },
    }
}

/// Where the boot options go, from the state file, or why they cannot be sent.
pub fn run_sync(state: StateFile) -> (r: Result<SyncJob, SyncError>)
    ensures
        sends_by(state, r),
{
    match state {
        StateFile::Missing => Err(SyncError::NoState),
        StateFile::Unreadable { reason } => Err(SyncError::Unreadable { reason }),
        StateFile::Text(text) => {
            let object = match read_object(text.as_str()) {
                Ok(Some(object)) => object,
                Ok(None) => new_object(),
                Err(reason) => {
                    return Err(SyncError::Unparsable { reason });
                },
            };
            match target_of(&object) {
                Ok(job) => Ok(job),
                Err(Lack::Pairing) => Err(SyncError::NotPaired),
                Err(Lack::Webhook) => Err(SyncError::NoWebhook),
                Err(Lack::Url) => Err(SyncError::NoUrl),
            }
        },
    }
}

/// A pairing that was handed over by hand is where boot options go from then on.
pub proof fn manual_pairing_can_sync(text: Seq<char>, request: PairModel, token: Seq<char>)
    requires
        reads_as(text, manual_members(request, token)),
    ensures
        json_read(text) matches Ok(document) && sync_target(state_members(document)) == Ok::<
            SyncModel,
            Lack,
        >(sync_of(request)),
{
    member_names_differ();
}

/// What a daemon keeps of its pairing is where boot options go on demand, and
/// that is where the daemon sends them when it starts.
pub proof fn kept_pairing_can_sync(text: Seq<char>, kept: PersistedModel)
    requires
        reads_as(text, kept_members(kept)),
        startup_sync(Some(kept)) is Some,
    ensures
        json_read(text) matches Ok(document) && sync_target(state_members(document)) == Ok::<
            SyncModel,
            Lack,
        >(startup_sync(Some(kept))->0),
{
    member_names_differ();
}

/// A host that waits for its pairing cannot send boot options.
pub proof fn waiting_host_cannot_sync(pin: Seq<char>)
    ensures
        sync_target(setup_members(pin)) == Err::<SyncModel, Lack>(Lack::Pairing),
        text_in(setup_members(pin), "setup_pin"@) == Some(pin),
{
    member_names_differ();
}

/// A reset of the PIN ends the pairing, sets the PIN, and keeps every other
/// member of the state file.
pub proof fn reset_ends_pairing(all: Members, pin: Seq<char>, name: Seq<char>)
    ensures
        sync_target(reset_members(all, pin)) == Err::<SyncModel, Lack>(Lack::Pairing),
        text_in(reset_members(all, pin), "token"@) is None,
        text_in(reset_members(all, pin), "setup_pin"@) == Some(pin),
        name != "paired"@ && name != "token"@ && name != "setup_pin"@ ==> reset_members(
            all,
            pin,
        ).dom().contains(name) == all.dom().contains(name) && reset_members(all, pin)[name]
            == all[name],
{
    member_names_differ();
}

/// However a state file is read after a reset of the PIN, it says that the
/// pairing has ended, names the new PIN and has the other names from before.
pub proof fn reset_file_ends_pairing(
    text: Seq<char>,
    all: Members,
    pin: Seq<char>,
    document: Json,
)
    requires
        reads_like(text, reset_members(all, pin)),
        json_read(text) == Ok::<Json, Seq<char>>(document),
    ensures
        sync_target(state_members(document)) == Err::<SyncModel, Lack>(Lack::Pairing),
        flag_in(state_members(document), "paired"@) == Some(false),
        state_members(document).dom() == all.dom().insert("paired"@).insert("token"@).insert(
            "setup_pin"@,
        ),
        state_members(document)["token"@] == Json::Null,
        text_in(state_members(document), "setup_pin"@) == Some(pin),
{
    member_names_differ();
    let after = reset_members(all, pin);
    assert(after.dom().contains("paired"@));
    assert(after.dom().contains("token"@));
    assert(after.dom().contains("setup_pin"@));
    assert(after.dom() =~= all.dom().insert("paired"@).insert("token"@).insert("setup_pin"@));
}

/// A reset of the PIN allows a new pairing: the state file is then that of a
/// daemon which hands out a token for the new PIN.
pub proof fn reset_allows_pairing(kept: PersistedModel, pin: Seq<char>)
    ensures
        ({
            let after = PersistedModel {
                paired: false,
                token: None,
                setup_pin: Some(pin),
                ..kept
            };
            &&& reset_members(kept_members(kept), pin) == kept_members(after)
            &&& verify_refusal(restored(Some(after)), Some(pin)) is None
        }),
{
    member_names_differ();
    let after = PersistedModel { paired: false, token: None, setup_pin: Some(pin), ..kept };
    assert(reset_members(kept_members(kept), pin) =~= kept_members(after));
}

} // verus!
