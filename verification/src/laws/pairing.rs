//! What a pairing opens, keeps and ends.

use vstd::prelude::*;

use crate::client::{push_message, tells_unregistered, PushError};
use crate::config::ConfigModel;
use crate::daemon::{
    after_failure, can_become, granted, holds_pin, holds_session, holds_token, kept_view, may_list,
    paired_up, restored, shutdown_members, starts, startup_sync, sync_view, unpair_refusal,
    unpaired, DaemonModel, DaemonState, PersistedModel, PersistedState, Startup, SyncJob, SyncModel,
};
use crate::hook::{hook_view, HookPlan};
use crate::json::{flag_in, json_read, no_members, reads_like, text_in, Json, Members};
use crate::laws::text::{decimal_spells_the_number, stands_nowhere, tokens_are_letters_and_digits};
use crate::laws::wire::errors_tell_what_they_keep;
use crate::mapping::Yaml;
use crate::pairing::{
    body_error, changes_interface, commits, interface_error, kept_of, script_error, sync_of,
    with_interface, PairCommit, PairModel, PairRequest, Received,
};
use crate::state_file::{
    kept_entries, kept_members, manual_members, member_names_differ, reset_members, reset_message,
    resets, says_paired, setup_members, state_members, text_says_paired, ResetError,
};
use crate::sync::{lack_error, sends_by, sync_message, sync_target, Lack, StateFile, SyncError};
use crate::text::{decimal, has_part, part_at};
use crate::update::changed_state;

verus! {

/// Credentials open what they are for exactly where they are the secret itself;
/// a session needs a finished pairing too.
pub proof fn secrets_open_by_being_the_same(s: DaemonModel, given: Option<Seq<char>>)
    ensures
        holds_token(s, given) <==> (given matches Some(text) && s.token matches Some(token) && text
            == token),
        holds_pin(s, given) <==> (given matches Some(text) && s.setup_pin matches Some(pin) && text
            == pin),
        holds_session(s, given) <==> s.paired && (given matches Some(text)
            && s.token matches Some(token) && text == token),
{
}

/// Handing out a token, finishing a pairing and ending it change what they are
/// for, and nothing else.
pub proof fn each_step_changes_its_part(s: DaemonModel, token: Seq<char>)
    ensures
        granted(s, token).token == Some(token),
        granted(s, token).paired == s.paired,
        granted(s, token).setup_pin == s.setup_pin,
        paired_up(s).paired,
        paired_up(s).setup_pin is None,
        paired_up(s).token == s.token,
        !unpaired(s).paired,
        unpaired(s).token is None,
        unpaired(s).setup_pin == s.setup_pin,
{
}

/// A daemon is paired with one that held its token, has a new token for one that
/// held its PIN, or has no pairing and the PIN as it was; else it is unchanged.
pub proof fn every_change_is_one_of_these(
    s: DaemonModel,
    given: Option<Seq<char>>,
    t: DaemonModel,
)
    requires
        can_become(s, given, t),
        t != s,
    ensures
        ({
            ||| given is Some && s.setup_pin == given && t.paired == s.paired && t.setup_pin
                == s.setup_pin && t.token is Some
            ||| given is Some && s.token == given && t.paired && t.token == s.token
                && t.setup_pin is None
            ||| !t.paired && t.token is None && t.setup_pin == s.setup_pin
        }),
{
}

/// A daemon that starts takes up what was kept, as it is, and without anything
/// kept it is not paired and opens to no one.
pub proof fn daemon_takes_up_what_was_kept(kept: PersistedModel)
    ensures
        restored(Some(kept)).paired == kept.paired,
        restored(Some(kept)).token == kept.token,
        restored(Some(kept)).setup_pin == kept.setup_pin,
        !restored(None).paired,
        restored(None).token is None,
        restored(None).setup_pin is None,
{
}

/// A daemon that starts sends the boot options exactly where it is paired and
/// knows the webhook and the address: there, and with the key that was kept.
pub proof fn daemon_starts_with_sending(kept: PersistedModel)
    ensures
        startup_sync(None) is None,
        startup_sync(Some(kept)) is Some <==> kept.paired && kept.webhook_id is Some
            && kept.ha_url is Some,
        startup_sync(Some(kept)) matches Some(job) ==> {
            &&& Some(job.ha_url) == kept.ha_url
            &&& Some(job.webhook_id) == kept.webhook_id
            &&& kept.api_key is Some ==> Some(job.api_key) == kept.api_key
            &&& kept.api_key is None ==> job.api_key.len() == 0
        },
{
}

/// What is kept of a pairing is what was handed over, with the token and without
/// a PIN, and the boot options go where it says.
pub proof fn pairing_keeps_what_was_handed_over(request: PairModel, token: Seq<char>)
    ensures
        kept_of(request, token).paired,
        kept_of(request, token).token == Some(token),
        kept_of(request, token).setup_pin is None,
        kept_of(request, token).webhook_id == Some(request.webhook_id),
        kept_of(request, token).api_key == Some(request.api_key),
        kept_of(request, token).ha_url == Some(request.ha_url),
        sync_of(request).ha_url == request.ha_url,
        sync_of(request).webhook_id == request.webhook_id,
        sync_of(request).api_key == request.api_key,
{
}

/// The chosen interface takes the place of the one before, and all else stays.
pub proof fn interface_is_all_that_changes(c: ConfigModel, interface: Seq<char>)
    ensures
        ({
            let after = with_interface(c, interface);
            &&& after.interface == interface
            &&& after.daemon_port == c.daemon_port && after.wake_on_lan == c.wake_on_lan
            &&& after.grub == c.grub && after.webhook_id == c.webhook_id
            &&& after.api_key == c.api_key && after.ha_daemon_url == c.ha_daemon_url
            &&& after.ha_grub_url == c.ha_grub_url
        }),
{
}

/// A body that cannot be used is answered with the whole reason, and a body that
/// can be used is not.
pub proof fn bad_bodies_are_answered_with_the_reason<T>(received: Received<T>)
    ensures
        received matches Received::Unreadable { reason } ==> body_error(received) == Some(
            "Failed to read request body: "@ + reason@,
        ),
        received matches Received::Malformed { reason } ==> body_error(received) == Some(
            "Invalid JSON payload: "@ + reason@,
        ),
        received is Parsed ==> body_error(received) is None,
{
}

/// The file of a host that waits says that it is not paired and has the PIN.
pub proof fn waiting_host_keeps_its_pin(pin: Seq<char>)
    ensures
        setup_members(pin).dom() == set!["paired"@, "setup_pin"@],
        setup_members(pin)["paired"@] == Json::Bool(false),
        setup_members(pin)["setup_pin"@] == Json::Text(pin),
{
    member_names_differ();
    assert(setup_members(pin).dom() =~= set!["paired"@, "setup_pin"@]);
}

/// The file of a pairing by hand has each value that was handed over under its
/// name, and the token.
pub proof fn pairing_by_hand_keeps_each_value(request: PairModel, token: Seq<char>)
    ensures
        ({
            let all = manual_members(request, token);
            &&& all.dom() == set!["paired"@, "token"@, "webhook_id"@, "api_key"@, "ha_url"@]
            &&& all["paired"@] == Json::Bool(true)
            &&& all["token"@] == Json::Text(token)
            &&& all["webhook_id"@] == Json::Text(request.webhook_id)
            &&& all["api_key"@] == Json::Text(request.api_key)
            &&& all["ha_url"@] == Json::Text(request.ha_url)
        }),
{
    member_names_differ();
    assert(manual_members(request, token).dom() =~= set![
        "paired"@,
        "token"@,
        "webhook_id"@,
        "api_key"@,
        "ha_url"@,
    ]);
}

/// Whether the member is this text, or nothing where there is none.
pub open spec fn is_text_or_null(member: Json, text: Option<Seq<char>>) -> bool {
    match text {
        Some(text) => member == Json::Text(text),
        None => member == Json::Null,
    }
}

/// The file of a daemon has each of its values under its name, and what is not
/// there as nothing.
pub proof fn daemon_keeps_each_value(kept: PersistedModel)
    ensures
        ({
            let all = kept_members(kept);
            &&& all.dom() == set![
                "paired"@,
                "token"@,
                "setup_pin"@,
                "webhook_id"@,
                "api_key"@,
                "ha_url"@,
            ]
            &&& all["paired"@] == Json::Bool(kept.paired)
            &&& is_text_or_null(all["token"@], kept.token)
            &&& is_text_or_null(all["setup_pin"@], kept.setup_pin)
            &&& is_text_or_null(all["webhook_id"@], kept.webhook_id)
            &&& is_text_or_null(all["api_key"@], kept.api_key)
            &&& is_text_or_null(all["ha_url"@], kept.ha_url)
        }),
{
    member_names_differ();
    assert(kept_members(kept).dom() =~= set![
        "paired"@,
        "token"@,
        "setup_pin"@,
        "webhook_id"@,
        "api_key"@,
        "ha_url"@,
    ]);
}

/// Whether the entry has this name and this text, or nothing where there is none.
pub open spec fn is_entry_of(
    entry: (Seq<char>, Yaml),
    name: Seq<char>,
    text: Option<Seq<char>>,
) -> bool {
    entry.0 == name && match text {
        Some(text) => entry.1 == Yaml::Text(text),
        None => entry.1 == Yaml::Null,
    }
}

/// The file of a daemon has its values in this order.
pub proof fn daemon_keeps_values_in_order(kept: PersistedModel)
    ensures
        kept_entries(kept).len() == 6,
        kept_entries(kept)[0] == ("paired"@, Yaml::Flag(kept.paired)),
        is_entry_of(kept_entries(kept)[1], "token"@, kept.token),
        is_entry_of(kept_entries(kept)[2], "setup_pin"@, kept.setup_pin),
        is_entry_of(kept_entries(kept)[3], "webhook_id"@, kept.webhook_id),
        is_entry_of(kept_entries(kept)[4], "api_key"@, kept.api_key),
        is_entry_of(kept_entries(kept)[5], "ha_url"@, kept.ha_url),
{
}

/// A reset of the PIN says that there is no pairing and no token, has the new
/// PIN, and keeps every other member as it is.
pub proof fn reset_changes_three_members(all: Members, pin: Seq<char>, name: Seq<char>)
    ensures
        ({
            let after = reset_members(all, pin);
            &&& after.dom() == all.dom().insert("paired"@).insert("token"@).insert("setup_pin"@)
            &&& after["paired"@] == Json::Bool(false)
            &&& after["token"@] == Json::Null
            &&& after["setup_pin"@] == Json::Text(pin)
            &&& all.dom().contains(name) && name != "paired"@ && name != "token"@ && name
                != "setup_pin"@ ==> after[name] == all[name]
        }),
{
    member_names_differ();
    assert(reset_members(all, pin).dom() =~= all.dom().insert("paired"@).insert("token"@).insert(
        "setup_pin"@,
    ));
}

/// A file says that the daemon is paired exactly where it holds an object whose
/// member of that name is true.
pub proof fn file_says_paired_by_one_member(document: Json)
    ensures
        says_paired(state_members(document)) <==> (document matches Json::Object(all)
            && all.dom().contains("paired"@) && all["paired"@] == Json::Bool(true)),
{
}

/// Whether the members have a text of this name.
pub open spec fn has_text(all: Members, name: Seq<char>) -> bool {
    all.dom().contains(name) && all[name] is Text
}

/// Boot options can be sent on demand exactly where the file says that the
/// daemon is paired and has the webhook and the address: there, and with the key
/// that is in the file; else what is lacking first is told.
pub proof fn boot_options_go_where_the_file_says(all: Members)
    ensures
        ({
            let paired = all.dom().contains("paired"@) && all["paired"@] == Json::Bool(true);
            let target = sync_target(all);
            &&& target is Ok <==> paired && has_text(all, "webhook_id"@) && has_text(
                all,
                "ha_url"@,
            )
            &&& target matches Ok(job) ==> {
                &&& all["webhook_id"@] == Json::Text(job.webhook_id)
                &&& all["ha_url"@] == Json::Text(job.ha_url)
                &&& has_text(all, "api_key"@) ==> all["api_key"@] == Json::Text(job.api_key)
                &&& !has_text(all, "api_key"@) ==> job.api_key.len() == 0
            }
            &&& target == Err::<SyncModel, Lack>(Lack::Pairing) <==> !paired
            &&& target == Err::<SyncModel, Lack>(Lack::Webhook) <==> paired && !has_text(
                all,
                "webhook_id"@,
            )
            &&& target == Err::<SyncModel, Lack>(Lack::Url) <==> paired && has_text(
                all,
                "webhook_id"@,
            ) && !has_text(all, "ha_url"@)
        }),
        lack_error(Lack::Pairing) is NotPaired,
        lack_error(Lack::Webhook) is NoWebhook,
        lack_error(Lack::Url) is NoUrl,
{
}

/// A flag and a text are read from the member of their name, and from no other kind.
pub proof fn members_are_read_by_kind(all: Members, name: Seq<char>, flag: bool, text: Seq<char>)
    ensures
        flag_in(all, name) == Some(flag) <==> all.dom().contains(name) && all[name] == Json::Bool(
            flag,
        ),
        flag_in(all, name) is None <==> !(all.dom().contains(name) && all[name] is Bool),
        text_in(all, name) == Some(text) <==> all.dom().contains(name) && all[name] == Json::Text(
            text,
        ),
        text_in(all, name) is None <==> !(all.dom().contains(name) && all[name] is Text),
{
}

/// The interfaces are listed for the token and for the PIN, and for nothing else.
pub proof fn interfaces_are_listed_for_either_secret(s: DaemonModel, given: Option<Seq<char>>)
    ensures
        may_list(s, given) <==> given is Some && (s.token == given || s.setup_pin == given),
{
}

/// A pairing is ended for its token only; a request that cannot end one is told
/// that there is none, or that it lacks the token.
pub proof fn pairing_is_ended_for_its_token(s: DaemonModel, given: Option<Seq<char>>)
    ensures
        unpair_refusal(s, given) is None <==> s.paired && given is Some && s.token == given,
        unpair_refusal(s, given) matches Some((status, all)) ==> {
            &&& status == 400 <==> !s.paired
            &&& status == 401 <==> s.paired
            &&& all.dom() == set!["error"@]
            &&& status == 400 ==> all["error"@] == Json::Text("Not paired"@)
            &&& status == 401 ==> all["error"@] == Json::Text("Unauthorized"@)
        },
{
    if let Some((status, all)) = unpair_refusal(s, given) {
        assert(all.dom() =~= set!["error"@]);
    }
}

/// A shutdown that is granted is told as a success.
pub proof fn shutdown_is_told()
    ensures
        shutdown_members().dom() == set!["success"@, "message"@],
        shutdown_members()["success"@] == Json::Bool(true),
        shutdown_members()["message"@] == Json::Text("Shutting down..."@),
{
    reveal_strlit("success");
    reveal_strlit("message");
    assert("success"@[0] == 's' && "message"@[0] == 'm');
    assert(shutdown_members().dom() =~= set!["success"@, "message"@]);
}

/// A failure to send boot options ends the pairing exactly where the webhook is
/// gone, and changes nothing else.
pub proof fn lost_webhook_ends_the_pairing(s: DaemonModel, error: PushError)
    ensures
        error is Unregistered ==> !after_failure(s, error).paired && after_failure(
            s,
            error,
        ).token is None && after_failure(s, error).setup_pin == s.setup_pin,
        error is Unexpected ==> after_failure(s, error) == s,
        stands_nowhere(push_message(error), "Webhook unregistered"@) ==> after_failure(s, error)
            == s,
{
    errors_tell_what_they_keep(error);
    if let PushError::Unexpected { status } = error {
        unexpected_status_is_no_lost_webhook(status);
    }
}

proof fn unexpected_status_is_no_lost_webhook(status: u16)
    ensures
        !tells_unregistered(PushError::Unexpected { status }),
{
    let part = "Webhook unregistered"@;
    reveal_strlit("Webhook unregistered");
    let start = "Failed to push boot options to Home Assistant. HTTP status: "@;
    reveal_strlit("Failed to push boot options to Home Assistant. HTTP status: ");
    let told = start + decimal(status as nat);
    decimal_spells_the_number(status as nat);
    if has_part(told, part) {
        let i = choose|i: int| part_at(told, part, i);
        assert(told.subrange(i, i + part.len())[0] == told[i]);
        if i < start.len() {
            assert(start[i] == 'W');
        } else {
            assert(told[i] == decimal(status as nat)[i - start.len()]);
        }
    }
}

/// A change keeps all of the pairing but the address.
pub proof fn change_keeps_all_but_the_address(new: Option<Seq<char>>, kept: PersistedModel)
    ensures
        new is Some ==> changed_state(new, kept).ha_url == new,
        new is None && kept.ha_url is Some ==> changed_state(new, kept).ha_url == kept.ha_url,
        changed_state(new, kept).paired == kept.paired,
        changed_state(new, kept).token == kept.token,
        changed_state(new, kept).setup_pin == kept.setup_pin,
        changed_state(new, kept).webhook_id == kept.webhook_id,
        changed_state(new, kept).api_key == kept.api_key,
{
}

/// A configuration is written anew exactly where the interface is another one.
pub proof fn new_interface_is_written(c: ConfigModel, interface: Seq<char>)
    ensures
        changes_interface(c, interface) <==> with_interface(c, interface) != c,
{
}

/// What went wrong in a hand-over is told with the whole reason.
pub proof fn failures_are_told_with_the_reason(reason: Seq<char>)
    ensures
        interface_error(reason) == "Failed to resolve interface details: "@ + reason,
        script_error(reason) == "Failed to apply GRUB configuration: "@ + reason,
{
}

/// What went wrong with the state file is told with the whole reason.
pub proof fn file_errors_are_told_with_the_reason(reason: String)
    ensures
        sync_message(SyncError::NoGrub) == "No GRUB configuration found to sync."@,
        sync_message(SyncError::NoState)
            == "Daemon is not paired. Please pair the daemon first or ensure state.json exists."@,
        sync_message(SyncError::Unreadable { reason }) == "Failed to read state.json: "@ + reason@,
        sync_message(SyncError::Unparsable { reason }) == "Failed to parse state.json: "@ + reason@,
        sync_message(SyncError::NotPaired)
            == "Daemon is not paired. Please pair the daemon first."@,
        sync_message(SyncError::NoWebhook) == "Missing webhook_id in state.json"@,
        sync_message(SyncError::NoUrl) == "Missing ha_url in state.json"@,
        reset_message(ResetError::Unparsable { reason }) == "Failed to parse state.json: "@
            + reason@,
        reset_message(ResetError::NotAnObject) == "state.json is not a JSON object"@,
{
}

/// Boot options go where the file that a pairing left says, with the webhook and
/// the key of that pairing; a file that is not there, cannot be read or is no
/// JSON is told as such.
pub proof fn file_decides_where_boot_options_go(
    state: StateFile,
    r: Result<SyncJob, SyncError>,
    request: PairModel,
    token: Seq<char>,
)
    requires
        sends_by(state, r),
    ensures
        state is Missing ==> r is Err && r->Err_0 is NoState,
        state matches StateFile::Unreadable { reason } ==> r == Err::<SyncJob, SyncError>(
            SyncError::Unreadable { reason },
        ),
        state matches StateFile::Text(text) ==> (json_read(text@) matches Err(error) ==> (
        r matches Err(SyncError::Unparsable { reason }) && reason@ == error)),
        state matches StateFile::Text(text) ==> json_read(text@) == Ok::<Json, Seq<char>>(
            Json::Object(manual_members(request, token)),
        ) ==> (r matches Ok(job) && job.ha_url@ == request.ha_url && job.webhook_id@
            == request.webhook_id && job.api_key@ == request.api_key),
{
    member_names_differ();
}

/// The models of what is kept, of the daemon, of a hand-over, of a script and of
/// where boot options go have every field of them.
pub proof fn state_is_seen_whole(
    kept: PersistedState,
    state: DaemonState,
    request: PairRequest,
    plan: HookPlan,
    job: SyncJob,
)
    ensures
        kept@.paired == kept.paired,
        kept@.token == kept.token.deep_view(),
        kept@.setup_pin == kept.setup_pin.deep_view(),
        kept@.webhook_id == kept.webhook_id.deep_view(),
        kept@.api_key == kept.api_key.deep_view(),
        kept@.ha_url == kept.ha_url.deep_view(),
        state@.paired == state.paired,
        state@.token == state.token.deep_view(),
        state@.setup_pin == state.setup_pin.deep_view(),
        request@.webhook_id == request.webhook_id@,
        request@.api_key == request.api_key@,
        request@.ha_url == request.ha_url@,
        request@.update_grub == request.update_grub,
        request@.interface == request.interface@,
        plan@.grub.path == plan.grub.path@,
        plan@.grub.network_wait == plan.grub.network_wait,
        plan@.grub.webhook_id == plan.grub.webhook_id@,
        plan@.boot_url == plan.boot_url@,
        plan@.update_grub == plan.update_grub,
        job@.ha_url == job.ha_url@,
        job@.webhook_id == job.webhook_id@,
        job@.api_key == job.api_key@,
        kept_view(Some(kept)) == Some(kept@) && kept_view(None) is None,
        hook_view(Some(plan)) == Some(plan@) && hook_view(None) is None,
        sync_view(Some(job)) == Some(job@) && sync_view(None) is None,
{
}

/// A reset of the PIN writes a file in which the host is not paired and has the
/// new PIN; a file that is no object, or no JSON, is told as such.
pub proof fn reset_writes_the_new_pin(
    text: Option<Seq<char>>,
    pin: Seq<char>,
    r: Result<String, ResetError>,
)
    requires
        resets(text, pin, r),
    ensures
        text is None ==> (r matches Ok(written) && json_read(written@) matches Ok(Json::Object(all))
            && all["setup_pin"@] == Json::Text(pin) && all["paired"@] == Json::Bool(false)),
        r matches Ok(written) ==> (json_read(written@) matches Ok(document) ==> {
            &&& document matches Json::Object(all)
            &&& all["setup_pin"@] == Json::Text(pin)
            &&& all["paired"@] == Json::Bool(false)
            &&& all["token"@] == Json::Null
        }),
        text matches Some(before) ==> (r is Ok <==> (json_read(before) matches Ok(document)
            && document is Object)),
        r matches Err(error) ==> text is Some && (error is NotAnObject <==> json_read(
            text->0,
        ) is Ok) && (error matches ResetError::Unparsable { reason } ==> json_read(text->0)
            == Err::<Json, Seq<char>>(reason@)),
{
    member_names_differ();
    if let Some(before) = text {
        if let Ok(Json::Object(all)) = json_read(before) {
            reset_file_keeps_three(all, pin, r->Ok_0@);
        }
    } else {
        reset_changes_three_members(no_members(), pin, "paired"@);
    }
}

proof fn reset_file_keeps_three(all: Members, pin: Seq<char>, written: Seq<char>)
    requires
        reads_like(written, reset_members(all, pin)),
    ensures
        json_read(written) matches Ok(document) ==> {
            &&& document matches Json::Object(found)
            &&& found["setup_pin"@] == Json::Text(pin)
            &&& found["paired"@] == Json::Bool(false)
            &&& found["token"@] == Json::Null
        },
{
    member_names_differ();
    let after = reset_members(all, pin);
    assert(after.dom().contains("paired"@));
    assert(after.dom().contains("token"@));
    assert(after.dom().contains("setup_pin"@));
}

/// A hand-over that is done keeps the token that was held and each value that
/// was handed over, and sends the boot options of the host that it resolved.
pub proof fn done_pairing_keeps_each_value(
    commit: PairCommit,
    request: PairModel,
    held: Option<Seq<char>>,
    mac: Seq<char>,
    address: Seq<char>,
    entries: Seq<Seq<char>>,
)
    requires
        commits(commit, request, held, mac, address, entries),
    ensures
        held is Some ==> commit.persisted.token.deep_view() == held,
        held is None ==> commit.persisted.token is Some && commit.persisted.token->0@.len() == 32,
        commit.persisted.paired,
        commit.persisted.setup_pin is None,
        commit.persisted.webhook_id.deep_view() == Some(request.webhook_id),
        commit.persisted.api_key.deep_view() == Some(request.api_key),
        commit.persisted.ha_url.deep_view() == Some(request.ha_url),
        commit.sync.ha_url@ == request.ha_url,
        commit.sync.webhook_id@ == request.webhook_id,
        commit.sync.api_key@ == request.api_key,
        commit.reply.status == 200,
        commit.mac@ == mac,
        commit.address@ == address,
        commit.entries.deep_view() == entries,
{
    if held is None {
        tokens_are_letters_and_digits(commit.persisted@.token->0);
    }
}

/// A daemon that starts listens where it is configured to and tells the network
/// whether it is paired, as it was kept.
pub proof fn daemon_starts_as_it_was_kept(
    c: ConfigModel,
    kept: Option<PersistedModel>,
    r: Startup,
)
    requires
        starts(c, kept, r),
    ensures
        c.daemon_port matches Some(port) ==> r.port == port,
        c.daemon_port is None ==> r.port == 8081,
        kept matches Some(before) ==> r.state.paired == before.paired && r.advertise_paired
            == before.paired && r.state.token.deep_view() == before.token
            && r.state.setup_pin.deep_view() == before.setup_pin,
        kept is None ==> !r.state.paired && !r.advertise_paired && r.state.token is None
            && r.state.setup_pin is None && r.sync is None,
        kept matches Some(before) ==> (r.sync matches Some(job) ==> before.paired && Some(
            job.ha_url@,
        ) == before.ha_url && Some(job.webhook_id@) == before.webhook_id),
        kept matches Some(before) ==> before.paired && before.ha_url is Some
            && before.webhook_id is Some ==> r.sync is Some,
{
}

/// The text of a file says that the daemon is paired exactly where it is read as
/// an object whose member of that name is true.
pub proof fn text_says_paired_by_one_member(text: Seq<char>)
    ensures
        text_says_paired(text) <==> (json_read(text) matches Ok(Json::Object(all))
            && all.dom().contains("paired"@) && all["paired"@] == Json::Bool(true)),
{
}

} // verus!
