//! What goes over the network: requests, answers and what is in them.

use vstd::prelude::*;

use crate::client::{
    all_ascii, authorization_of, has_letters_ok, lowercase, outcome_of, payload_members,
    push_message, tells_unregistered, PushError, PushReply, PushRequest,
};
use crate::daemon::{listed, status_members, verified_members, verify_refusal, DaemonModel};
use crate::json::{json_read, members, Json, Members, Object};
use crate::laws::boot::webhook_stands_below_its_base;
use crate::laws::text::{
    case_is_told_letter_by_letter, parts_are_found, same_letter, stands_nowhere,
    trimming_takes_off_white_space,
};
use crate::net::{interface_members, ipv4_among, usable, Interface};
use crate::reply::{error_members, success_members, Body, Reply};
use crate::request::{bearer_of, bearer_token, carries_token, route_of, Header, Route};
use crate::text::{decimal, is_white, trimmed};
use crate::wizard::dump_members;

verus! {

/// Whether the document is the list of these texts, each whole and in its place.
pub open spec fn lists(json: Json, items: Seq<Seq<char>>) -> bool {
    json matches Json::Array(list) && list.len() == items.len() && forall|i: int|
        0 <= i < items.len() ==> #[trigger] list[i] == Json::Text(items[i])
}

/// Whether the letters `o` and `k`, each in upper or lower case, stand at `i`.
pub open spec fn letters_ok_at(s: Seq<char>, i: int) -> bool {
    0 <= i < s.len() - 1 && (s[i] == 'o' || s[i] == 'O') && (s[i + 1] == 'k' || s[i + 1] == 'K')
}

/// An answer in ASCII is a success exactly where its status is in the two
/// hundreds and the letters `o` and `k`, in upper or lower case, stand side by
/// side somewhere in its body.
pub proof fn success_is_an_answer_with_letters_ok(status: u16, body: String)
    requires
        forall|i: int| 0 <= i < body@.len() ==> (#[trigger] body@[i] as u32) < 128,
    ensures
        outcome_of(PushReply::Answered { status, body }) is Ok <==> 200 <= status <= 299 && exists|
            i: int,
        | #[trigger] letters_ok_at(body@, i),
{
    let s = body@;
    let (from, to) = trimming_takes_off_white_space(s);
    let t = trimmed(s);
    assert forall|i: int| 0 <= i < t.len() implies (#[trigger] t[i] as u32) < 128 by {
        assert(t[i] == s[from + i]);
    }
    success_between_white_space(status, body);
}

/// White space around an answer does not matter, whatever it is written in.
pub proof fn success_between_white_space(status: u16, body: String)
    requires
        forall|i: int|
            0 <= i < trimmed(body@).len() ==> (#[trigger] trimmed(body@)[i] as u32) < 128,
    ensures
        outcome_of(PushReply::Answered { status, body }) is Ok <==> 200 <= status <= 299 && exists|
            i: int,
        | #[trigger] letters_ok_at(body@, i),
{
    let s = body@;
    let (from, to) = trimming_takes_off_white_space(s);
    let t = trimmed(s);
    assert(all_ascii(t));
    if has_letters_ok(t) {
        let i = choose|i: int|
            0 <= i < t.len() - 1 && (#[trigger] t[i] == 'o' || t[i] == 'O') && (t[i + 1] == 'k'
                || t[i + 1] == 'K');
        assert(t[i] == s[from + i] && t[i + 1] == s[from + i + 1]);
        assert(letters_ok_at(s, from + i));
    }
    if exists|i: int| letters_ok_at(s, i) {
        let i = choose|i: int| letters_ok_at(s, i);
        assert(!is_white(s[i]) && !is_white(s[i + 1]));
        assert(from <= i && i + 1 < to);
        assert(t[i - from] == s[i] && t[i - from + 1] == s[i + 1]);
        assert(has_letters_ok(t));
    }
}

/// Whatever the answer is written in, it is a success exactly where its status
/// is in the two hundreds and what it says is `ok`, in upper or lower case.
pub proof fn success_in_other_letters(status: u16, body: String)
    requires
        !all_ascii(trimmed(body@)),
    ensures
        outcome_of(PushReply::Answered { status, body }) is Ok <==> 200 <= status <= 299
            && !stands_nowhere(lowercase(trimmed(body@)), "ok"@),
{
    parts_are_found(Seq::empty(), "ok"@, Seq::empty(), lowercase(trimmed(body@)));
}

/// What is no success is an error that tells it apart: a refusal and a missing
/// answer keep what was told, another status is kept, and a success that does
/// not acknowledge the message is an unknown webhook.
pub proof fn failures_are_told_apart(reply: PushReply)
    ensures
        reply matches PushReply::Refused { status, body } ==> outcome_of(reply) == Err::<
            (),
            PushError,
        >(PushError::Refused { status, body }),
        reply matches PushReply::Failed { reason } ==> outcome_of(reply) == Err::<(), PushError>(
            PushError::Failed { reason },
        ),
        reply matches PushReply::Answered { status, body } ==> (status < 200 || status > 299)
            ==> outcome_of(reply) == Err::<(), PushError>(PushError::Unexpected { status }),
        reply matches PushReply::Answered { status, body } ==> 200 <= status <= 299
            ==> outcome_of(reply) is Ok || outcome_of(reply) == Err::<(), PushError>(
            PushError::Unregistered,
        ),
        reply matches PushReply::Answered { status, body } ==> (forall|i: int|
            0 <= i < body@.len() ==> is_white(#[trigger] body@[i])) ==> outcome_of(reply) is Err,
{
    if let PushReply::Answered { status, body } = reply {
        let (from, to) = trimming_takes_off_white_space(body@);
        if forall|i: int| 0 <= i < body@.len() ==> is_white(#[trigger] body@[i]) {
            if from < to {
                assert(is_white(body@[from]));
            }
            assert(trimmed(body@).len() == 0);
        }
    }
}

/// The message of an error holds all that the error keeps.
pub proof fn errors_tell_what_they_keep(error: PushError)
    ensures
        error matches PushError::Refused { status, body } ==> push_message(error)
            == "HTTP error response (status "@ + decimal(status as nat) + "): "@ + body@,
        error matches PushError::Failed { reason } ==> push_message(error) == "Transport error: "@
            + reason@,
        error is Unregistered ==> push_message(error) == "Webhook unregistered on Home Assistant"@
            && tells_unregistered(error),
        error matches PushError::Unexpected { status } ==> push_message(error)
            == "Failed to push boot options to Home Assistant. HTTP status: "@ + decimal(
            status as nat,
        ),
        tells_unregistered(error) <==> !stands_nowhere(
            push_message(error),
            "Webhook unregistered"@,
        ),
{
    let part = "Webhook unregistered"@;
    parts_are_found(Seq::empty(), part, " on Home Assistant"@, push_message(error));
    reveal_strlit("Webhook unregistered");
    reveal_strlit(" on Home Assistant");
    reveal_strlit("Webhook unregistered on Home Assistant");
    assert(Seq::<char>::empty() + part + " on Home Assistant"@
        =~= "Webhook unregistered on Home Assistant"@);
}

/// The boot options are sent with the MAC address and every entry, in order.
pub proof fn boot_options_are_sent_whole(mac: Seq<char>, entries: Seq<Seq<char>>)
    ensures
        payload_members(mac, entries).dom() == set!["action"@, "mac"@, "boot_options"@],
        payload_members(mac, entries)["action"@] == Json::Text("update_boot_options"@),
        payload_members(mac, entries)["mac"@] == Json::Text(mac),
        lists(payload_members(mac, entries)["boot_options"@], entries),
{
    member_names();
    assert(payload_members(mac, entries).dom() =~= set!["action"@, "mac"@, "boot_options"@]);
}

proof fn member_names()
    ensures
        "action"@.len() == 6,
        "mac"@.len() == 3,
        "boot_options"@.len() == 12,
        "success"@.len() == 7,
        "token"@.len() == 5,
        "hostname"@.len() == 8,
        "os"@.len() == 2,
        "paired"@.len() == 6,
        "version"@.len() == 7,
        "address"@.len() == 7,
        "error"@.len() == 5,
        "hint"@.len() == 4,
        "message"@.len() == 7,
        "name"@.len() == 4,
        "mac_address"@.len() == 11,
        "ip_address"@.len() == 10,
        "ip_addresses"@.len() == 12,
{
    reveal_strlit("action");
    reveal_strlit("mac");
    reveal_strlit("boot_options");
    reveal_strlit("success");
    reveal_strlit("token");
    reveal_strlit("hostname");
    reveal_strlit("os");
    reveal_strlit("paired");
    reveal_strlit("version");
    reveal_strlit("address");
    reveal_strlit("error");
    reveal_strlit("hint");
    reveal_strlit("message");
    reveal_strlit("name");
    reveal_strlit("mac_address");
    reveal_strlit("ip_address");
    reveal_strlit("ip_addresses");
}

/// The answer to the right PIN holds each of the values under its own name and
/// nothing else but that all went well; its MAC address is the one under which
/// the boot options are sent.
pub proof fn verified_answer_tells_each_value(
    token: Seq<char>,
    mac: Seq<char>,
    hostname: Seq<char>,
    os: Seq<char>,
    entries: Seq<Seq<char>>,
)
    ensures
        ({
            let all = verified_members(token, mac, hostname, os, entries);
            &&& all.dom() == set![
                "success"@,
                "token"@,
                "mac"@,
                "hostname"@,
                "os"@,
                "boot_options"@,
            ]
            &&& all["success"@] == Json::Bool(true)
            &&& all["token"@] == Json::Text(token)
            &&& all["mac"@] == Json::Text(mac)
            &&& all["hostname"@] == Json::Text(hostname)
            &&& all["os"@] == Json::Text(os)
            &&& lists(all["boot_options"@], entries)
            &&& all["mac"@] == payload_members(mac, entries)["mac"@]
            &&& all["boot_options"@] == payload_members(mac, entries)["boot_options"@]
        }),
{
    member_names();
    assert(verified_members(token, mac, hostname, os, entries).dom() =~= set![
        "success"@,
        "token"@,
        "mac"@,
        "hostname"@,
        "os"@,
        "boot_options"@,
    ]);
}

/// What describes a host for a pairing by hand holds each of the values under
/// its own name; its MAC address and boot options are those that are sent.
pub proof fn dump_tells_each_value(
    mac: Seq<char>,
    address: Seq<char>,
    hostname: Seq<char>,
    os: Seq<char>,
    entries: Seq<Seq<char>>,
)
    ensures
        ({
            let all = dump_members(mac, address, hostname, os, entries);
            &&& all.dom() == set!["mac"@, "address"@, "hostname"@, "os"@, "boot_options"@]
            &&& all["mac"@] == Json::Text(mac)
            &&& all["address"@] == Json::Text(address)
            &&& all["hostname"@] == Json::Text(hostname)
            &&& all["os"@] == Json::Text(os)
            &&& lists(all["boot_options"@], entries)
            &&& all["mac"@] == payload_members(mac, entries)["mac"@]
        }),
{
    member_names();
    assert(dump_members(mac, address, hostname, os, entries).dom() =~= set![
        "mac"@,
        "address"@,
        "hostname"@,
        "os"@,
        "boot_options"@,
    ]);
}

/// The answer to a question for the status holds each of the values under its name.
pub proof fn status_tells_each_value(paired: bool, os: Seq<char>, version: Seq<char>)
    ensures
        status_members(paired, os, version).dom() == set!["paired"@, "os"@, "version"@],
        status_members(paired, os, version)["paired"@] == Json::Bool(paired),
        status_members(paired, os, version)["os"@] == Json::Text(os),
        status_members(paired, os, version)["version"@] == Json::Text(version),
{
    member_names();
    assert(status_members(paired, os, version).dom() =~= set!["paired"@, "os"@, "version"@]);
}

/// What is told of an interface is its name, its MAC address, its first IPv4
/// address and all of them.
pub proof fn interface_is_told_whole(interface: Interface)
    ensures
        ({
            let all = interface_members(interface);
            &&& all.dom() == set!["name"@, "mac_address"@, "ip_address"@, "ip_addresses"@]
            &&& all["name"@] == Json::Text(interface.name@)
            &&& interface.mac_addr matches Some(mac) ==> all["mac_address"@] == Json::Text(mac@)
            &&& ipv4_among(interface.addresses@).len() > 0 ==> all["ip_address"@] == Json::Text(
                ipv4_among(interface.addresses@)[0],
            )
            &&& lists(all["ip_addresses"@], ipv4_among(interface.addresses@))
        }),
{
    member_names();
    assert(interface_members(interface).dom() =~= set![
        "name"@,
        "mac_address"@,
        "ip_address"@,
        "ip_addresses"@,
    ]);
}

/// An error is told under one name, whole, and success is told under another.
pub proof fn errors_and_success_are_told(reply: Reply, status: u16, message: Seq<char>)
    ensures
        reply.is_error(status, message) <==> reply.status == status && (reply.body@ matches
            Json::Object(all) && all.dom() == set!["error"@] && all["error"@] == Json::Text(
            message,
        )),
        reply.is_success() <==> reply.status == 200 && (reply.body@ matches Json::Object(all)
            && all.dom() == set!["success"@] && all["success"@] == Json::Bool(true)),
{
    assert(error_members(message).dom() =~= set!["error"@]);
    assert(success_members().dom() =~= set!["success"@]);
    if let Json::Object(all) = reply.body@ {
        if all.dom() == set!["error"@] && all["error"@] == Json::Text(message) {
            assert(all =~= error_members(message));
        }
        if all.dom() == set!["success"@] && all["success"@] == Json::Bool(true) {
            assert(all =~= success_members());
        }
    }
}

/// An answer says a status and members exactly where it has both.
pub proof fn answers_say_what_they_hold(reply: Reply, status: u16, all: Members)
    ensures
        reply.says(status, all) <==> reply.status == status && reply.body@ == Json::Object(all),
{
}

/// A request for a token goes on exactly where it carries the PIN; a paired
/// daemon without one answers that it is paired and how to get a PIN, any other
/// that the PIN is wrong.
pub proof fn wrong_pins_are_answered(s: DaemonModel, given: Option<Seq<char>>)
    ensures
        verify_refusal(s, given) is None <==> s.setup_pin is Some && given is Some && s.setup_pin->0
            == given->0,
        verify_refusal(s, given) matches Some((status, all)) ==> {
            &&& status == 409 <==> s.paired && s.setup_pin is None
            &&& status == 401 <==> !s.paired || s.setup_pin is Some
            &&& status == 409 ==> all.dom() == set!["error"@, "hint"@] && all["error"@]
                == Json::Text("already_paired"@) && all["hint"@] == Json::Text(
                "Run `grubstation reset-pin` on the host to generate a new pairing PIN."@,
            )
            &&& status == 401 ==> all.dom() == set!["error"@] && all["error"@] == Json::Text(
                "invalid_pin"@,
            )
        },
{
    member_names();
    if let Some((status, all)) = verify_refusal(s, given) {
        if status == 409 {
            assert(all.dom() =~= set!["error"@, "hint"@]);
        } else {
            assert(all.dom() =~= set!["error"@]);
        }
    }
}

/// A key is sent whole behind the name of its scheme, and nothing is sent for a
/// key of nothing but white space.
pub proof fn keys_are_sent_whole(key: Seq<char>)
    ensures
        authorization_of(key) is None <==> forall|i: int|
            0 <= i < key.len() ==> is_white(#[trigger] key[i]),
        authorization_of(key) matches Some(value) ==> value == "Bearer "@ + key,
{
    let (from, to) = trimming_takes_off_white_space(key);
    if forall|i: int| 0 <= i < key.len() ==> is_white(#[trigger] key[i]) {
        if from < to {
            assert(is_white(key[from]));
        }
    }
}

/// A value carries a token exactly where it starts with the name of the scheme,
/// in upper or lower case, and a space; the token is all behind it but for white
/// space at its ends.
pub proof fn token_stands_behind_its_scheme(scheme: Seq<char>, rest: Seq<char>)
    requires
        scheme.len() == 7,
    ensures
        bearer_of(scheme + rest) is Some <==> forall|i: int|
            0 <= i < 7 ==> same_letter(#[trigger] scheme[i], "bearer "@[i]),
        bearer_of(scheme + rest) matches Some(token) ==> token == trimmed(rest),
{
    reveal_strlit("bearer ");
    assert((scheme + rest).take(7) =~= scheme);
    assert((scheme + rest).skip(7) =~= rest);
    case_is_told_letter_by_letter(scheme, "bearer "@);
}

/// What is shorter than the name of the scheme carries no token.
pub proof fn short_values_carry_no_token(value: Seq<char>)
    requires
        value.len() < 7,
    ensures
        bearer_of(value) is None,
{
}

/// A header carries a token exactly where its name is that of the credentials,
/// in upper or lower case, and its value is of the scheme.
pub proof fn credentials_stand_under_their_name(header: Header)
    ensures
        carries_token(header) <==> header.field@.len() == 13 && (forall|i: int|
            0 <= i < 13 ==> same_letter(#[trigger] header.field@[i], "authorization"@[i]))
            && bearer_of(header.value@) is Some,
{
    reveal_strlit("authorization");
    case_is_told_letter_by_letter(header.field@, "authorization"@);
}

/// The token of a request is that of the first header that carries one, whatever
/// stands before and behind it.
pub proof fn first_token_counts(before: Seq<Header>, header: Header, behind: Seq<Header>)
    requires
        forall|i: int| 0 <= i < before.len() ==> !carries_token(#[trigger] before[i]),
        carries_token(header),
    ensures
        bearer_token(before + seq![header] + behind) == bearer_of(header.value@),
    decreases before.len(),
{
    let all = before + seq![header] + behind;
    if before.len() > 0 {
        let rest = before.drop_first();
        assert(all[0] == before[0]);
        assert forall|i: int| 0 <= i < rest.len() implies !carries_token(#[trigger] rest[i]) by {
            assert(rest[i] == before[i + 1]);
        }
        first_token_counts(rest, header, behind);
        assert(all.drop_first() =~= rest + seq![header] + behind);
    } else {
        assert(all[0] == header);
    }
}

/// Each thing that can be asked for has one method and one target, and nothing
/// else asks for it.
pub proof fn routes_have_one_method_and_target(method: Seq<char>, target: Seq<char>)
    ensures
        route_of(method, target) == Route::Status <==> method == "GET"@ && target == "/status"@,
        route_of(method, target) == Route::Interfaces <==> method == "GET"@ && target
            == "/interfaces"@,
        route_of(method, target) == Route::PairVerify <==> method == "POST"@ && target
            == "/pair/verify"@,
        route_of(method, target) == Route::Pair <==> method == "POST"@ && target == "/pair"@,
        route_of(method, target) == Route::Update <==> method == "POST"@ && target == "/update"@,
        route_of(method, target) == Route::Unpair <==> method == "POST"@ && target == "/unpair"@,
        route_of(method, target) == Route::Shutdown <==> method == "POST"@ && target
            == "/shutdown"@,
{
    reveal_strlit("GET");
    reveal_strlit("POST");
    reveal_strlit("/status");
    reveal_strlit("/interfaces");
    reveal_strlit("/pair/verify");
    reveal_strlit("/pair");
    reveal_strlit("/update");
    reveal_strlit("/unpair");
    reveal_strlit("/shutdown");
    assert("GET"@.len() == 3 && "POST"@.len() == 4);
    assert("/status"@.len() == 7 && "/interfaces"@.len() == 11);
    assert("/pair/verify"@.len() == 12 && "/pair"@.len() == 5 && "/shutdown"@.len() == 9);
    assert("/update"@.len() == 7 && "/unpair"@.len() == 7);
    assert("/update"@[2] == 'p' && "/unpair"@[2] == 'n');
}

/// A request sends the boot options below its base, with its key, to be answered
/// in ten seconds; its body reads back with the MAC address and every entry.
pub proof fn sent_request_is_whole(
    request: PushRequest,
    base: Seq<char>,
    slashes: Seq<char>,
    id: Seq<char>,
    key: Seq<char>,
    mac: Seq<char>,
    entries: Seq<Seq<char>>,
)
    requires
        request.sends(base + slashes, id, key, mac, entries),
        base.len() > 0 ==> base.last() != '/',
        forall|i: int| 0 <= i < slashes.len() ==> slashes[i] == '/',
    ensures
        request.url@ == base + "/api/webhook/"@ + id,
        request.authorization is None <==> forall|i: int|
            0 <= i < key.len() ==> is_white(#[trigger] key[i]),
        request.authorization matches Some(value) ==> value@ == "Bearer "@ + key,
        request.timeout_seconds == 10,
        json_read(request.body@) matches Ok(Json::Object(all)) && all["action"@] == Json::Text(
            "update_boot_options"@,
        ) && all["mac"@] == Json::Text(mac) && lists(all["boot_options"@], entries),
{
    webhook_stands_below_its_base(base, slashes, id);
    keys_are_sent_whole(key);
    boot_options_are_sent_whole(mac, entries);
}

/// Every interface that can be offered is told, in order, and no other.
pub proof fn offered_interfaces_are_told(all: Seq<Interface>, k: int)
    ensures
        listed(all) matches Json::Array(list) && list.len() == usable(all).len() && (0 <= k
            < list.len() ==> list[k] == Json::Object(interface_members(usable(all)[k]))),
{
}

/// An answer holds its object, or each of its objects in order.
pub proof fn answers_hold_their_objects(object: Object, objects: Vec<Object>, k: int)
    ensures
        Body::One(object)@ == Json::Object(members(object)),
        Body::Many(objects)@ matches Json::Array(list) && list.len() == objects@.len() && (0 <= k
            < list.len() ==> list[k] == Json::Object(members(objects@[k]))),
{
}

} // verus!
