//! The file that keeps the pairing, where it is read and written member by member.

use vstd::prelude::*;

use crate::daemon::{PersistedModel, PersistedState};
use crate::json::{
    flag_in, get_flag, insert_survives, json_page, json_read, members, new_object, no_members,
    plain_survives, read_object, reads_as, reads_like, set_flag, set_null, set_text, survives,
    write_page, Json, Members, Object,
};
use crate::mapping::{
    add_flag, add_null, add_text, as_json, is_flat, json_in_order, members_of, names,
    names_of_pushed, new_mapping, no_entries, write_json, yaml_entries, Entries, Yaml,
};
use crate::pairing::{PairModel, PairRequest};
use crate::text::concat;

verus! {

/// The members of a state file: those of its object, or none where it holds
/// some other document.
pub open spec fn state_members(document: Json) -> Members {
    match document {
        Json::Object(all) => all,
        _ => no_members(),
    }
}

/// Whether the members say that the daemon is paired.
pub open spec fn says_paired(all: Members) -> bool {
    flag_in(all, "paired"@) == Some(true)
}

/// Whether the text of a state file says that the daemon is paired.
pub open spec fn text_says_paired(text: Seq<char>) -> bool {
    match json_read(text) {
        Ok(document) => says_paired(state_members(document)),
        Err(_) => false,
    }
}

/// Whether the object says that the daemon is paired.
pub fn object_says_paired(object: &Object) -> (r: bool)
    ensures
        r == says_paired(members(*object)),
{
    match get_flag(object, "paired") {
        Some(paired) => paired,
        None => false,
    }
}

/// Whether the text of the state file says that the daemon is paired.
pub fn state_is_paired(text: &str) -> (r: bool)
    ensures
        r == text_says_paired(text@),
{
    match read_object(text) {
        Ok(Some(object)) => object_says_paired(&object),
        _ => false,
    }
}

/// The state file of a host that waits for its pairing.
pub open spec fn setup_members(pin: Seq<char>) -> Members {
    no_members().insert("paired"@, Json::Bool(false)).insert("setup_pin"@, Json::Text(pin))
}

/// The text of the state file of a host that waits for its pairing. It reads
/// back as what it says.
pub fn setup_state_text(pin: &str) -> (r: String)
    ensures
        r@ == json_page(Json::Object(setup_members(pin@))),
        reads_as(r@, setup_members(pin@)),
{
    proof {
        plain_survives(setup_members(pin@));
    }
    let mut object = new_object();
    set_flag(&mut object, "paired", false);
    set_text(&mut object, "setup_pin", pin);
    write_page(&object)
}

/// The state file of a pairing that was handed over by hand.
pub open spec fn manual_members(request: PairModel, token: Seq<char>) -> Members {
    no_members().insert("paired"@, Json::Bool(true)).insert("token"@, Json::Text(token)).insert(
        "webhook_id"@,
        Json::Text(request.webhook_id),
    ).insert("api_key"@, Json::Text(request.api_key)).insert("ha_url"@, Json::Text(request.ha_url))
}

/// The text of the state file of a pairing that was handed over by hand. It
/// reads back as what it says.
pub fn manual_state_text(request: &PairRequest, token: &str) -> (r: String)
    ensures
        r@ == json_page(Json::Object(manual_members(request@, token@))),
        reads_as(r@, manual_members(request@, token@)),
{
    proof {
        plain_survives(manual_members(request@, token@));
    }
    let mut object = new_object();
    set_flag(&mut object, "paired", true);
    set_text(&mut object, "token", token);
    set_text(&mut object, "webhook_id", request.webhook_id.as_str());
    set_text(&mut object, "api_key", request.api_key.as_str());
    set_text(&mut object, "ha_url", request.ha_url.as_str());
    write_page(&object)
}

/// An optional text, or nothing.
pub open spec fn text_or_null(text: Option<Seq<char>>) -> Json {
    match text {
        Some(text) => Json::Text(text),
        None => Json::Null,
    }
}

/// The state file of a daemon.
pub open spec fn kept_members(kept: PersistedModel) -> Members {
    no_members().insert("paired"@, Json::Bool(kept.paired)).insert(
        "token"@,
        text_or_null(kept.token),
    ).insert("setup_pin"@, text_or_null(kept.setup_pin)).insert(
        "webhook_id"@,
        text_or_null(kept.webhook_id),
    ).insert("api_key"@, text_or_null(kept.api_key)).insert("ha_url"@, text_or_null(kept.ha_url))
}

/// An optional text as an entry of the state file.
pub open spec fn text_entry(name: Seq<char>, text: Option<Seq<char>>) -> (Seq<char>, Yaml) {
    (
        name,
        match text {
            Some(text) => Yaml::Text(text),
            None => Yaml::Null,
        },
    )
}

/// The state file of a daemon, entry by entry.
pub open spec fn kept_entries(kept: PersistedModel) -> Entries {
    seq![
        ("paired"@, Yaml::Flag(kept.paired)),
        text_entry("token"@, kept.token),
        text_entry("setup_pin"@, kept.setup_pin),
        text_entry("webhook_id"@, kept.webhook_id),
        text_entry("api_key"@, kept.api_key),
        text_entry("ha_url"@, kept.ha_url),
    ]
}

/// The names of the members of a state file are different from one another.
pub proof fn member_names_differ()
    ensures
        "paired"@ != "token"@,
        "paired"@ != "setup_pin"@,
        "paired"@ != "webhook_id"@,
        "paired"@ != "api_key"@,
        "paired"@ != "ha_url"@,
        "token"@ != "setup_pin"@,
        "token"@ != "webhook_id"@,
        "token"@ != "api_key"@,
        "token"@ != "ha_url"@,
        "setup_pin"@ != "webhook_id"@,
        "setup_pin"@ != "api_key"@,
        "setup_pin"@ != "ha_url"@,
        "webhook_id"@ != "api_key"@,
        "webhook_id"@ != "ha_url"@,
        "api_key"@ != "ha_url"@,
{
    reveal_strlit("paired");
    reveal_strlit("token");
    reveal_strlit("setup_pin");
    reveal_strlit("webhook_id");
    reveal_strlit("api_key");
    reveal_strlit("ha_url");
    assert("paired"@.len() == 6);
    assert("token"@.len() == 5);
    assert("setup_pin"@.len() == 9);
    assert("webhook_id"@.len() == 10);
    assert("api_key"@.len() == 7);
    assert("ha_url"@.len() == 6);
    assert("paired"@[0] != "ha_url"@[0]);
}

proof fn members_of_kept(kept: PersistedModel)
    ensures
        members_of(kept_entries(kept)) == kept_members(kept),
        is_flat(kept_entries(kept)),
{
    let six = kept_entries(kept);
    let five = six.drop_last();
    let four = five.drop_last();
    let three = four.drop_last();
    let two = three.drop_last();
    let one = two.drop_last();
    assert(one.drop_last() =~= no_entries());
    reveal_with_fuel(members_of, 2);
    reveal_with_fuel(as_json, 2);
    assert(one.last() == six[0] && two.last() == six[1] && three.last() == six[2]);
    assert(four.last() == six[3] && five.last() == six[4]);
    assert(members_of(one) == no_members().insert("paired"@, Json::Bool(kept.paired)));
    assert(members_of(two) == members_of(one).insert("token"@, text_or_null(kept.token)));
    assert(members_of(three) == members_of(two).insert("setup_pin"@, text_or_null(kept.setup_pin)));
    assert(members_of(four) == members_of(three).insert(
        "webhook_id"@,
        text_or_null(kept.webhook_id),
    ));
    assert(members_of(five) == members_of(four).insert("api_key"@, text_or_null(kept.api_key)));
}

/// Adds a text, or nothing where there is none.
fn add_optional(mapping: &mut serde_yaml::Mapping, name: &str, value: &Option<String>)
    requires
        !names(yaml_entries(*old(mapping)), name@),
    ensures
        yaml_entries(*final(mapping)) == yaml_entries(*old(mapping)).push(
            text_entry(name@, value.deep_view()),
        ),
        forall|n: Seq<char>| #[trigger]
            names(yaml_entries(*final(mapping)), n) <==> names(yaml_entries(*old(mapping)), n) || n
                == name@,
{
    proof {
        let added = text_entry(name@, value.deep_view());
        names_of_pushed(yaml_entries(*mapping), name@, added.1);
    }
    match value {
        Some(text) => add_text(mapping, name, text.as_str()),
        None => add_null(mapping, name),
    }
}

/// The text of the state file of a daemon: its entries in order. It reads back
/// as what it says.
pub fn kept_state_text(kept: &PersistedState) -> (r: String)
    ensures
        r@ == json_in_order(kept_entries(kept@)),
        reads_as(r@, kept_members(kept@)),
{
    proof {
        member_names_differ();
        members_of_kept(kept@);
        names_of_pushed(no_entries(), "paired"@, Yaml::Flag(kept.paired));
    }
    let mut mapping = new_mapping();
    add_flag(&mut mapping, "paired", kept.paired);
    add_optional(&mut mapping, "token", &kept.token);
    add_optional(&mut mapping, "setup_pin", &kept.setup_pin);
    add_optional(&mut mapping, "webhook_id", &kept.webhook_id);
    add_optional(&mut mapping, "api_key", &kept.api_key);
    add_optional(&mut mapping, "ha_url", &kept.ha_url);
    assert(yaml_entries(mapping) =~= kept_entries(kept@));
    write_json(&mapping)
}

/// Why the PIN cannot be reset.
pub enum ResetError {
    /// The state file is no JSON.
    Unparsable { reason: String },
    /// The state file holds no object.
    NotAnObject,
}

/// The message of an error.
pub open spec fn reset_message(error: ResetError) -> Seq<char> {
    match error {
        ResetError::Unparsable { reason } => "Failed to parse state.json: "@ + reason@,
        ResetError::NotAnObject => "state.json is not a JSON object"@,
    }
}

impl ResetError {
    /// The message of the error.
    pub fn message(&self) -> (r: String)
        ensures
            r@ == reset_message(*self),
    {
        match self {
            ResetError::Unparsable { reason } => concat(
                "Failed to parse state.json: ",
                reason.as_str(),
            ),
            ResetError::NotAnObject => "state.json is not a JSON object".to_string(),
        }
    }
}

/// The members once the PIN is reset: the pairing and its token are gone, there
/// is a new PIN, and the rest stays.
pub open spec fn reset_members(all: Members, pin: Seq<char>) -> Members {
    all.insert("paired"@, Json::Bool(false)).insert("token"@, Json::Null).insert(
        "setup_pin"@,
        Json::Text(pin),
    )
}

/// Resets the pairing in a state file.
pub fn reset_object(object: &mut Object, pin: &str)
    ensures
        members(*final(object)) == reset_members(members(*old(object)), pin@),
{
    set_flag(object, "paired", false);
    set_null(object, "token");
    set_text(object, "setup_pin", pin);
}

/// A state file that comes back as it is does so once the PIN is reset.
proof fn reset_survives(all: Members, pin: Seq<char>)
    requires
        survives(Json::Object(all)),
    ensures
        survives(Json::Object(reset_members(all, pin))),
{
    let first = all.insert("paired"@, Json::Bool(false));
    let second = first.insert("token"@, Json::Null);
    insert_survives(all, "paired"@, Json::Bool(false));
    insert_survives(first, "token"@, Json::Null);
    insert_survives(second, "setup_pin"@, Json::Text(pin));
}

/// Whether this is what a reset of the PIN writes, or why it cannot, where
/// `text` is the text of the state file before, if there was one.
pub open spec fn resets(
    text: Option<Seq<char>>,
    pin: Seq<char>,
    r: Result<String, ResetError>,
) -> bool {
    match text {
        None => r matches Ok(written) && written@ == json_page(
            Json::Object(reset_members(no_members(), pin)),
        ) && reads_as(written@, reset_members(no_members(), pin)),
        Some(text) => match json_read(text) {
            Ok(Json::Object(all)) => r matches Ok(written) && written@ == json_page(
                Json::Object(reset_members(all, pin)),
            ) && (survives(Json::Object(all)) ==> reads_as(written@, reset_members(all, pin)))
                && reads_like(written@, reset_members(all, pin)),
            Ok(_) => r == Err::<String, ResetError>(ResetError::NotAnObject),
            Err(error) => r matches Err(ResetError::Unparsable { reason }) && reason@ == error,
        },
    }
}

/// The text of the state file once the PIN is reset, where `text` is its text
/// before, if there was a file. Where it is read, the pairing and its token are
/// gone, there is the new PIN, and the other names are those from before.
pub fn reset_state_text(text: Option<&str>, pin: &str) -> (r: Result<String, ResetError>)
    ensures
        resets(
            match text {
                Some(text) => Some(text@),
                None => None,
            },
            pin@,
            r,
        ),
{
    let mut object = match text {
        None => new_object(),
        Some(text) => match read_object(text) {
            Ok(Some(object)) => object,
            Ok(None) => {
                return Err(ResetError::NotAnObject);
            },
            Err(reason) => {
                return Err(ResetError::Unparsable { reason });
            },
        },
    };
    proof {
        plain_survives(no_members());
        if survives(Json::Object(members(object))) {
            reset_survives(members(object), pin@);
        }
    }
    reset_object(&mut object, pin);
    Ok(write_page(&object))
}

} // verus!
