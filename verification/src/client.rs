//! Sending boot options to Home Assistant.

use vstd::prelude::*;

use crate::json::{
    json_line, members, new_object, no_members, plain_survives, reads_as, set_text, set_texts,
    survives, texts, write_line, Json, Members, Object,
};
use crate::text::{
    ascii_lower, concat, concat3, concat4, contains, decimal, decimal_is_digits, decimal_text,
    has_part, part_at, trim, trim_end_matches, trim_end_of, trimmed,
};

verus! {

/// How long Home Assistant has to answer.
pub const TIMEOUT_SECONDS: u64 = 10;

/// The members of the message that tells Home Assistant the boot options.
pub open spec fn payload_members(mac: Seq<char>, entries: Seq<Seq<char>>) -> Members {
    no_members().insert("action"@, Json::Text("update_boot_options"@)).insert(
        "mac"@,
        Json::Text(mac),
    ).insert("boot_options"@, texts(entries))
}

/// The address of a webhook of Home Assistant.
pub open spec fn webhook_address(base: Seq<char>, webhook_id: Seq<char>) -> Seq<char> {
    trim_end_of(base, '/') + "/api/webhook/"@ + webhook_id
}

/// The value of the header that carries a key: none where the key is blank.
pub open spec fn authorization_of(api_key: Seq<char>) -> Option<Seq<char>> {
    if trimmed(api_key).len() == 0 {
        None
    } else {
        Some("Bearer "@ + api_key)
    }
}

/// The message that tells Home Assistant the boot options.
pub fn build_boot_options_payload(mac: &str, entries: &Vec<String>) -> (r: Object)
    ensures
        members(r) == payload_members(mac@, entries.deep_view()),
{
    let mut payload = new_object();
    set_text(&mut payload, "action", "update_boot_options");
    set_text(&mut payload, "mac", mac);
    set_texts(&mut payload, "boot_options", entries);
    payload
}

/// The address of a webhook of Home Assistant.
pub fn webhook_url(base: &str, webhook_id: &str) -> (r: String)
    ensures
        r@ == webhook_address(base@, webhook_id@),
{
    concat3(trim_end_matches(base, '/').as_str(), "/api/webhook/", webhook_id)
}

/// A request to Home Assistant.
pub struct PushRequest {
    pub url: String,
    pub authorization: Option<String>,
    pub timeout_seconds: u64,
    pub body: String,
}

impl PushRequest {
    /// Whether the request sends the boot options to this webhook, with this key.
    pub open spec fn sends(
        &self,
        ha_url: Seq<char>,
        webhook_id: Seq<char>,
        api_key: Seq<char>,
        mac: Seq<char>,
        entries: Seq<Seq<char>>,
    ) -> bool {
        &&& self.url@ == webhook_address(ha_url, webhook_id)
        &&& self.authorization.deep_view() == authorization_of(api_key)
        &&& self.timeout_seconds == TIMEOUT_SECONDS
        &&& self.body@ == json_line(Json::Object(payload_members(mac, entries)))
        &&& reads_as(self.body@, payload_members(mac, entries))
    }
}

/// The message comes back as it is when it is written and read.
pub proof fn payload_survives(mac: Seq<char>, entries: Seq<Seq<char>>)
    ensures
        survives(Json::Object(payload_members(mac, entries))),
{
    plain_survives(payload_members(mac, entries));
}

/// The request that sends the boot options to Home Assistant. Its body reads
/// back as the message.
pub fn push_boot_options(
    ha_url: &str,
    webhook_id: &str,
    api_key: &str,
    mac: &str,
    entries: &Vec<String>,
) -> (r: PushRequest)
    ensures
        r.sends(ha_url@, webhook_id@, api_key@, mac@, entries.deep_view()),
{
    let payload = build_boot_options_payload(mac, entries);
    proof {
        payload_survives(mac@, entries.deep_view());
    }
    PushRequest {
        url: webhook_url(ha_url, webhook_id),
        authorization: if trim(api_key).as_str().is_empty() {
            None
        } else {
            Some(concat("Bearer ", api_key))
        },
        timeout_seconds: TIMEOUT_SECONDS,
        body: write_line(&payload),
    }
}

/// What came of a request to Home Assistant.
pub enum PushReply {
    /// An answer that is no HTTP error.
    Answered { status: u16, body: String },
    /// An HTTP error.
    Refused { status: u16, body: String },
    /// No answer.
    Failed { reason: String },
}

/// Why Home Assistant did not take the boot options.
pub enum PushError {
    /// It answered with an HTTP error.
    Refused { status: u16, body: String },
    /// It did not answer.
    Failed { reason: String },
    /// It does not know the webhook.
    Unregistered,
    /// It answered with something else than success.
    Unexpected { status: u16 },
}

/// A text in lower case, by `str::to_lowercase`.
pub uninterp spec fn lowercase(text: Seq<char>) -> Seq<char>;

/// Whether every character is an ASCII character.
pub open spec fn all_ascii(text: Seq<char>) -> bool {
    forall|i: int| 0 <= i < text.len() ==> (#[trigger] text[i] as u32) < 128
}

/// The text in lower case, by `str::to_lowercase`: in a text of ASCII
/// characters the letters `A` to `Z` become `a` to `z`, and the rest stays.
pub assume_specification[ str::to_lowercase ](s: &str) -> (r: String)
    ensures
        r@ == lowercase(s@),
        all_ascii(s@) ==> r@ == s@.map_values(|c: char| ascii_lower(c)),
;

/// Whether the letters `o` and `k` stand side by side in the text, each in
/// upper or lower case.
pub open spec fn has_letters_ok(text: Seq<char>) -> bool {
    exists|i: int|
        0 <= i < text.len() - 1 && (#[trigger] text[i] == 'o' || text[i] == 'O') && (text[i + 1]
            == 'k' || text[i + 1] == 'K')
}

/// Whether the answer says that the webhook took the message: it has `ok` in
/// it, in upper or lower case.
pub open spec fn acknowledges(body: Seq<char>) -> bool {
    trimmed(body).len() > 0 && if all_ascii(trimmed(body)) {
        has_letters_ok(trimmed(body))
    } else {
        has_part(lowercase(trimmed(body)), "ok"@)
    }
}

proof fn letters_in_lower_case(text: Seq<char>)
    ensures
        has_part(text.map_values(|c: char| ascii_lower(c)), "ok"@) <==> has_letters_ok(text),
{
    reveal_strlit("ok");
    let lower = text.map_values(|c: char| ascii_lower(c));
    if has_part(lower, "ok"@) {
        let i = choose|i: int| part_at(lower, "ok"@, i);
        let found = lower.subrange(i, i + "ok"@.len());
        assert(found[0] == lower[i] && found[1] == lower[i + 1]);
        assert(ascii_lower(text[i]) == 'o' && ascii_lower(text[i + 1]) == 'k');
    }
    if has_letters_ok(text) {
        let i = choose|i: int|
            0 <= i < text.len() - 1 && (#[trigger] text[i] == 'o' || text[i] == 'O') && (text[i + 1]
                == 'k' || text[i + 1] == 'K');
        assert(lower.subrange(i, i + "ok"@.len()) =~= "ok"@);
        assert(part_at(lower, "ok"@, i));
    }
}

/// Whether the lower-case answer says that the webhook took the message.
pub fn says_ok(lower_case_answer: &str) -> (r: bool)
    ensures
        r == has_part(lower_case_answer@, "ok"@),
{
    contains(lower_case_answer, "ok")
}

/// Whether Home Assistant took the boot options: an HTTP error, a missing
/// answer and a status other than success are errors, and so is a success that
/// does not acknowledge the message, which comes from an unknown webhook.
pub open spec fn outcome_of(reply: PushReply) -> Result<(), PushError> {
    match reply {
        PushReply::Refused { status, body } => Err(PushError::Refused { status, body }),
        PushReply::Failed { reason } => Err(PushError::Failed { reason }),
        PushReply::Answered { status, body } => if !(200 <= status < 300) {
            Err(PushError::Unexpected { status })
        } else if acknowledges(body@) {
            Ok(())
        } else {
            Err(PushError::Unregistered)
        },
    }
}

/// Whether Home Assistant took the boot options.
pub fn push_outcome(reply: PushReply) -> (r: Result<(), PushError>)
    ensures
        r == outcome_of(reply),
        reply matches PushReply::Answered { status, body } ==> 200 <= status < 300 ==> (r is Ok
            <==> trimmed(body@).len() > 0 && has_part(lowercase(trimmed(body@)), "ok"@)),
{
    match reply {
        PushReply::Refused { status, body } => Err(PushError::Refused { status, body }),
        PushReply::Failed { reason } => Err(PushError::Failed { reason }),
        PushReply::Answered { status, body } => {
            if status < 200 || status >= 300 {
                return Err(PushError::Unexpected { status });
            }
            let answer = trim(body.as_str());
            if answer.as_str().is_empty() {
                return Err(PushError::Unregistered);
            }
            let lower = answer.as_str().to_lowercase();
            proof {
                letters_in_lower_case(answer@);
            }
            if says_ok(lower.as_str()) {
                Ok(())
            } else {
                Err(PushError::Unregistered)
            }
        },
    }
}

/// The message of an error.
pub open spec fn push_message(error: PushError) -> Seq<char> {
    match error {
        PushError::Refused { status, body } => "HTTP error response (status "@ + decimal(
            status as nat,
        ) + "): "@ + body@,
        PushError::Failed { reason } => "Transport error: "@ + reason@,
        PushError::Unregistered => "Webhook unregistered on Home Assistant"@,
        PushError::Unexpected {
            status,
        } => "Failed to push boot options to Home Assistant. HTTP status: "@ + decimal(
            status as nat,
        ),
    }
}

/// Whether the error tells that Home Assistant has dropped the webhook.
pub open spec fn tells_unregistered(error: PushError) -> bool {
    has_part(push_message(error), "Webhook unregistered"@)
}

impl PushError {
    /// The message of the error.
    pub fn message(&self) -> (r: String)
        ensures
            r@ == push_message(*self),
    {
        match self {
            PushError::Refused { status, body } => concat4(
                "HTTP error response (status ",
                decimal_text(*status as u32).as_str(),
                "): ",
                body.as_str(),
            ),
            PushError::Failed { reason } => concat("Transport error: ", reason.as_str()),
            PushError::Unregistered => "Webhook unregistered on Home Assistant".to_string(),
            PushError::Unexpected { status } => concat(
                "Failed to push boot options to Home Assistant. HTTP status: ",
                decimal_text(*status as u32).as_str(),
            ),
        }
    }

    /// Whether the error tells that Home Assistant has dropped the webhook.
    pub fn is_unregistered(&self) -> (r: bool)
        ensures
            r == tells_unregistered(*self),
    {
        contains(self.message().as_str(), "Webhook unregistered")
    }
}

/// An answer tells that Home Assistant has dropped the webhook exactly where it
/// is a success that does not acknowledge the message.
pub proof fn unacknowledged_success_is_a_dropped_webhook(status: u16, body: String)
    ensures
        (outcome_of(PushReply::Answered { status, body }) matches Err(error) && tells_unregistered(
            error,
        )) <==> 200 <= status < 300 && !acknowledges(body@),
{
    let part = "Webhook unregistered"@;
    reveal_strlit("Webhook unregistered");
    reveal_strlit("Webhook unregistered on Home Assistant");
    let told = "Webhook unregistered on Home Assistant"@;
    assert(told.subrange(0, 0 + part.len() as int) =~= part);
    assert(part_at(told, part, 0));
    let start = "Failed to push boot options to Home Assistant. HTTP status: "@;
    reveal_strlit("Failed to push boot options to Home Assistant. HTTP status: ");
    let other = start + decimal(status as nat);
    decimal_is_digits(status as nat);
    if has_part(other, part) {
        let i = choose|i: int| part_at(other, part, i);
        assert(other.subrange(i, i + part.len())[0] == other[i]);
        assert(other[i] == 'W');
        if i < start.len() {
            assert(start[i] == 'W');
        } else {
            assert(other[i] == decimal(status as nat)[i - start.len()]);
        }
        assert(false);
    }
}

} // verus!
