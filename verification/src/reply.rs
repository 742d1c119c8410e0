//! Answers to HTTP requests.

use vstd::prelude::*;

use crate::json::{
    json_line, list_of, members, new_object, no_members, reads_as_document, set_flag, set_text,
    survives, write_line, write_list, Json, Members, Object,
};

verus! {

pub const OK: u16 = 200;

pub const BAD_REQUEST: u16 = 400;

pub const UNAUTHORIZED: u16 = 401;

pub const NOT_FOUND: u16 = 404;

pub const CONFLICT: u16 = 409;

pub const INTERNAL_SERVER_ERROR: u16 = 500;

/// What an answer holds.
pub enum Body {
    One(Object),
    Many(Vec<Object>),
}

/// An answer to a request.
pub struct Reply {
    pub status: u16,
    pub body: Body,
}

/// An answer as it goes out.
pub struct Response {
    pub status: u16,
    pub content_type: String,
    pub body: String,
}

impl View for Body {
    type V = Json;

    open spec fn view(&self) -> Json {
        match self {
            Body::One(object) => Json::Object(members(*object)),
            Body::Many(objects) => list_of(objects@),
        }
    }
}

impl Reply {
    /// Whether the answer has this status and holds one object with these members.
    pub open spec fn says(&self, status: u16, all: Members) -> bool {
        self.status == status && self.body@ == Json::Object(all)
    }

    /// Whether the answer is the error `message`.
    pub open spec fn is_error(&self, status: u16, message: Seq<char>) -> bool {
        self.says(status, error_members(message))
    }

    /// Whether the answer says that all went well.
    pub open spec fn is_success(&self) -> bool {
        self.says(OK, success_members())
    }
}

/// The members that tell an error.
pub open spec fn error_members(message: Seq<char>) -> Members {
    no_members().insert("error"@, Json::Text(message))
}

/// The members that tell success.
pub open spec fn success_members() -> Members {
    no_members().insert("success"@, Json::Bool(true))
}

/// The answer that tells an error.
pub fn error_reply(status: u16, message: &str) -> (r: Reply)
    ensures
        r.is_error(status, message@),
{
    let mut object = new_object();
    set_text(&mut object, "error", message);
    Reply { status, body: Body::One(object) }
}

/// The answer that tells success.
pub fn success_reply() -> (r: Reply)
    ensures
        r.is_success(),
{
    let mut object = new_object();
    set_flag(&mut object, "success", true);
    Reply { status: OK, body: Body::One(object) }
}

/// The answer to a request for something that there is not.
pub fn not_found_reply() -> (r: Reply)
    ensures
        r.is_error(NOT_FOUND, "Not Found"@),
{
    error_reply(NOT_FOUND, "Not Found")
}

/// The answer as it goes out: its status, and its body as JSON text, which reads
/// back as what it says unless a number has a fraction or it is nested too deep.
pub fn send_json_response(reply: &Reply) -> (r: Response)
    ensures
        r.status == reply.status,
        r.content_type@ == "application/json"@,
        r.body@ == json_line(reply.body@),
        survives(reply.body@) ==> reads_as_document(r.body@, reply.body@),
{
    Response {
        status: reply.status,
        content_type: "application/json".to_string(),
        body: match &reply.body {
            Body::One(object) => write_line(object),
            Body::Many(objects) => write_list(objects),
        },
    }
}

} // verus!
