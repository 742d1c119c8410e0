//! What an HTTP request asks for, and with which credentials.

use vstd::prelude::*;
use vstd::string::*;

use crate::text::{ascii_lower, eq_ignore_ascii_case, same, same_but_case, trim, trimmed};

verus! {

/// A header of a request.
pub struct Header {
    pub field: String,
    pub value: String,
}

/// The token of a header value of the bearer scheme.
pub open spec fn bearer_of(value: Seq<char>) -> Option<Seq<char>> {
    if value.len() >= 7 && same_but_case(value.take(7), "bearer "@) {
        Some(trimmed(value.skip(7)))
    } else {
        None
    }
}

/// Whether the header carries a bearer token.
pub open spec fn carries_token(header: Header) -> bool {
    same_but_case(header.field@, "authorization"@) && bearer_of(header.value@) is Some
}

/// The bearer token of a request: that of the first header that carries one.
pub open spec fn bearer_token(headers: Seq<Header>) -> Option<Seq<char>>
    decreases headers.len(),
{
    if headers.len() == 0 {
        None
    } else if carries_token(headers[0]) {
        bearer_of(headers[0].value@)
    } else {
        bearer_token(headers.drop_first())
    }
}

/// The bearer token of a request.
pub fn get_bearer_token(headers: &Vec<Header>) -> (r: Option<String>)
    ensures
        r.deep_view() == bearer_token(headers@),
{
    let mut i: usize = 0;
    assert(headers@.skip(0) =~= headers@);
    while i < headers.len()
        invariant
            i <= headers.len(),
            bearer_token(headers@) == bearer_token(headers@.skip(i as int)),
        decreases headers.len() - i,
    {
        assert(headers@.skip(i as int)[0] == headers[i as int]);
        assert(headers@.skip(i as int).drop_first() =~= headers@.skip(i + 1));
        if eq_ignore_ascii_case(headers[i].field.as_str(), "authorization") {
            let value = headers[i].value.as_str();
            let length = value.unicode_len();
            if length >= 7 {
                assert(value@.subrange(0, 7) =~= value@.take(7));
                assert(value@.subrange(7, length as int) =~= value@.skip(7));
                if eq_ignore_ascii_case(value.substring_char(0, 7), "bearer ") {
                    return Some(trim(value.substring_char(7, length)));
                }
            }
        }
        i += 1;
    }
    None
}

/// What a request asks for.
#[derive(Clone, Copy, Debug, PartialEq, Eq, Structural)]
pub enum Route {
    Status,
    Interfaces,
    PairVerify,
    Pair,
    Update,
    Unpair,
    Shutdown,
    Unknown,
}

/// What a request with this method and target asks for.
pub open spec fn route_of(method: Seq<char>, target: Seq<char>) -> Route {
    if method == "GET"@ && target == "/status"@ {
        Route::Status
    } else if method == "GET"@ && target == "/interfaces"@ {
        Route::Interfaces
    } else if method == "POST"@ && target == "/pair/verify"@ {
        Route::PairVerify
    } else if method == "POST"@ && target == "/pair"@ {
        Route::Pair
    } else if method == "POST"@ && target == "/update"@ {
        Route::Update
    } else if method == "POST"@ && target == "/unpair"@ {
        Route::Unpair
    } else if method == "POST"@ && target == "/shutdown"@ {
        Route::Shutdown
    } else {
        Route::Unknown
    }
}

/// What a request with this method and target asks for.
pub fn handle_request(method: &str, url: &str) -> (r: Route)
    ensures
        r == route_of(method@, url@),
{
    if same(method, "GET") && same(url, "/status") {
        Route::Status
    } else if same(method, "GET") && same(url, "/interfaces") {
        Route::Interfaces
    } else if same(method, "POST") && same(url, "/pair/verify") {
        Route::PairVerify
    } else if same(method, "POST") && same(url, "/pair") {
        Route::Pair
    } else if same(method, "POST") && same(url, "/update") {
        Route::Update
    } else if same(method, "POST") && same(url, "/unpair") {
        Route::Unpair
    } else if same(method, "POST") && same(url, "/shutdown") {
        Route::Shutdown
    } else {
        Route::Unknown
    }
}

/// A request whose headers carry no bearer token has none, wherever they stand.
pub proof fn no_token_without_header(headers: Seq<Header>)
    requires
        forall|i: int| 0 <= i < headers.len() ==> !carries_token(#[trigger] headers[i]),
    ensures
        bearer_token(headers) is None,
    decreases headers.len(),
{
    if headers.len() > 0 {
        assert(!carries_token(headers[0]));
        assert forall|i: int| 0 <= i < headers.drop_first().len() implies !carries_token(
            #[trigger] headers.drop_first()[i],
        ) by {
            assert(headers.drop_first()[i] == headers[i + 1]);
        }
        no_token_without_header(headers.drop_first());
    }
}

/// A token sent in the bearer scheme is read back, without white space around it.
pub proof fn sent_token_is_read(headers: Seq<Header>, token: Seq<char>)
    requires
        headers.len() > 0,
        headers[0].field@ == "Authorization"@,
        headers[0].value@ == "Bearer "@ + token,
    ensures
        bearer_token(headers) == Some(trimmed(token)),
{
    reveal_strlit("Authorization");
    reveal_strlit("authorization");
    reveal_strlit("Bearer ");
    reveal_strlit("bearer ");
    let value = headers[0].value@;
    assert(value.skip(7) =~= token);
    assert(value.take(7) =~= "Bearer "@);
    let lower = |c: char| ascii_lower(c);
    assert("Bearer "@.map_values(lower) =~= "bearer "@.map_values(lower));
    assert("Authorization"@.map_values(lower) =~= "authorization"@.map_values(lower));
}

} // verus!
