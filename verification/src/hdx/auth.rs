//! Logging in to a cluster: the request body and what the answer holds.
//! The request is the caller's.
use vstd::prelude::*;
use crate::json::{Json, JsonV, members_view, object_of, member, json_str};
use crate::text::{concat, append};

verus! {

broadcast use vstd::string::group_string_axioms;

/// The url of a cluster's login.
pub fn login_url(cluster: &str) -> (r: String)
    ensures
        r@ == "https://"@ + cluster@ + "/config/v1/login"@,
{
    let mut r = concat("https://", cluster);
    append(&mut r, "/config/v1/login");
    r
}

/// The body of a login.
pub fn login_payload(username: &str, password: &str) -> (r: Json)
    ensures
        r@ == JsonV::Object(seq![("username"@, JsonV::Str(username@)), ("password"@, JsonV::Str(password@))]),
{
    let mut m: Vec<(String, Json)> = Vec::new();
    m.push(member("username", json_str(username)));
    m.push(member("password", json_str(password)));
    let ghost mv = members_view(m@);
    let r = object_of(m);
    assert(mv =~= seq![("username"@, JsonV::Str(username@)), ("password"@, JsonV::Str(password@))]);
    r
}

/// The access token of a login answer (`auth_token.access_token`), or the
/// empty string.
pub open spec fn access_token(answer: Json) -> Seq<char> {
    match answer.at("auth_token"@).at("access_token"@).str_spec() {
        Some(t) => t,
        None => Seq::empty(),
    }
}

/// What a login answer gives: the token, or an error that quotes the
/// answer (`answer_text`, its pretty-printed JSON) when the login was
/// refused (`status` is the HTTP status) or the answer holds no token.
pub fn token_from_answer(answer: &Json, success: bool, status: &str, answer_text: &str) -> (r: Result<String, String>)
    ensures
        !success ==> (r matches Err(e) && e@ == "Authentication failed (HTTP "@ + status@ + "): "@ + answer_text@),
        success && access_token(*answer).len() == 0 ==> (r matches Err(e)
            && e@ == "Could not find token in payload. Response was: "@ + answer_text@),
        success && access_token(*answer).len() > 0 ==> (r matches Ok(t) && t@ == access_token(*answer)),
{
    if !success {
        let mut e = concat("Authentication failed (HTTP ", status);
        append(&mut e, "): ");
        append(&mut e, answer_text);
        return Err(e);
    }
    let token = match answer.get("auth_token") {
        Some(a) => match a.get("access_token") {
            Some(t) => t.as_str(),
            None => None,
        },
        None => None,
    };
    match token {
        Some(t) => {
            if t.as_str().is_empty() {
                Err(concat("Could not find token in payload. Response was: ", answer_text))
            } else {
                Ok(t.clone())
            }
        },
        None => Err(concat("Could not find token in payload. Response was: ", answer_text)),
    }
}

} // verus!
