//! The credential handler: validate the shape of a login request, and turn
//! the collection service's verdict on the pair into a reply. On success the
//! reply sets the session cookie; the cookie is the only state the handler
//! creates -- the server keeps no session record.

use vstd::prelude::*;

use crate::error::{domain_failure, DomainError, Failure, Status};
use crate::response::{Body, Response, SessionCookie};

verus! {

/// The shape of one form field as the transport decoded it: a plain string,
/// or anything else (absent fields are an absent `Option`).
#[derive(Debug, PartialEq, Eq)]
pub enum FormValue {
    Text(String),
    Other,
}

/// A username/password pair whose shape has been accepted.
#[derive(Debug, PartialEq, Eq)]
pub struct Credentials {
    pub username: String,
    pub password: String,
}

/// Accept the login form exactly when both `username` and `password` are
/// present as plain strings; any other shape is an incorrect-credentials
/// failure, Bad Request.
pub fn parse_credentials(username: Option<FormValue>, password: Option<FormValue>) -> (r: Result<
    Credentials,
    Failure,
>)
    ensures
        r is Ok <==> (username matches Some(FormValue::Text(_)) && password matches Some(
            FormValue::Text(_),
        )),
        r matches Ok(c) ==> (username == Some(FormValue::Text(c.username)) && password == Some(
            FormValue::Text(c.password),
        )),
        r matches Err(f) ==> (f.kind == Some(DomainError::IncorrectCredentials) && f.status
            == Status::BadRequest),
{
    match (username, password) {
        (Some(FormValue::Text(u)), Some(FormValue::Text(p))) => Ok(
            Credentials { username: u, password: p },
        ),
        _ => Err(domain_failure(DomainError::IncorrectCredentials)),
    }
}

/// Turn the collection service's authentication verdict into the login
/// reply. Accepted: an empty success body and a session cookie named
/// `username`, carrying the submitted username, scoped to `/`. Refused: an
/// incorrect-credentials failure, Bad Request, and no cookie.
pub fn login_reply(username: String, authenticated: bool) -> (r: Result<Response, Failure>)
    ensures
        authenticated ==> (r matches Ok(resp) && resp.cookie matches Some(c) && resp.status
            == Status::Success && resp.body is Empty && c.name@ == "username"@ && c.value
            == username && c.path@ == "/"@),
        !authenticated ==> (r matches Err(f) && f.kind == Some(DomainError::IncorrectCredentials)
            && f.status == Status::BadRequest),
{
    if authenticated {
        let cookie = SessionCookie {
            name: "username".to_owned(),
            value: username,
            path: "/".to_owned(),
        };
        Ok(Response { status: Status::Success, body: Body::Empty, cookie: Some(cookie) })
    } else {
        Err(domain_failure(DomainError::IncorrectCredentials))
    }
}

} // verus!
