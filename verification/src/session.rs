//! Who a request comes from: the credentials it may carry, and the cookie
//! that a new session is handed out with.

use vstd::prelude::*;
use vstd::string::StringExecFns;

verus! {

/// The user name under which an API token is sent as a password.
pub const BASIC_AUTH_USERNAME: &'static str = "api_token";

/// The name of the cookie that holds the token of a session.
pub const SESSION_COOKIE_NAME: &'static str = "session";

/// The key under which a user is stored.
pub struct UserKey(pub i64);

/// What a request offers to be recognised by.
#[derive(Debug, PartialEq, Eq)]
pub enum Credentials {
    /// An API token, sent as the password of basic authorization.
    ApiToken(String),
    /// The token of a session cookie.
    SessionToken(String),
    /// Basic authorization under another user name.
    UnknownUsername,
    /// Nothing: the user has to log in.
    Absent,
}

/// Picks the credentials to go by. Basic authorization comes first: under
/// the user name [`BASIC_AUTH_USERNAME`] its password is the API token, and
/// under any other name the request is turned down, whatever cookie it
/// carries. Without basic authorization the session cookie counts.
pub fn credentials(basic: Option<(String, String)>, session_token: Option<String>) -> (c:
    Credentials)
    ensures
        c == (match basic {
            Some((username, password)) => if username@ == BASIC_AUTH_USERNAME@ {
                Credentials::ApiToken(password)
            } else {
                Credentials::UnknownUsername
            },
            None => match session_token {
                Some(token) => Credentials::SessionToken(token),
                None => Credentials::Absent,
            },
        }),
{
    match basic {
        Some((username, password)) => {
            let expected = String::from_str(BASIC_AUTH_USERNAME);
            if username == expected {
                Credentials::ApiToken(password)
            } else {
                Credentials::UnknownUsername
            }
        },
        None => match session_token {
            Some(token) => Credentials::SessionToken(token),
            None => Credentials::Absent,
        },
    }
}

/// The text of a session cookie as a browser is to keep it.
pub open spec fn session_cookie_text(session_token: Seq<char>, secure: bool) -> Seq<char> {
    SESSION_COOKIE_NAME@ + "="@ + session_token + "; Max-Age=2592000; Path=/; "@ + (if secure {
        "Secure; "@
    } else {
        ""@
    }) + "HttpOnly; SameSite=Strict"@
}

/// The value of the header that sets a session cookie: good for thirty
/// days, for the whole site, out of reach of scripts and of other sites,
/// and over secure connections only where `secure` is set.
pub fn session_cookie(session_token: &str, secure: bool) -> (value: String)
    ensures
        value@ == session_cookie_text(session_token@, secure),
{
    let mut value = String::from_str(SESSION_COOKIE_NAME);
    value.append("=");
    value.append(session_token);
    value.append("; Max-Age=2592000; Path=/; ");
    if secure {
        value.append("Secure; ");
    } else {
        value.append("");
    }
    value.append("HttpOnly; SameSite=Strict");
    value
}

} // verus!
