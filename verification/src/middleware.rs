//! What the dashboard does to every request and response: the headers it
//! attaches, and who it lets in.

use crate::text::text_eq;
use vstd::prelude::*;
use vstd::string::*;

verus! {

/// Attaches the headers that the client dashboard needs.
pub struct Headers;

/// Guards the dashboard with the configured password, if there is one.
pub struct Auth;

/// What a request may do next.
#[derive(Clone, Copy, Debug, PartialEq, Eq)]
pub enum Started {
    /// The request goes on to its handler.
    Done,
    /// The request is answered with a challenge for the realm `Admin`.
    Challenge,
}

/// The status and the headers that a response leaves with.
#[derive(Debug)]
pub struct ResponseEdit {
    pub status: u16,
    pub allow_origin: String,
    pub allow_headers: String,
}

/// The name and password that a request presents.
#[derive(Debug)]
pub struct Credentials {
    pub username: String,
    pub password: Option<String>,
}

/// The realm that a challenge names.
pub open spec fn realm() -> Seq<char> {
    "Admin"@
}

/// The realm that a challenge names.
pub fn auth_realm() -> (r: &'static str)
    ensures
        r@ == realm(),
{
    "Admin"
}

/// Whether a request with these credentials passes: without a configured
/// password every request does; with one, the request must name the user
/// `rita` and present exactly that password.
pub open spec fn admitted(
    configured: Option<Seq<char>>,
    presented: Option<(Seq<char>, Option<Seq<char>>)>,
) -> bool {
    match configured {
        None => true,
        Some(password) => match presented {
            Some((username, Some(given))) => username == "rita"@ && given == password,
            _ => false,
        },
    }
}

/// The text of a string, where there is one.
pub open spec fn text_of(s: Option<String>) -> Option<Seq<char>> {
    match s {
        Some(t) => Some(t@),
        None => None,
    }
}

/// What a request presents, as text.
pub open spec fn presented(c: Option<Credentials>) -> Option<(Seq<char>, Option<Seq<char>>)> {
    match c {
        Some(c) => Some((c.username@, text_of(c.password))),
        None => None,
    }
}

impl Headers {
    /// Every request goes on.
    pub fn start(&self) -> (r: Started)
        ensures
            r == Started::Done,
    {
        Started::Done
    }

    /// What a response leaves with: the status 200 in answer to `OPTIONS`,
    /// else the status it came with, and both access-control headers set to `*`.
    pub fn response(&self, method: &str, status: u16) -> (r: ResponseEdit)
        ensures
            r.status == if method@ == "OPTIONS"@ {
                200u16
            } else {
                status
            },
            r.allow_origin@ == "*"@,
            r.allow_headers@ == "*"@,
    {
        ResponseEdit {
            status: if text_eq(method, "OPTIONS") {
                200
            } else {
                status
            },
            allow_origin: String::from_str("*"),
            allow_headers: String::from_str("*"),
        }
    }
}

impl Auth {
    /// Lets a request in, or challenges it.
    pub fn start(&self, password: &Option<String>, credentials: &Option<Credentials>) -> (r:
        Started)
        ensures
            r == if admitted(text_of(*password), presented(*credentials)) {
                Started::Done
            } else {
                Started::Challenge
            },
    {
        let configured = match password {
            None => {
                return Started::Done;
            },
            Some(p) => p,
        };
        match credentials {
            Some(c) => match &c.password {
                Some(given) => {
                    // hardcoded username since there is no user system
                    if text_eq(c.username.as_str(), "rita") && text_eq(
                        given.as_str(),
                        configured.as_str(),
                    ) {
                        Started::Done
                    } else {
                        Started::Challenge
                    }
                },
                None => Started::Challenge,
            },
            None => Started::Challenge,
        }
    }
}

} // verus!
