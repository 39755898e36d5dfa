//! What the HTTP API decides: who may call it, and which queries it takes.

pub mod open_api;
pub mod tracking;

use vstd::prelude::*;

verus! {

/// The token that callers of the API must show, if any.
#[derive(Clone, Debug)]
pub struct AuthSettings {
    token: Option<String>,
}

impl AuthSettings {
    /// The token callers must show, if any.
    pub closed spec fn spec_token(&self) -> Option<Seq<char>> {
        match self.token {
            Some(t) => Some(t@),
            None => None,
        }
    }

    /// Settings with `token`, or open to all without one.
    pub fn new(token: Option<String>) -> (r: AuthSettings)
        ensures
            r.spec_token() == match token {
                Some(t) => Some(t@),
                None => None::<Seq<char>>,
            },
    {
        AuthSettings { token }
    }

    /// Whether a request with this `Authorization` header may pass: always
    /// without a token, else only when the header is `Bearer ` and the
    /// token.
    pub fn authorizes(&self, header: Option<&str>) -> (r: bool)
        ensures
            r == match self.spec_token() {
                None => true,
                Some(t) => header matches Some(h) && h@ == "Bearer "@ + t,
            },
    {
        match &self.token {
            None => true,
            Some(token) => match header {
                None => false,
                Some(h) => {
                    let expected = String::from_str("Bearer ").concat(token.as_str());
                    let given = h.to_owned();
                    given == expected
                },
            },
        }
    }
}

} // verus!
