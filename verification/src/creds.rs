//! Credentials handed to the transport layer, and the result value every
//! repository operation returns.

use vstd::prelude::*;

verus! {

/// Outcome of a repository operation: whether it succeeded and a
/// human-readable message for the caller.
#[derive(Debug, Clone)]
pub struct GitResult {
    pub success: bool,
    pub message: String,
}

/// A (username, token) pair for HTTPS transport authentication.
/// Immutable once constructed; held only for the duration of one operation.
#[derive(Debug, Clone)]
pub struct GitCredentials {
    pub username: String,
    pub token: String,
}

impl Default for GitCredentials {
    /// Empty credentials: both parts are blank until the caller fills them.
    fn default() -> (r: GitCredentials)
        ensures
            r.username@ == Seq::<char>::empty(),
            r.token@ == Seq::<char>::empty(),
    {
        GitCredentials { username: String::new(), token: String::new() }
    }
}

impl GitCredentials {
    pub fn new(username: String, token: String) -> (r: GitCredentials)
        ensures
            r.username@ == username@,
            r.token@ == token@,
    {
        GitCredentials { username, token }
    }

    /// The pair the authentication callback answers with, regardless of what
    /// the transport asked for: always the stored username and token.
    pub fn userpass(&self) -> (r: (String, String))
        ensures
            r.0@ == self.username@,
            r.1@ == self.token@,
    {
        (self.username.clone(), self.token.clone())
    }
}

} // verus!
