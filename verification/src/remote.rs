//! Configuring the `origin` remote of an existing repository: overwrite the
//! URL when the remote already exists, create it otherwise, and report what
//! was set.

use vstd::prelude::*;

verus! {

/// How the remote configuration is applied.
#[derive(Debug, Clone, Copy, PartialEq, Eq, Structural)]
pub enum RemoteAction {
    /// `origin` exists: point it at the new URL.
    SetUrl,
    /// No `origin` yet: create it with the URL.
    AddRemote,
}

/// Decide between overwriting and creating the remote. The remote is never
/// auto-created by any other operation; a missing `origin` elsewhere is an
/// error.
pub fn decide_remote_config(origin_exists: bool) -> (r: RemoteAction)
    ensures
        origin_exists <==> r is SetUrl,
        !origin_exists <==> r is AddRemote,
{
    if origin_exists {
        RemoteAction::SetUrl
    } else {
        RemoteAction::AddRemote
    }
}

/// The message reported after the remote was configured.
pub fn remote_configured_message(url: &str) -> (r: String)
    ensures
        r@ == "Remote 'origin' set to "@ + url@,
{
    let mut s: String = "Remote 'origin' set to ".to_owned();
    s.append(url);
    s
}

} // verus!
