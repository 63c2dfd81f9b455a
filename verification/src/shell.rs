//! What the library may ask of the person at the terminal.
use vstd::prelude::*;

verus! {

/// A user name with its password, for a remote that asks for them.
#[derive(Clone, Debug)]
pub struct Auth {
    pub username: String,
    pub password: String,
}

/// The questions a front end answers for the library: warnings to show, and
/// whether to trust a host or which credentials to use.
pub trait ShellInteraction: Send + Sync {
    fn warn(&self, msg: &str);

    fn ask_ssh_trust(&self, fingerprint: &str) -> bool;

    fn ask_http_auth(&self) -> Option<Auth>;
}

} // verus!
