//! Where scripts run: locally on the Deck, or (in the Windows build) on a Deck
//! reached over SSH with stored credentials.
use vstd::prelude::*;

use crate::text::{owned, push_str, str_eq};

verus! {

/// The name the front end is told for the operating system the app was built for.
pub open spec fn platform_spec(os: Seq<char>) -> Seq<char> {
    if os == "windows"@ {
        "windows"@
    } else if os == "linux"@ {
        "linux"@
    } else if os == "macos"@ {
        "macos"@
    } else {
        "other"@
    }
}

/// The platform name for the target operating system `os` (as Rust names it).
pub fn platform_name(os: &str) -> (r: String)
    ensures
        r@ == platform_spec(os@),
{
    if str_eq(os, "windows") {
        owned("windows")
    } else if str_eq(os, "linux") {
        owned("linux")
    } else if str_eq(os, "macos") {
        owned("macos")
    } else {
        owned("other")
    }
}

/// The address and password of a Steam Deck to run scripts on.
pub struct DeckCredentials {
    pub ip: String,
    pub password: String,
}

/// The Deck the app is connected to, if any.
pub struct DeckConnection(pub Option<DeckCredentials>);

/// The message when scripts are to run remotely but no Deck is connected.
pub open spec fn not_connected_message() -> Seq<char> {
    "Not connected to a Steam Deck. Use the Connect screen first."@
}

/// The stored credentials after a connection attempt to `ip` with `password`
/// whose test session succeeded (`ok`) or not.
pub open spec fn after_connect(
    stored: Option<(Seq<char>, Seq<char>)>,
    ip: Seq<char>,
    password: Seq<char>,
    ok: bool,
) -> Option<(Seq<char>, Seq<char>)> {
    if ok {
        Some((ip, password))
    } else {
        stored
    }
}

/// What asking for the credentials gives.
pub open spec fn credentials_spec(stored: Option<(Seq<char>, Seq<char>)>) -> Result<
    (Seq<char>, Seq<char>),
    Seq<char>,
> {
    match stored {
        Some(c) => Ok(c),
        None => Err(not_connected_message()),
    }
}

impl DeckConnection {
    /// The stored credentials as `(ip, password)`.
    pub open spec fn stored(&self) -> Option<(Seq<char>, Seq<char>)> {
        match self.0 {
            Some(c) => Some((c.ip@, c.password@)),
            None => None,
        }
    }

    /// Not connected.
    pub fn new() -> (r: DeckConnection)
        ensures
            r.stored() is None,
    {
        DeckConnection(None)
    }

    /// Records a connection to `ip` with `password` once a test session has been
    /// opened (`session` is its outcome); a failed test is returned as it is and
    /// changes nothing.
    pub fn connect(&mut self, ip: String, password: String, session: Result<(), String>) -> (r:
        Result<(), String>)
        ensures
            final(self).stored() == after_connect(old(self).stored(), ip@, password@, session is Ok),
            match session {
                Ok(_) => r is Ok,
                Err(e) => r matches Err(x) && x@ == e@,
            },
    {
        match session {
            Ok(()) => {
                self.0 = Some(DeckCredentials { ip, password });
                Ok(())
            },
            Err(e) => Err(e),
        }
    }

    /// Forgets the connected Deck.
    pub fn disconnect(&mut self) -> (r: Result<(), String>)
        ensures
            final(self).stored() is None,
            r is Ok,
    {
        self.0 = None;
        Ok(())
    }

    /// Whether a Deck is connected.
    pub fn is_connected(&self) -> (b: bool)
        ensures
            b == self.stored() is Some,
    {
        self.0.is_some()
    }

    /// The credentials of the connected Deck, or the message asking to connect first.
    pub fn current_credentials(&self) -> (r: Result<DeckCredentials, String>)
        ensures
            match credentials_spec(self.stored()) {
                Ok(c) => r matches Ok(x) && x.ip@ == c.0 && x.password@ == c.1,
                Err(e) => r matches Err(x) && x@ == e,
            },
    {
        match &self.0 {
            Some(c) => Ok(
                DeckCredentials { ip: owned(c.ip.as_str()), password: owned(c.password.as_str()) },
            ),
            None => Err(owned("Not connected to a Steam Deck. Use the Connect screen first.")),
        }
    }
}

/// After a successful connection the scripts run with exactly the credentials
/// that were given, whatever was connected before.
pub proof fn law_connect_then_credentials(
    stored: Option<(Seq<char>, Seq<char>)>,
    ip: Seq<char>,
    password: Seq<char>,
)
    ensures
        credentials_spec(after_connect(stored, ip, password, true)) == Ok::<
            (Seq<char>, Seq<char>),
            Seq<char>,
        >((ip, password)),
{
}

/// A failed connection attempt keeps what was connected before.
pub proof fn law_failed_connect_keeps_state(
    stored: Option<(Seq<char>, Seq<char>)>,
    ip: Seq<char>,
    password: Seq<char>,
)
    ensures
        after_connect(stored, ip, password, false) == stored,
{
}

/// After disconnecting, running a script is refused with the message asking to
/// connect first.
pub proof fn law_disconnect_then_refused()
    ensures
        credentials_spec(None) == Err::<(Seq<char>, Seq<char>), Seq<char>>(not_connected_message()),
{
}

/// The message of a Deck connection command in a build that runs scripts locally.
pub fn windows_only_message(command: &str) -> (r: String)
    ensures
        r@ == command@ + " is only used in the Windows build of deck-toolbox."@,
{
    let mut r = owned(command);
    push_str(&mut r, " is only used in the Windows build of deck-toolbox.");
    r
}

/// The SSH address of a Deck at `ip`.
pub fn deck_address(ip: &str) -> (r: String)
    ensures
        r@ == ip@ + ":22"@,
{
    let mut r = owned(ip);
    push_str(&mut r, ":22");
    r
}

} // verus!
