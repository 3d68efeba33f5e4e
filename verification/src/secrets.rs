//! Credential blobs in the OS keyring.
//!
//! All entries live under one service, so that password managers show them
//! as one group: an entry per native Proton remote, and one that holds the
//! text of the rclone configuration. The keyring's own answers come in as
//! arguments.

use vstd::prelude::*;

use crate::text::concat;

verus! {

/// The service that all entries share.
pub const SERVICE: &'static str = "Celeste Keys";

/// The account of the rclone configuration.
pub const RCLONE_ACCOUNT: &'static str = "rclone-config";

/// The account of a native Proton remote's session.
pub fn proton_account(remote_name: &str) -> (account: String)
    ensures
        account@ == "proton-session-"@ + remote_name@,
{
    concat("proton-session-", remote_name)
}

/// Why the keyring did not do what it was asked, with its own words.
#[derive(Debug, PartialEq, Eq)]
pub enum KeyringError {
    /// The entry could not be opened.
    Init(String),
    /// There is no such entry.
    NoEntry(String),
    Other(String),
}

impl KeyringError {
    /// The words for a failed read, write or removal.
    pub open spec fn told(self, operation: Seq<char>) -> Seq<char> {
        match self {
            KeyringError::Init(words) => "keyring entry init failed: "@ + words@,
            KeyringError::NoEntry(words) => operation + words@,
            KeyringError::Other(words) => operation + words@,
        }
    }

    fn words(self, operation: &str) -> (told: String)
        ensures
            told@ == self.told(operation@),
    {
        match self {
            KeyringError::Init(words) => concat("keyring entry init failed: ", words.as_str()),
            KeyringError::NoEntry(words) => concat(operation, words.as_str()),
            KeyringError::Other(words) => concat(operation, words.as_str()),
        }
    }
}

/// What came of writing an entry: any failure is one.
pub fn store(written: Result<(), KeyringError>) -> (outcome: Result<(), String>)
    ensures
        match (written, outcome) {
            (Ok(_), Ok(_)) => true,
            (Err(error), Err(words)) => words@ == error.told("keyring write failed: "@),
            _ => false,
        },
{
    match written {
        Ok(_) => Ok(()),
        Err(error) => Err(error.words("keyring write failed: ")),
    }
}

/// What came of reading an entry: an entry that is missing is no failure.
pub fn load(read: Result<String, KeyringError>) -> (outcome: Result<Option<String>, String>)
    ensures
        match read {
            Ok(value) => outcome == Ok::<Option<String>, String>(Some(value)),
            Err(KeyringError::NoEntry(_)) => outcome == Ok::<Option<String>, String>(None),
            Err(error) => outcome matches Err(words) && words@ == error.told(
                "keyring read failed: "@,
            ),
        },
{
    match read {
        Ok(value) => Ok(Some(value)),
        Err(KeyringError::NoEntry(_)) => Ok(None),
        Err(error) => Err(error.words("keyring read failed: ")),
    }
}

/// What came of removing an entry: an entry that is missing is as good as
/// removed.
pub fn delete(removed: Result<(), KeyringError>) -> (outcome: Result<(), String>)
    ensures
        match removed {
            Ok(_) => outcome is Ok,
            Err(KeyringError::NoEntry(_)) => outcome is Ok,
            Err(error) => outcome matches Err(words) && words@ == error.told(
                "keyring delete failed: "@,
            ),
        },
{
    match removed {
        Ok(_) => Ok(()),
        Err(KeyringError::NoEntry(_)) => Ok(()),
        Err(error) => Err(error.words("keyring delete failed: ")),
    }
}

/// Two remotes have one account exactly where they have one name.
pub proof fn law_accounts_tell_remotes_apart(one: Seq<char>, other: Seq<char>)
    ensures
        ("proton-session-"@ + one == "proton-session-"@ + other) <==> one == other,
{
    let front = "proton-session-"@;
    if front + one == front + other {
        assert(one =~= (front + one).skip(front.len() as int));
        assert(other =~= (front + other).skip(front.len() as int));
    }
}

/// A failure to open an entry is told as such whatever was tried; any other
/// failure is told as one of what was tried, with the keyring's own words.
pub proof fn law_keyring_failures_are_told(error: KeyringError, operation: Seq<char>)
    ensures
        match error {
            KeyringError::Init(words) => error.told(operation) == "keyring entry init failed: "@
                + words@,
            KeyringError::NoEntry(words) | KeyringError::Other(words) => error.told(operation)
                == operation + words@,
        },
{
}

} // verus!
