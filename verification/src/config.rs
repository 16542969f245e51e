//! The rules on how the client may be started.
use vstd::prelude::*;
use vstd::string::*;
use vstd::utf8::encode_utf8;

use crate::digest::{full_hash, sha256_of};
use crate::text::{alphanumeric_char, byte_len, chars_of, is_alphanumeric_char, trim, trim_text};

verus! {

pub const MIN_AUTH_TOKEN_BYTES: usize = 32;

pub const MAX_AUTH_TOKEN_BYTES: usize = 1024;

/// Why the client may not be started. `TokenReadable` holds the path of the token
/// file.
#[derive(Debug, Clone, PartialEq, Eq)]
pub enum ConfigError {
    RemoteNotAllowed,
    RemoteWithoutToken,
    TokenLength,
    TokenCharacters,
    TokenReadable(String),
}

impl ConfigError {
    /// The sentence shown for the error.
    pub fn message(&self) -> (r: String)
        ensures
            r@ == match *self {
                ConfigError::RemoteNotAllowed => {
                    "non-loopback listen address requires --allow-remote"@
                },
                ConfigError::RemoteWithoutToken => {
                    "non-loopback listen address requires --auth-token-file"@
                },
                ConfigError::TokenLength => "auth token must contain between 32 and 1024 bytes"@,
                ConfigError::TokenCharacters => {
                    "auth token may only contain URL-safe ASCII characters"@
                },
                ConfigError::TokenReadable(path) => {
                    "auth token file "@ + path@ + " must not be accessible by group or others"@
                },
            },
    {
        match self {
            ConfigError::RemoteNotAllowed => {
                "non-loopback listen address requires --allow-remote".to_string()
            },
            ConfigError::RemoteWithoutToken => {
                "non-loopback listen address requires --auth-token-file".to_string()
            },
            ConfigError::TokenLength => {
                "auth token must contain between 32 and 1024 bytes".to_string()
            },
            ConfigError::TokenCharacters => {
                "auth token may only contain URL-safe ASCII characters".to_string()
            },
            ConfigError::TokenReadable(path) => {
                let mut text = "auth token file ".to_string();
                text.append(path.as_str());
                text.append(" must not be accessible by group or others");
                text
            },
        }
    }
}

/// Whether an address may be listened at: the own machine's always, and another only
/// where that is allowed and guarded by a token.
pub open spec fn may_listen(loopback: bool, allow_remote: bool, has_token_file: bool) -> bool {
    loopback || (allow_remote && has_token_file)
}

/// Checks where the web interface may listen: beyond the machine itself only
/// where that was asked for, and only with a token.
pub fn check_listen(loopback: bool, allow_remote: bool, has_token_file: bool) -> (r: Result<
    (),
    ConfigError,
>)
    ensures
        r is Ok == may_listen(loopback, allow_remote, has_token_file),
        r is Ok == (loopback || (allow_remote && has_token_file)),
        r is Err ==> r->Err_0 == if !allow_remote {
            ConfigError::RemoteNotAllowed
        } else {
            ConfigError::RemoteWithoutToken
        },
{
    if !loopback && !allow_remote {
        return Err(ConfigError::RemoteNotAllowed);
    }
    if !loopback && !has_token_file {
        return Err(ConfigError::RemoteWithoutToken);
    }
    Ok(())
}

pub open spec fn is_token_char(c: char) -> bool {
    is_alphanumeric_char(c) || c == '-' || c == '_' || c == '.' || c == '~'
}

pub open spec fn is_token_text(s: Seq<char>) -> bool {
    forall|i: int| 0 <= i < s.len() ==> is_token_char(#[trigger] s[i])
}

/// The fault of a token, if it has one.
pub open spec fn token_fault(token: Seq<char>) -> Option<ConfigError> {
    if !(MIN_AUTH_TOKEN_BYTES <= encode_utf8(token).len() <= MAX_AUTH_TOKEN_BYTES) {
        Some(ConfigError::TokenLength)
    } else if !is_token_text(token) {
        Some(ConfigError::TokenCharacters)
    } else {
        None
    }
}

fn token_text(token: &str) -> (r: bool)
    ensures
        r == is_token_text(token@),
{
    let all = chars_of(token);
    for i in 0..all.len()
        invariant
            all@ == token@,
            forall|j: int| 0 <= j < i ==> is_token_char(#[trigger] all@[j]),
    {
        let c = all[i];
        if !(alphanumeric_char(c) || c == '-' || c == '_' || c == '.' || c == '~') {
            assert(!is_token_char(token@[i as int]));
            return false;
        }
    }
    true
}

/// The token that a token file holds.
pub fn token_of_file(contents: &str) -> (r: Result<String, ConfigError>)
    ensures
        r is Ok == token_fault(trim(contents@)).is_none(),
        r is Ok ==> r->Ok_0@ == trim(contents@),
        r is Err ==> r->Err_0 == token_fault(trim(contents@)).unwrap(),
{
    let token = trim_text(contents);
    let length: usize = byte_len(token.as_str());
    if length < MIN_AUTH_TOKEN_BYTES || length > MAX_AUTH_TOKEN_BYTES {
        return Err(ConfigError::TokenLength);
    }
    if !token_text(token.as_str()) {
        return Err(ConfigError::TokenCharacters);
    }
    Ok(token)
}

/// The digest of the token that a token file holds.
pub fn read_auth_token(contents: &str) -> (r: Result<[u8; 32], ConfigError>)
    ensures
        r is Ok == token_fault(trim(contents@)).is_none(),
        r is Ok ==> r->Ok_0@ == sha256_of(encode_utf8(trim(contents@))),
        r is Err ==> r->Err_0 == token_fault(trim(contents@)).unwrap(),
{
    match token_of_file(contents) {
        Ok(token) => Ok(full_hash(token.as_str().as_bytes())),
        Err(error) => Err(error),
    }
}

/// Refuses a token file that its group or others may open, by its mode.
pub fn reject_insecure_mode(path: &str, mode: u32) -> (r: Result<(), ConfigError>)
    ensures
        r is Ok == (mode & 0o077 == 0),
        r is Err ==> r->Err_0 is TokenReadable && r->Err_0->TokenReadable_0@ == path@,
{
    if mode & 0o077 == 0 {
        Ok(())
    } else {
        Err(ConfigError::TokenReadable(path.to_string()))
    }
}

} // verus!
