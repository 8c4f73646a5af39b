//! The access token.
use vstd::prelude::*;
use crate::daemon::config::{AccessConfiguration, AccessModel};
use crate::daemon::origin;
use crate::hex;
use crate::random;
use crate::text;

verus! {

/// An access token: 64 lowercase hexadecimal characters.
#[derive(PartialEq, Eq)]
pub struct AccessToken {
    digits: String,
}

/// Whether the text is an access token.
pub open spec fn is_access_token(s: Seq<char>) -> bool {
    hex::is_lower_hex_text(s, 64)
}

impl View for AccessToken {
    type V = Seq<char>;

    closed spec fn view(&self) -> Seq<char> {
        self.digits@
    }
}

impl Clone for AccessToken {
    fn clone(&self) -> (copy: Self)
        ensures
            copy == *self,
    {
        proof {
            use_type_invariant(self);
        }
        AccessToken { digits: self.digits.clone() }
    }
}

impl AccessToken {
    #[verifier::type_invariant]
    spec fn canonical(self) -> bool {
        is_access_token(self.digits@)
    }

    /// Reads a token.
    pub fn parse(value: &str) -> (result: Result<Self, String>)
        ensures
            match result {
                Ok(token) => is_access_token(value@) && token@ == value@,
                Err(message) => !is_access_token(value@) && message@
                    == "access token must contain exactly 64 lowercase hexadecimal characters"@,
            },
    {
        if hex::lower_hex_text(value, 64) {
            Ok(AccessToken { digits: text::copy_of(value) })
        } else {
            Err(
                text::copy_of(
                    "access token must contain exactly 64 lowercase hexadecimal characters",
                ),
            )
        }
    }

    /// A new token from 32 random bytes.
    pub fn generate() -> (result: Result<Self, String>)
        ensures
            match result {
                Ok(token) => is_access_token(token@),
                Err(message) => message@ == "could not generate access token securely"@,
            },
    {
        match random::random_hex(32) {
            Ok(digits) => Ok(AccessToken { digits }),
            Err(_) => Err(text::copy_of("could not generate access token securely")),
        }
    }

    /// The token's characters.
    pub fn expose(&self) -> (digits: &str)
        ensures
            digits@ == self@,
            is_access_token(digits@),
    {
        proof {
            use_type_invariant(self);
        }
        self.digits.as_str()
    }
}

/// The most that is read of a token file, in bytes: one more than a token has.
pub const MAX_TOKEN_FILE_BYTES: u64 = 65;

/// What is wrong with a token file before it is read: it must be a regular file, and its
/// permissions must grant nothing to group and others.
pub open spec fn token_file_fault(regular: bool, mode: u32) -> Option<Seq<char>> {
    if !regular {
        Some("access token path must be a regular non-symlink file"@)
    } else if mode & 0o077 != 0 {
        Some("access token file permissions must not grant group or other access"@)
    } else {
        None
    }
}

/// Checks a token file before it is read.
pub fn check_token_file(regular: bool, mode: u32) -> (result: Result<(), String>)
    ensures
        origin::tells(result, token_file_fault(regular, mode)),
{
    if !regular {
        return Err(text::copy_of("access token path must be a regular non-symlink file"));
    }
    if mode & 0o077 != 0 {
        return Err(
            text::copy_of("access token file permissions must not grant group or other access"),
        );
    }
    Ok(())
}

/// The token that a token file holds: nothing but its characters.
pub fn read_access_token(content: &str) -> (result: Result<AccessToken, String>)
    ensures
        match result {
            Ok(token) => is_access_token(content@) && token@ == content@,
            Err(message) => !is_access_token(content@) && message@
                == "access token file must contain exactly 64 lowercase hexadecimal characters"@,
        },
{
    match AccessToken::parse(content) {
        Ok(token) => Ok(token),
        Err(_) => Err(
            text::copy_of(
                "access token file must contain exactly 64 lowercase hexadecimal characters",
            ),
        ),
    }
}

/// The token file that a client of the daemon reads: that of token access, and none where the
/// daemon asks for no token.
pub fn resolve_client_access_token(access: &AccessConfiguration) -> (file: Option<Vec<u8>>)
    ensures
        match (file, access@) {
            (Some(location), AccessModel::Token { token_file, .. }) => location@ == token_file,
            (None, AccessModel::Local) => true,
            (None, AccessModel::TrustedProxy { .. }) => true,
            _ => false,
        },
{
    match access {
        AccessConfiguration::Token(configuration) => Some(
            text::copy_bytes(&configuration.token_file),
        ),
        _ => None,
    }
}

} // verus!
