//! The errors that the library reports.

use vstd::prelude::*;

verus! {

/// Why an authentication operation failed.
#[derive(Clone, Copy, Debug, PartialEq, Eq, Structural)]
pub enum AuthError {
    /// Unknown identifier or wrong password; the two are not told apart.
    InvalidCredentials,
    /// The id or the token's subject names no stored user.
    UserNotFound,
    /// The store refused to create the user.
    SignupError,
    /// The store refused an update: the user would share an identifier or
    /// an external account with another user.
    UpdateConflict,
    /// A provider is not configured, or its configuration is invalid.
    ConfigError,
    /// The provider refused to exchange a code or refresh a token.
    OAuthTokenExchange,
    /// The provider's profile endpoint answered with a failure.
    OAuthUserInfo,
    /// The provider's profile could not be read or lacks the account id.
    OAuthInvalidResponse,
    /// The provider could not be reached.
    OAuthNetwork,
    /// The token is unknown, expired or of the wrong kind.
    InvalidToken,
    /// A fresh token could not be told apart from one already issued.
    TokenGeneration,
    /// The password is not acceptable (it is empty).
    InvalidPassword,
    /// The password could not be hashed.
    HashingError,
}

} // verus!
