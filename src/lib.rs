//! Authentication orchestration: local credentials and OAuth2 identities,
//! account linking, and the lifecycle of access and refresh tokens.

pub mod auth_service;
pub mod error;
pub mod guarantees;

pub mod oauth;
pub mod password;
pub mod store;
pub mod token;
pub mod user;

pub use auth_service::{AuthService, AuthServiceVariables, AuthStep, LoginMethod, SignupMethod};
pub use error::AuthError;
pub use oauth::{JsonObject, JsonValue, OAuth2Config, OAuth2Manager, OAuth2Token};
pub use password::Argon2PasswordManager;
pub use store::{InMemoryUserRepo, StoreError};
pub use token::{AccessTokenClaims, Claims, RefreshTokenClaims, TokenPair, TokenService};
pub use user::{Credentials, OAuth2Provider, OAuth2UserInfo, User};
