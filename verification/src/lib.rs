//! Verified core of a small messaging and account web service: account
//! validation, session tokens, login and signup decisions, request guards,
//! message shaping for the messenger, pack discovery and the start-up
//! cryptography self-checks.
pub mod auth;
pub mod crypto;
pub mod routes;
pub mod rsa_keys;
pub mod site;
pub mod text;
