//! Authentication sessions, second-factor credential challenges and the
//! login/consent handshake with an OAuth2 authorization server.
//!
//! The library holds the rules: how a session token is signed and checked,
//! how a partially authenticated session moves towards full authentication,
//! how a credential challenge is consumed or promoted, and which claims a
//! granted scope discloses. Network, database and directory traffic is left
//! to the caller, who hands the library plain values.

pub mod text;
pub mod hexcode;
pub mod mac;
pub mod token;
pub mod sessions;
pub mod db;
pub mod totp;
pub mod challenge;
pub mod consent;
pub mod error;
pub mod config;
pub mod ldap;
pub mod auth;
pub mod oidc;
pub mod login;
pub mod local_login;
pub mod groups;
