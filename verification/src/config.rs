//! The settings that the library's rules read.

use vstd::prelude::*;

verus! {

/// The settings of the application.
pub struct AppConfig {
    pub name: String,
    pub ldap_user_base_dn: String,
    pub ldap_groups_base_dn: String,
    pub ldap_admin_group_dn: String,
    pub ldap_root_dn: String,
}

/// The settings for the authorization server.
pub struct HydraConfig {
    pub admin_endpoint_url: String,
    pub consent_remember_me: bool,
    pub consent_remember_me_for: i64,
}

} // verus!
