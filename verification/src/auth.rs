//! The user that a private cookie names.

use vstd::prelude::*;
use crate::config::AppConfig;
use crate::text::texts;

verus! {

/// A user named by the private `username` cookie.
pub struct CookieUser(pub String);

impl CookieUser {
    /// The user that the value of the private cookie names, if the cookie
    /// is there.
    pub fn from_cookie(value: Option<String>) -> (user: Option<CookieUser>)
        ensures
            match (value, user) {
                (Some(v), Some(u)) => u.0@ == v@,
                (None, None) => true,
                _ => false,
            },
    {
        match value {
            Some(v) => Some(CookieUser(v)),
            None => None,
        }
    }

    /// The user's name.
    pub fn get_username(self) -> (username: String)
        ensures
            username@ == self.0@,
    {
        self.0
    }

    /// Whether the user is an administrator, given the groups the user is a
    /// member of.
    pub fn is_admin(&self, app_config: &AppConfig, user_groups: &Vec<String>) -> (admin: bool)
        ensures
            admin == texts(user_groups@).contains(app_config.ldap_admin_group_dn@),
    {
        crate::ldap::is_admin(app_config, user_groups)
    }
}

} // verus!
