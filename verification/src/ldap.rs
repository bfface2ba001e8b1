//! Names and entries of the directory.

use vstd::prelude::*;
use vstd::string::*;
use crate::config::AppConfig;
use crate::consent::{first_value, DirectoryEntry};
use crate::text::{contains_text, texts};

verus! {

/// The distinguished name of a user: `uid=`, the user name, a comma, and the
/// base under which users are kept.
pub open spec fn user_dn(base: Seq<char>, username: Seq<char>) -> Seq<char> {
    "uid="@ + username + ","@ + base
}

/// The distinguished name of the user `username`.
pub fn format_user_dn(app_config: &AppConfig, username: &str) -> (dn: String)
    ensures
        dn@ == user_dn(app_config.ldap_user_base_dn@, username@),
{
    let mut dn: String = "uid=".to_owned();
    dn.append(username);
    dn.append(",");
    dn.append(app_config.ldap_user_base_dn.as_str());
    dn
}

/// The search filter for the groups that the entry `user_dn` is a member of.
pub fn group_membership_filter(user_dn: &str) -> (filter: String)
    ensures
        filter@ == "(&(objectClass=groupOfNames)(member="@ + user_dn@ + "))"@,
{
    let mut filter: String = "(&(objectClass=groupOfNames)(member=".to_owned();
    filter.append(user_dn);
    filter.append("))");
    filter
}

/// Whether a user with these groups is an administrator: the administrators'
/// group must be among them.
pub fn is_admin(app_config: &AppConfig, user_groups: &Vec<String>) -> (admin: bool)
    ensures
        admin == texts(user_groups@).contains(app_config.ldap_admin_group_dn@),
{
    contains_text(user_groups, app_config.ldap_admin_group_dn.as_str())
}

/// What the directory says of a user.
pub struct LDAPUser {
    pub username: String,
    pub name: String,
    pub first_name: String,
    pub last_name: String,
    pub email: String,
}

/// Reads a user's personal data from the attributes of the user's directory
/// entry. An attribute that is missing or has no value gives the empty
/// string.
pub fn get_ldap_user(username: &str, entry: &DirectoryEntry) -> (user: LDAPUser)
    ensures
        user.username@ == username@,
        user.name@ == first_value(entry@, "displayName"@),
        user.first_name@ == first_value(entry@, "cn"@),
        user.last_name@ == first_value(entry@, "sn"@),
        user.email@ == first_value(entry@, "mail"@),
{
    LDAPUser {
        username: username.to_owned(),
        name: entry.first_value("displayName"),
        first_name: entry.first_value("cn"),
        last_name: entry.first_value("sn"),
        email: entry.first_value("mail"),
    }
}

/// The values of the attribute `field` of an entry, and none where the
/// attribute is missing: the members of a group are read so.
pub fn attribute_values(entry: &DirectoryEntry, field: &str) -> (values: Vec<String>)
    ensures
        texts(values@) == crate::consent::attribute_values(entry@, field@),
{
    let ghost views = entry@;
    let mut i: usize = 0;
    assert(views.subrange(0, views.len() as int) =~= views);
    while i < entry.attrs.len()
        invariant
            i <= entry.attrs.len(),
            views == entry@,
            crate::consent::attribute_values(views, field@) == crate::consent::attribute_values(
                views.subrange(i as int, views.len() as int),
                field@,
            ),
        decreases entry.attrs.len() - i,
    {
        let ghost rest = views.subrange(i as int, views.len() as int);
        assert(rest[0] == (entry.attrs@[i as int].0@, texts(entry.attrs@[i as int].1@)));
        assert(rest.drop_first() =~= views.subrange(i as int + 1, views.len() as int));
        if crate::text::same_text(entry.attrs[i].0.as_str(), field) {
            return crate::text::copy_texts(&entry.attrs[i].1);
        }
        i = i + 1;
    }
    assert(views.subrange(i as int, views.len() as int) =~= Seq::<
        (Seq<char>, Seq<Seq<char>>),
    >::empty());
    let none: Vec<String> = Vec::new();
    assert(texts(none@) =~= Seq::<Seq<char>>::empty());
    none
}

} // verus!
