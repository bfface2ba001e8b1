//! Groups: the table that names the groups the application knows, and what
//! the administration pages compute from the directory.

use vstd::prelude::*;
use vstd::string::*;
use crate::db::StorageError;
use crate::text::{contains_text, texts};

verus! {

/// A group the application knows. `id` is `None` until the row is stored.
pub struct DBGroup {
    pub id: Option<i32>,
    pub name: String,
    pub ldap_dn: String,
}

/// What a group row holds, over sequences.
pub struct DBGroupView {
    pub id: Option<i32>,
    pub name: Seq<char>,
    pub ldap_dn: Seq<char>,
}

impl View for DBGroup {
    type V = DBGroupView;

    open spec fn view(&self) -> DBGroupView {
        DBGroupView { id: self.id, name: self.name@, ldap_dn: self.ldap_dn@ }
    }
}

/// The views of a list of group rows.
pub open spec fn group_views(rows: Seq<DBGroup>) -> Seq<DBGroupView> {
    rows.map_values(|row: DBGroup| row@)
}

/// The table of groups.
pub struct GroupTable {
    rows: Vec<DBGroup>,
    next_id: i32,
}

impl View for GroupTable {
    type V = Seq<DBGroupView>;

    closed spec fn view(&self) -> Seq<DBGroupView> {
        group_views(self.rows@)
    }
}

/// Whether a row has the id `id`.
pub open spec fn has_group(rows: Seq<DBGroupView>, id: i32) -> bool {
    exists|i: int| 0 <= i < rows.len() && (#[trigger] rows[i]).id == Some(id)
}

/// The row with the id `id`.
pub open spec fn the_group(rows: Seq<DBGroupView>, id: i32) -> DBGroupView {
    rows[choose|i: int| 0 <= i < rows.len() && (#[trigger] rows[i]).id == Some(id)]
}

impl DBGroup {
    /// A copy of the row.
    pub fn duplicate(&self) -> (copy: DBGroup)
        ensures
            copy@ == self@,
    {
        DBGroup { id: self.id, name: self.name.clone(), ldap_dn: self.ldap_dn.clone() }
    }
}

impl GroupTable {
    /// Below this bound lie the ids that the table has handed out.
    pub closed spec fn bound(&self) -> i32 {
        self.next_id
    }

    /// The table is well formed: every row has an id that the table handed
    /// out, and no two rows share one.
    pub open spec fn wf(&self) -> bool {
        &&& 1 <= self.bound()
        &&& forall|i: int|
            0 <= i < self@.len() ==> (#[trigger] self@[i]).id is Some && 1 <= self@[i].id->0
                < self.bound()
        &&& forall|i: int, j: int|
            0 <= i < self@.len() && 0 <= j < self@.len() && i != j ==> (#[trigger] self@[i]).id != (
            #[trigger] self@[j]).id
    }

    /// An empty table, whose first id is 1.
    pub fn new() -> (table: GroupTable)
        ensures
            table.wf(),
            table.bound() == 1,
            table@ == Seq::<DBGroupView>::empty(),
    {
        let table = GroupTable { rows: Vec::new(), next_id: 1 };
        assert(table@ =~= Seq::<DBGroupView>::empty());
        table
    }

    fn position(&self, id: i32) -> (at: Option<usize>)
        ensures
            match at {
                Some(i) => i < self@.len() && self@[i as int].id == Some(id),
                None => !has_group(self@, id),
            },
    {
        let mut i: usize = 0;
        while i < self.rows.len()
            invariant
                i <= self.rows@.len(),
                forall|j: int| 0 <= j < i ==> (#[trigger] self@[j]).id != Some(id),
            decreases self.rows@.len() - i,
        {
            let found = match self.rows[i].id {
                Some(k) => k == id,
                None => false,
            };
            assert(self@[i as int] == self.rows@[i as int]@);
            if found {
                return Some(i);
            }
            i = i + 1;
        }
        None
    }
}

impl DBGroup {
    /// All groups, in the order in which they were stored.
    pub fn list_all(connection: &GroupTable) -> (groups: Vec<DBGroup>)
        ensures
            group_views(groups@) == connection@,
    {
        let mut groups: Vec<DBGroup> = Vec::new();
        let mut i: usize = 0;
        while i < connection.rows.len()
            invariant
                i <= connection.rows@.len(),
                groups.len() == i,
                forall|j: int| 0 <= j < i ==> groups@[j]@ == connection.rows@[j]@,
            decreases connection.rows@.len() - i,
        {
            groups.push(connection.rows[i].duplicate());
            i = i + 1;
        }
        assert(group_views(groups@) =~= connection@);
        groups
    }

    /// The group with the id `id`.
    pub fn find_by_id(id: i32, connection: &GroupTable) -> (group: Result<DBGroup, StorageError>)
        requires
            connection.wf(),
        ensures
            match group {
                Ok(g) => has_group(connection@, id) && g@ == the_group(connection@, id),
                Err(e) => e == StorageError::RowNotFound && !has_group(connection@, id),
            },
    {
        match connection.position(id) {
            Some(i) => {
                assert(connection@[i as int] == connection.rows@[i as int]@);
                Ok(connection.rows[i].duplicate())
            },
            None => Err(StorageError::RowNotFound),
        }
    }

    /// The directory name of the group with the id `id`.
    pub fn find_ldap_dn_by_id(id: i32, connection: &GroupTable) -> (ldap_dn: Result<
        String,
        StorageError,
    >)
        requires
            connection.wf(),
        ensures
            match ldap_dn {
                Ok(dn) => has_group(connection@, id) && dn@ == the_group(connection@, id).ldap_dn,
                Err(e) => e == StorageError::RowNotFound && !has_group(connection@, id),
            },
    {
        match DBGroup::find_by_id(id, connection) {
            Ok(group) => Ok(group.ldap_dn),
            Err(e) => Err(e),
        }
    }

    /// Stores a group and returns the id it was given. The row's own `id`
    /// is not read.
    pub fn create_one(group: DBGroup, connection: &mut GroupTable) -> (id: Result<i32, StorageError>)
        requires
            old(connection).wf(),
        ensures
            final(connection).wf(),
            id is Ok <==> old(connection).bound() < i32::MAX,
            match id {
                Ok(k) => {
                    &&& k == old(connection).bound()
                    &&& final(connection).bound() == k + 1
                    &&& !has_group(old(connection)@, k)
                    &&& final(connection)@ == old(connection)@.push(
                        DBGroupView { id: Some(k), ..group@ },
                    )
                },
                Err(e) => {
                    &&& e == StorageError::Exhausted
                    &&& final(connection)@ == old(connection)@
                    &&& final(connection).bound() == old(connection).bound()
                },
            },
    {
        if connection.next_id == i32::MAX {
            return Err(StorageError::Exhausted);
        }
        let k = connection.next_id;
        let ghost before = connection@;
        connection.rows.push(DBGroup { id: Some(k), name: group.name, ldap_dn: group.ldap_dn });
        connection.next_id = k + 1;
        proof {
            assert(connection@ =~= before.push(DBGroupView { id: Some(k), ..group@ }));
            assert forall|i: int, j: int|
                0 <= i < connection@.len() && 0 <= j < connection@.len() && i != j implies (
            #[trigger] connection@[i]).id != (#[trigger] connection@[j]).id by {
                if i < before.len() {
                    assert(connection@[i] == before[i]);
                }
                if j < before.len() {
                    assert(connection@[j] == before[j]);
                }
            }
            assert forall|i: int| 0 <= i < connection@.len() implies (
            #[trigger] connection@[i]).id is Some && 1 <= connection@[i].id->0
                < connection.bound() by {
                if i < before.len() {
                    assert(connection@[i] == before[i]);
                }
            }
            if has_group(before, k) {
                let i = choose|i: int| 0 <= i < before.len() && (#[trigger] before[i]).id == Some(k);
                assert(before[i].id->0 < k);
            }
        }
        Ok(k)
    }
}

/// The distinguished name of a group: `cn=`, the group's common name, a
/// comma, and the base under which groups are kept.
pub fn group_dn(ldap_cn: &str, ldap_groups_base_dn: &str) -> (dn: String)
    ensures
        dn@ == "cn="@ + ldap_cn@ + ","@ + ldap_groups_base_dn@,
{
    let mut dn: String = "cn=".to_owned();
    dn.append(ldap_cn);
    dn.append(",");
    dn.append(ldap_groups_base_dn);
    dn
}

/// The attributes of a new directory group: a group of names with the
/// given common name, whose only member is the directory's root entry.
pub fn new_group_attributes(ldap_cn: &str, ldap_root_dn: &str) -> (attrs: Vec<(String, Vec<String>)>)
    ensures
        crate::consent::attr_views(attrs@) == seq![
            ("objectClass"@, seq!["groupOfNames"@, "top"@]),
            ("cn"@, seq![ldap_cn@]),
            ("member"@, seq![ldap_root_dn@]),
        ],
{
    let classes: Vec<String> = vec!["groupOfNames".to_owned(), "top".to_owned()];
    let names: Vec<String> = vec![ldap_cn.to_owned()];
    let members: Vec<String> = vec![ldap_root_dn.to_owned()];
    assert(texts(classes@) =~= seq!["groupOfNames"@, "top"@]);
    assert(texts(names@) =~= seq![ldap_cn@]);
    assert(texts(members@) =~= seq![ldap_root_dn@]);
    let attrs: Vec<(String, Vec<String>)> = vec![
        ("objectClass".to_owned(), classes),
        ("cn".to_owned(), names),
        ("member".to_owned(), members),
    ];
    assert(crate::consent::attr_views(attrs@) =~= seq![
        ("objectClass"@, seq!["groupOfNames"@, "top"@]),
        ("cn"@, seq![ldap_cn@]),
        ("member"@, seq![ldap_root_dn@]),
    ]);
    attrs
}

/// The members of the directory group `ldap_dn`, given each directory
/// group with its members; none where the directory has no such group.
pub fn members_of(ldap_groups: &Vec<(String, Vec<String>)>, ldap_dn: &str) -> (members: Vec<String>)
    ensures
        texts(members@) == crate::consent::attribute_values(
            crate::consent::attr_views(ldap_groups@),
            ldap_dn@,
        ),
{
    let ghost views = crate::consent::attr_views(ldap_groups@);
    let mut i: usize = 0;
    assert(views.subrange(0, views.len() as int) =~= views);
    while i < ldap_groups.len()
        invariant
            i <= ldap_groups.len(),
            views == crate::consent::attr_views(ldap_groups@),
            crate::consent::attribute_values(views, ldap_dn@) == crate::consent::attribute_values(
                views.subrange(i as int, views.len() as int),
                ldap_dn@,
            ),
        decreases ldap_groups.len() - i,
    {
        let ghost rest = views.subrange(i as int, views.len() as int);
        assert(rest[0] == (ldap_groups@[i as int].0@, texts(ldap_groups@[i as int].1@)));
        assert(rest.drop_first() =~= views.subrange(i as int + 1, views.len() as int));
        if crate::text::same_text(ldap_groups[i].0.as_str(), ldap_dn) {
            return crate::text::copy_texts(&ldap_groups[i].1);
        }
        i = i + 1;
    }
    assert(views.subrange(i as int, views.len() as int) =~= Seq::<
        (Seq<char>, Seq<Seq<char>>),
    >::empty());
    let none: Vec<String> = Vec::new();
    assert(texts(none@) =~= Seq::<Seq<char>>::empty());
    none
}

/// Each user with whether the user is a member of the group.
pub fn membership_mapping(all_users: &Vec<String>, group_members: &Vec<String>) -> (mapping: Vec<
    (String, bool),
>)
    ensures
        mapping@.len() == all_users@.len(),
        forall|i: int|
            0 <= i < mapping@.len() ==> (#[trigger] mapping@[i]).0@ == all_users@[i]@ && mapping@[i].1
                == texts(group_members@).contains(all_users@[i]@),
{
    let mut mapping: Vec<(String, bool)> = Vec::new();
    let mut i: usize = 0;
    while i < all_users.len()
        invariant
            i <= all_users.len(),
            mapping@.len() == i,
            forall|j: int|
                0 <= j < i ==> (#[trigger] mapping@[j]).0@ == all_users@[j]@ && mapping@[j].1
                    == texts(group_members@).contains(all_users@[j]@),
        decreases all_users.len() - i,
    {
        let member = contains_text(group_members, all_users[i].as_str());
        mapping.push((all_users[i].clone(), member));
        i = i + 1;
    }
    mapping
}

/// The changes that set a user's names in the directory: each attribute
/// with its one new value.
pub fn name_changes(display_name: &str, first_name: &str, last_name: &str) -> (changes: Vec<
    (String, String),
>)
    ensures
        changes@.len() == 3,
        changes@[0].0@ == "displayName"@ && changes@[0].1@ == display_name@,
        changes@[1].0@ == "cn"@ && changes@[1].1@ == first_name@,
        changes@[2].0@ == "sn"@ && changes@[2].1@ == last_name@,
{
    vec![
        ("displayName".to_owned(), display_name.to_owned()),
        ("cn".to_owned(), first_name.to_owned()),
        ("sn".to_owned(), last_name.to_owned()),
    ]
}

/// The change that sets a user's mail address in the directory. The
/// address must have been typed the same way twice; otherwise the request is
/// bad.
pub fn email_changes(email: &str, email_validation: &str) -> (changes: Result<
    Vec<(String, String)>,
    crate::error::Error,
>)
    ensures
        match changes {
            Ok(list) => email@ == email_validation@ && list@.len() == 1 && list@[0].0@ == "mail"@
                && list@[0].1@ == email@,
            Err(e) => email@ != email_validation@ && e == crate::error::Error::Http(
                crate::error::BAD_REQUEST,
            ),
        },
{
    if !crate::text::same_text(email, email_validation) {
        return Err(crate::error::Error::Http(crate::error::BAD_REQUEST));
    }
    Ok(vec![("mail".to_owned(), email.to_owned())])
}

} // verus!
