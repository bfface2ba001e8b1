//! Consent: which scopes are known, and which directory attributes a
//! granted scope discloses as claims.

use vstd::prelude::*;
use vstd::string::*;
use crate::text::{same_text, texts};

verus! {

/// A scope that a client may ask for: a named bundle of claims, each taken
/// from one directory attribute.
pub struct Scope {
    pub name: &'static str,
    pub short_description: &'static str,
    pub description: &'static str,
    /// Pairs of a claim's name and the directory attribute it is read from.
    pub ldap_fields: Vec<(&'static str, &'static str)>,
    pub icon: &'static str,
}

/// What a scope holds, over sequences.
pub struct ScopeView {
    pub name: Seq<char>,
    pub short_description: Seq<char>,
    pub description: Seq<char>,
    pub ldap_fields: Seq<(Seq<char>, Seq<char>)>,
    pub icon: Seq<char>,
}

/// The views of a list of claim and attribute pairs.
pub open spec fn field_views(fields: Seq<(&'static str, &'static str)>) -> Seq<
    (Seq<char>, Seq<char>),
> {
    fields.map_values(|pair: (&'static str, &'static str)| (pair.0@, pair.1@))
}

impl View for Scope {
    type V = ScopeView;

    open spec fn view(&self) -> ScopeView {
        ScopeView {
            name: self.name@,
            short_description: self.short_description@,
            description: self.description@,
            ldap_fields: field_views(self.ldap_fields@),
            icon: self.icon@,
        }
    }
}

/// The views of a list of scopes.
pub open spec fn scope_views(scopes: Seq<Scope>) -> Seq<ScopeView> {
    scopes.map_values(|scope: Scope| scope@)
}

/// The known scopes: `email` discloses the mail address, `profile` the
/// display name, given name, family name and user name.
pub open spec fn scope_table() -> Seq<ScopeView> {
    seq![
        ScopeView {
            name: "email"@,
            short_description: "View your email address"@,
            description: "The service gets access to your email address"@,
            ldap_fields: seq![("email"@, "mail"@)],
            icon: "openmoji/email.svg"@,
        },
        ScopeView {
            name: "profile"@,
            short_description: "Get your general profile information"@,
            description: "The service gets access to general information of your profile"@,
            ldap_fields: seq![
                ("name"@, "displayName"@),
                ("given_name"@, "cn"@),
                ("family_name"@, "sn"@),
                ("preferred_username"@, "uid"@),
            ],
            icon: "openmoji/person.svg"@,
        },
    ]
}

/// The known scopes.
pub fn get_scopes() -> (scopes: Vec<Scope>)
    ensures
        scope_views(scopes@) == scope_table(),
{
    let email = Scope {
        name: "email",
        short_description: "View your email address",
        description: "The service gets access to your email address",
        ldap_fields: vec![("email", "mail")],
        icon: "openmoji/email.svg",
    };
    let profile = Scope {
        name: "profile",
        short_description: "Get your general profile information",
        description: "The service gets access to general information of your profile",
        ldap_fields: vec![
            ("name", "displayName"),
            ("given_name", "cn"),
            ("family_name", "sn"),
            ("preferred_username", "uid"),
        ],
        icon: "openmoji/person.svg",
    };
    assert(field_views(email.ldap_fields@) =~= seq![("email"@, "mail"@)]);
    assert(field_views(profile.ldap_fields@) =~= seq![
        ("name"@, "displayName"@),
        ("given_name"@, "cn"@),
        ("family_name"@, "sn"@),
        ("preferred_username"@, "uid"@),
    ]);
    let scopes = vec![email, profile];
    assert(scope_views(scopes@) =~= scope_table());
    scopes
}

impl Scope {
    /// A copy of the scope.
    pub fn duplicate(&self) -> (copy: Scope)
        ensures
            copy@ == self@,
    {
        let mut fields: Vec<(&'static str, &'static str)> = Vec::new();
        let mut i: usize = 0;
        while i < self.ldap_fields.len()
            invariant
                i <= self.ldap_fields.len(),
                fields@ == self.ldap_fields@.subrange(0, i as int),
            decreases self.ldap_fields.len() - i,
        {
            fields.push(self.ldap_fields[i]);
            assert(fields@ =~= self.ldap_fields@.subrange(0, i as int + 1));
            i = i + 1;
        }
        assert(self.ldap_fields@.subrange(0, i as int) =~= self.ldap_fields@);
        Scope {
            name: self.name,
            short_description: self.short_description,
            description: self.description,
            ldap_fields: fields,
            icon: self.icon,
        }
    }
}

/// The known scopes among `names`, in the order of the names; a name that
/// is no known scope is left out.
pub open spec fn recognized(table: Seq<ScopeView>, names: Seq<Seq<char>>) -> Seq<ScopeView>
    decreases names.len(),
{
    if names.len() == 0 {
        Seq::empty()
    } else {
        let before = recognized(table, names.drop_last());
        match find_scope(table, names.last()) {
            Some(scope) => before.push(scope),
            None => before,
        }
    }
}

/// The known scopes among `names`, in the order of the names.
pub fn recognized_scopes(names: &Vec<String>) -> (scopes: Vec<Scope>)
    ensures
        scope_views(scopes@) == recognized(scope_table(), texts(names@)),
{
    let table = get_scopes();
    let mut scopes: Vec<Scope> = Vec::new();
    let mut i: usize = 0;
    assert(texts(names@).subrange(0, 0) =~= Seq::<Seq<char>>::empty());
    assert(scope_views(scopes@) =~= Seq::<ScopeView>::empty());
    while i < names.len()
        invariant
            i <= names.len(),
            scope_views(table@) == scope_table(),
            scope_views(scopes@) == recognized(scope_table(), texts(names@).subrange(0, i as int)),
        decreases names.len() - i,
    {
        let ghost upto = texts(names@).subrange(0, i as int + 1);
        let ghost before = scope_views(scopes@);
        proof {
            assert(upto.drop_last() =~= texts(names@).subrange(0, i as int));
            assert(upto.last() == names@[i as int]@);
        }
        match lookup_scope(&table, names[i].as_str()) {
            Some(scope) => {
                scopes.push(scope.duplicate());
                assert(scope_views(scopes@) =~= before.push(scope@));
            },
            None => {},
        }
        i = i + 1;
    }
    assert(texts(names@).subrange(0, i as int) =~= texts(names@));
    scopes
}

/// The first scope of `table` with the name `name`.
pub open spec fn find_scope(table: Seq<ScopeView>, name: Seq<char>) -> Option<ScopeView>
    decreases table.len(),
{
    if table.len() == 0 {
        None
    } else if table[0].name == name {
        Some(table[0])
    } else {
        find_scope(table.drop_first(), name)
    }
}

/// Looks a scope up by its name.
pub fn lookup_scope<'a>(table: &'a Vec<Scope>, name: &str) -> (found: Option<&'a Scope>)
    ensures
        match found {
            Some(scope) => find_scope(scope_views(table@), name@) == Some(scope@),
            None => find_scope(scope_views(table@), name@) is None,
        },
{
    let ghost views = scope_views(table@);
    let mut i: usize = 0;
    assert(views.subrange(0, views.len() as int) =~= views);
    while i < table.len()
        invariant
            i <= table.len(),
            views == scope_views(table@),
            find_scope(views, name@) == find_scope(views.subrange(i as int, views.len() as int), name@),
        decreases table.len() - i,
    {
        let ghost rest = views.subrange(i as int, views.len() as int);
        assert(rest[0] == table@[i as int]@);
        assert(rest.drop_first() =~= views.subrange(i as int + 1, views.len() as int));
        if same_text(table[i].name, name) {
            return Some(&table[i]);
        }
        i = i + 1;
    }
    assert(views.subrange(i as int, views.len() as int) =~= Seq::<ScopeView>::empty());
    None
}

/// The attributes of a directory entry: each attribute's name with its
/// values.
pub struct DirectoryEntry {
    pub attrs: Vec<(String, Vec<String>)>,
}

/// The attributes of a directory entry, over sequences.
pub open spec fn attr_views(attrs: Seq<(String, Vec<String>)>) -> Seq<(Seq<char>, Seq<Seq<char>>)> {
    attrs.map_values(|attr: (String, Vec<String>)| (attr.0@, texts(attr.1@)))
}

impl View for DirectoryEntry {
    type V = Seq<(Seq<char>, Seq<Seq<char>>)>;

    open spec fn view(&self) -> Seq<(Seq<char>, Seq<Seq<char>>)> {
        attr_views(self.attrs@)
    }
}

/// The values of the first attribute with the name `field`, and no values
/// where there is no such attribute.
pub open spec fn attribute_values(attrs: Seq<(Seq<char>, Seq<Seq<char>>)>, field: Seq<char>) -> Seq<
    Seq<char>,
>
    decreases attrs.len(),
{
    if attrs.len() == 0 {
        Seq::empty()
    } else if attrs[0].0 == field {
        attrs[0].1
    } else {
        attribute_values(attrs.drop_first(), field)
    }
}

/// The first value of the attribute `field`, and the empty string where the
/// attribute is missing or has no value.
pub open spec fn first_value(attrs: Seq<(Seq<char>, Seq<Seq<char>>)>, field: Seq<char>) -> Seq<char> {
    if attribute_values(attrs, field).len() > 0 {
        attribute_values(attrs, field)[0]
    } else {
        Seq::empty()
    }
}

impl DirectoryEntry {
    /// The first value of the attribute `field`, and the empty string where
    /// the attribute is missing or has no value.
    pub fn first_value(&self, field: &str) -> (value: String)
        ensures
            value@ == first_value(self@, field@),
    {
        let ghost views = self@;
        let mut i: usize = 0;
        assert(views.subrange(0, views.len() as int) =~= views);
        while i < self.attrs.len()
            invariant
                i <= self.attrs.len(),
                views == self@,
                attribute_values(views, field@) == attribute_values(
                    views.subrange(i as int, views.len() as int),
                    field@,
                ),
            decreases self.attrs.len() - i,
        {
            let ghost rest = views.subrange(i as int, views.len() as int);
            assert(rest[0] == (self.attrs@[i as int].0@, texts(self.attrs@[i as int].1@)));
            assert(rest.drop_first() =~= views.subrange(i as int + 1, views.len() as int));
            if same_text(self.attrs[i].0.as_str(), field) {
                let values = &self.attrs[i].1;
                if values.len() > 0 {
                    assert(texts(values@)[0] == values@[0]@);
                    return values[0].clone();
                } else {
                    return String::new();
                }
            }
            i = i + 1;
        }
        assert(views.subrange(i as int, views.len() as int) =~= Seq::<
            (Seq<char>, Seq<Seq<char>>),
        >::empty());
        String::new()
    }
}

/// The claims after the fields of one scope were copied into them: each
/// claim is set to the first value of its attribute.
pub open spec fn with_fields(
    claims: Map<Seq<char>, Seq<char>>,
    fields: Seq<(Seq<char>, Seq<char>)>,
    attrs: Seq<(Seq<char>, Seq<Seq<char>>)>,
) -> Map<Seq<char>, Seq<char>>
    decreases fields.len(),
{
    if fields.len() == 0 {
        claims
    } else {
        with_fields(claims, fields.drop_last(), attrs).insert(
            fields.last().0,
            first_value(attrs, fields.last().1),
        )
    }
}

/// The claims that the granted scopes disclose of a directory entry: the
/// fields of every granted scope that is known, and nothing for a scope that
/// is not.
pub open spec fn claims_of(
    table: Seq<ScopeView>,
    attrs: Seq<(Seq<char>, Seq<Seq<char>>)>,
    granted: Seq<Seq<char>>,
) -> Map<Seq<char>, Seq<char>>
    decreases granted.len(),
{
    if granted.len() == 0 {
        Map::empty()
    } else {
        let before = claims_of(table, attrs, granted.drop_last());
        match find_scope(table, granted.last()) {
            Some(scope) => with_fields(before, scope.ldap_fields, attrs),
            None => before,
        }
    }
}

/// Whether the granted scope at `g` is known and its field at `f` maps the
/// claim `claim`.
pub open spec fn discloses(
    table: Seq<ScopeView>,
    granted: Seq<Seq<char>>,
    g: int,
    f: int,
    claim: Seq<char>,
) -> bool {
    &&& 0 <= g < granted.len()
    &&& find_scope(table, granted[g]) matches Some(scope)
    &&& 0 <= f < scope.ldap_fields.len()
    &&& scope.ldap_fields[f].0 == claim
}

/// The directory attribute that the granted scope at `g` reads for its
/// field at `f`.
pub open spec fn disclosed_field(table: Seq<ScopeView>, granted: Seq<Seq<char>>, g: int, f: int) -> Seq<
    char,
> {
    find_scope(table, granted[g])->0.ldap_fields[f].1
}

/// Whether one of `fields` maps the claim `claim` at `f`.
pub open spec fn maps_claim(fields: Seq<(Seq<char>, Seq<char>)>, f: int, claim: Seq<char>) -> bool {
    0 <= f < fields.len() && fields[f].0 == claim
}

/// After the fields of a scope were copied, the claims hold what they held
/// and the claims of the fields, and each copied claim has the first value of
/// an attribute that a field maps it to.
pub proof fn lemma_with_fields(
    claims: Map<Seq<char>, Seq<char>>,
    fields: Seq<(Seq<char>, Seq<char>)>,
    attrs: Seq<(Seq<char>, Seq<Seq<char>>)>,
    claim: Seq<char>,
)
    ensures
        with_fields(claims, fields, attrs).contains_key(claim) <==> claims.contains_key(claim) || (
        exists|f: int| maps_claim(fields, f, claim)),
        with_fields(claims, fields, attrs).contains_key(claim) ==> (exists|f: int|
            maps_claim(fields, f, claim) && with_fields(claims, fields, attrs)[claim]
                == first_value(attrs, fields[f].1)) || (claims.contains_key(claim) && with_fields(
            claims,
            fields,
            attrs,
        )[claim] == claims[claim]),
    decreases fields.len(),
{
    if fields.len() > 0 {
        let head = fields.drop_last();
        let last = fields.len() - 1;
        lemma_with_fields(claims, head, attrs, claim);
        let inner = with_fields(claims, head, attrs);
        if exists|f: int| maps_claim(head, f, claim) {
            let f = choose|f: int| maps_claim(head, f, claim);
            assert(maps_claim(fields, f, claim));
        }
        if fields[last].0 == claim {
            assert(maps_claim(fields, last, claim));
        } else {
            if exists|f: int| maps_claim(fields, f, claim) {
                let f = choose|f: int| maps_claim(fields, f, claim);
                assert(maps_claim(head, f, claim));
            }
            if inner.contains_key(claim) {
                if exists|f: int|
                    maps_claim(head, f, claim) && inner[claim] == first_value(attrs, head[f].1) {
                    let f = choose|f: int|
                        maps_claim(head, f, claim) && inner[claim] == first_value(
                            attrs,
                            head[f].1,
                        );
                    assert(maps_claim(fields, f, claim) && with_fields(claims, fields, attrs)[claim]
                        == first_value(attrs, fields[f].1));
                }
            }
        }
    }
}

/// Every claim that is disclosed comes from a granted scope that is known
/// and that maps it, and has the first value of the attribute that the scope
/// reads for it (the empty string where the attribute is missing): scopes
/// that are not granted or not known contribute nothing.
pub proof fn lemma_claims_sound(
    table: Seq<ScopeView>,
    attrs: Seq<(Seq<char>, Seq<Seq<char>>)>,
    granted: Seq<Seq<char>>,
    claim: Seq<char>,
)
    requires
        claims_of(table, attrs, granted).contains_key(claim),
    ensures
        exists|g: int, f: int|
            #[trigger] discloses(table, granted, g, f, claim) && claims_of(table, attrs, granted)[claim]
                == first_value(attrs, disclosed_field(table, granted, g, f)),
    decreases granted.len(),
{
    let head = granted.drop_last();
    let last = granted.len() - 1;
    let before = claims_of(table, attrs, head);
    let all = claims_of(table, attrs, granted);
    match find_scope(table, granted.last()) {
        Some(scope) => {
            lemma_with_fields(before, scope.ldap_fields, attrs, claim);
            if exists|f: int|
                maps_claim(scope.ldap_fields, f, claim) && all[claim] == first_value(
                    attrs,
                    scope.ldap_fields[f].1,
                ) {
                let f = choose|f: int|
                    maps_claim(scope.ldap_fields, f, claim) && all[claim] == first_value(
                        attrs,
                        scope.ldap_fields[f].1,
                    );
                assert(discloses(table, granted, last, f, claim));
            } else {
                lemma_claims_sound(table, attrs, head, claim);
                let (g, f) = choose|g: int, f: int|
                    #[trigger] discloses(table, head, g, f, claim) && before[claim] == first_value(
                        attrs,
                        disclosed_field(table, head, g, f),
                    );
                assert(discloses(table, granted, g, f, claim));
            }
        },
        None => {
            lemma_claims_sound(table, attrs, head, claim);
            let (g, f) = choose|g: int, f: int|
                #[trigger] discloses(table, head, g, f, claim) && before[claim] == first_value(
                    attrs,
                    disclosed_field(table, head, g, f),
                );
            assert(discloses(table, granted, g, f, claim));
        },
    }
}

/// Every claim that a granted, known scope maps is disclosed.
pub proof fn lemma_claims_complete(
    table: Seq<ScopeView>,
    attrs: Seq<(Seq<char>, Seq<Seq<char>>)>,
    granted: Seq<Seq<char>>,
    g: int,
    f: int,
    claim: Seq<char>,
)
    requires
        discloses(table, granted, g, f, claim),
    ensures
        claims_of(table, attrs, granted).contains_key(claim),
    decreases granted.len(),
{
    let head = granted.drop_last();
    let last = granted.len() - 1;
    let before = claims_of(table, attrs, head);
    if g < last {
        assert(discloses(table, head, g, f, claim));
        lemma_claims_complete(table, attrs, head, g, f, claim);
    }
    match find_scope(table, granted.last()) {
        Some(scope) => {
            lemma_with_fields(before, scope.ldap_fields, attrs, claim);
            if g == last {
                assert(maps_claim(scope.ldap_fields, f, claim));
            }
        },
        None => {},
    }
}

/// Where only the `email` scope is granted, the claims are the `email` claim
/// alone, with the first `mail` value of the directory entry.
pub proof fn lemma_email_scope_alone(attrs: Seq<(Seq<char>, Seq<Seq<char>>)>)
    ensures
        claims_of(scope_table(), attrs, seq!["email"@]) == Map::<Seq<char>, Seq<char>>::empty().insert(
            "email"@,
            first_value(attrs, "mail"@),
        ),
{
    let granted = seq!["email"@];
    let table = scope_table();
    assert(find_scope(table, "email"@) == Some(table[0]));
    assert(granted.drop_last() =~= Seq::<Seq<char>>::empty());
    assert(granted.last() == "email"@);
    let fields = table[0].ldap_fields;
    assert(fields.drop_last() =~= Seq::<(Seq<char>, Seq<char>)>::empty());
    assert(fields.last() == ("email"@, "mail"@));
    let none = Map::<Seq<char>, Seq<char>>::empty();
    assert(claims_of(table, attrs, granted.drop_last()) == none);
    assert(with_fields(none, fields.drop_last(), attrs) == none);
    assert(with_fields(none, fields, attrs) == none.insert("email"@, first_value(attrs, "mail"@)));
}

/// The map that a list of claims stands for: a later entry for a claim
/// replaces an earlier one.
pub open spec fn claims_map(entries: Seq<(String, String)>) -> Map<Seq<char>, Seq<char>>
    decreases entries.len(),
{
    if entries.len() == 0 {
        Map::empty()
    } else {
        claims_map(entries.drop_last()).insert(entries.last().0@, entries.last().1@)
    }
}

/// The session data of an accepted consent: the claims of the ID token.
pub struct ConsentRequestSession {
    /// The claims, as pairs of name and value. Read as a map, a later pair
    /// for a name replaces an earlier one.
    pub id_token: Vec<(String, String)>,
}

impl View for ConsentRequestSession {
    type V = Map<Seq<char>, Seq<char>>;

    open spec fn view(&self) -> Map<Seq<char>, Seq<char>> {
        claims_map(self.id_token@)
    }
}

/// Derives the claims of the ID token from a directory entry and the granted
/// scopes. Only attributes that a granted, known scope maps are copied; a
/// missing attribute gives the empty string.
pub fn data_to_session(ldap_user: &DirectoryEntry, scopes: &Vec<String>) -> (session:
    ConsentRequestSession)
    ensures
        session@ == claims_of(scope_table(), ldap_user@, texts(scopes@)),
{
    let table = get_scopes();
    let ghost attrs = ldap_user@;
    let mut id_token: Vec<(String, String)> = Vec::new();
    let mut i: usize = 0;
    assert(texts(scopes@).subrange(0, 0) =~= Seq::<Seq<char>>::empty());
    while i < scopes.len()
        invariant
            i <= scopes.len(),
            attrs == ldap_user@,
            scope_views(table@) == scope_table(),
            claims_map(id_token@) == claims_of(
                scope_table(),
                attrs,
                texts(scopes@).subrange(0, i as int),
            ),
        decreases scopes.len() - i,
    {
        let ghost granted = texts(scopes@).subrange(0, i as int + 1);
        let ghost before = claims_map(id_token@);
        proof {
            assert(granted.drop_last() =~= texts(scopes@).subrange(0, i as int));
            assert(granted.last() == scopes@[i as int]@);
        }
        match lookup_scope(&table, scopes[i].as_str()) {
            None => {},
            Some(scope) => {
                let ghost fields = scope@.ldap_fields;
                let mut j: usize = 0;
                assert(fields.subrange(0, 0) =~= Seq::<(Seq<char>, Seq<char>)>::empty());
                while j < scope.ldap_fields.len()
                    invariant
                        j <= scope.ldap_fields.len(),
                        attrs == ldap_user@,
                        fields == scope@.ldap_fields,
                        fields.len() == scope.ldap_fields.len(),
                        claims_map(id_token@) == with_fields(
                            before,
                            fields.subrange(0, j as int),
                            attrs,
                        ),
                    decreases scope.ldap_fields.len() - j,
                {
                    let ghost upto = fields.subrange(0, j as int + 1);
                    let ghost entries = id_token@;
                    let claim = scope.ldap_fields[j].0;
                    let field = scope.ldap_fields[j].1;
                    let value = ldap_user.first_value(field);
                    id_token.push((claim.to_owned(), value));
                    proof {
                        assert(upto.drop_last() =~= fields.subrange(0, j as int));
                        assert(upto.last() == (claim@, field@));
                        assert(id_token@.drop_last() =~= entries);
                    }
                    j = j + 1;
                }
                assert(fields.subrange(0, j as int) =~= fields);
            },
        }
        i = i + 1;
    }
    assert(texts(scopes@).subrange(0, i as int) =~= texts(scopes@));
    ConsentRequestSession { id_token }
}

} // verus!
