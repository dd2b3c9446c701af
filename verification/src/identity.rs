//! Roles and authenticated identities.

use crate::text::{lemma_split_any_join, lemma_split_lower, lemma_trim_lower, lower_spec, lowercase, split_any_spec, split_on_any, str_eq, trim_spec, trimmed};
use vstd::prelude::*;

verus! {

/// Access level of an authenticated caller.
#[derive(Debug, Clone, Copy, PartialEq, Eq, Structural)]
pub enum Role {
    Admin,
    Operator,
    Viewer,
}

/// Numeric strength of a role: viewer 1, operator 2, admin 3.
pub open spec fn role_level(r: Role) -> int {
    match r {
        Role::Viewer => 1,
        Role::Operator => 2,
        Role::Admin => 3,
    }
}

impl Role {
    /// Lower-case wire name of the role.
    pub open spec fn spec_name(self) -> Seq<char> {
        match self {
            Role::Admin => "admin"@,
            Role::Operator => "operator"@,
            Role::Viewer => "viewer"@,
        }
    }

    pub fn as_str(&self) -> (s: &'static str)
        ensures
            s@ == self.spec_name(),
    {
        match self {
            Role::Admin => "admin",
            Role::Operator => "operator",
            Role::Viewer => "viewer",
        }
    }

    fn level(self) -> (l: u8)
        ensures
            l == role_level(self),
    {
        match self {
            Role::Viewer => 1,
            Role::Operator => 2,
            Role::Admin => 3,
        }
    }

    pub fn at_least(self, other: Role) -> (b: bool)
        ensures
            b == (role_level(self) >= role_level(other)),
    {
        self.level() >= other.level()
    }

    /// Allowed to perform any mutation (POST/PUT/DELETE on inventory).
    pub fn can_write(self) -> (b: bool)
        ensures
            b == (self == Role::Admin || self == Role::Operator),
    {
        matches!(self, Role::Admin | Role::Operator)
    }

    /// Allowed to reach the admin endpoints and manage users.
    pub fn can_admin(self) -> (b: bool)
        ensures
            b == (self == Role::Admin),
    {
        matches!(self, Role::Admin)
    }

    /// The role whose wire name is `s`, ignoring ASCII case.
    pub fn from_name(s: &str) -> (r: Option<Role>)
        ensures
            r == role_named(lower_spec(s@)),
    {
        let l = lowercase(s);
        if str_eq(l.as_str(), "admin") {
            Some(Role::Admin)
        } else if str_eq(l.as_str(), "operator") {
            Some(Role::Operator)
        } else if str_eq(l.as_str(), "viewer") {
            Some(Role::Viewer)
        } else {
            None
        }
    }
}

/// The role with lower-case wire name `n`.
pub open spec fn role_named(n: Seq<char>) -> Option<Role> {
    if n == "admin"@ {
        Some(Role::Admin)
    } else if n == "operator"@ {
        Some(Role::Operator)
    } else if n == "viewer"@ {
        Some(Role::Viewer)
    } else {
        None
    }
}

impl std::str::FromStr for Role {
    type Err = ();

    fn from_str(s: &str) -> (r: Result<Self, Self::Err>)
        ensures
            match role_named(lower_spec(s@)) {
                Some(x) => r == Ok::<Role, ()>(x),
                None => r is Err,
            },
    {
        match Role::from_name(s) {
            Some(r) => Ok(r),
            None => Err(()),
        }
    }
}

impl Default for Role {
    fn default() -> (r: Role)
        ensures
            r == Role::Viewer,
    {
        Role::Viewer
    }
}

/// How a caller was authenticated.
#[derive(Debug, Clone, Copy, PartialEq, Eq, Structural)]
pub enum AuthSource {
    Session,
    ApiKey,
    Bootstrap,
    TrustedHeader,
}

impl AuthSource {
    /// Lower-case wire name.
    pub fn as_str(self) -> (s: &'static str)
        ensures
            s@ == match self {
                AuthSource::Session => "session"@,
                AuthSource::ApiKey => "apikey"@,
                AuthSource::Bootstrap => "bootstrap"@,
                AuthSource::TrustedHeader => "trustedheader"@,
            },
    {
        match self {
            AuthSource::Session => "session",
            AuthSource::ApiKey => "apikey",
            AuthSource::Bootstrap => "bootstrap",
            AuthSource::TrustedHeader => "trustedheader",
        }
    }
}

/// The authenticated caller of one request.
#[derive(Debug, Clone)]
pub struct AuthIdentity {
    pub user_id: String,
    pub username: String,
    pub role: Role,
    pub source: AuthSource,
}

/// The abstract value of an identity.
pub struct IdentityView {
    pub user_id: Seq<char>,
    pub username: Seq<char>,
    pub role: Role,
    pub source: AuthSource,
}

impl View for AuthIdentity {
    type V = IdentityView;

    open spec fn view(&self) -> IdentityView {
        IdentityView {
            user_id: self.user_id@,
            username: self.username@,
            role: self.role,
            source: self.source,
        }
    }
}

/// The abstract value of an optional identity.
pub open spec fn opt_identity(o: Option<AuthIdentity>) -> Option<IdentityView> {
    match o {
        Some(i) => Some(i@),
        None => None,
    }
}

/// The bootstrap admin's abstract value.
pub open spec fn bootstrap_view() -> IdentityView {
    IdentityView {
        user_id: "bootstrap"@,
        username: "bootstrap"@,
        role: Role::Admin,
        source: AuthSource::Bootstrap,
    }
}

impl AuthIdentity {
    /// The synthetic admin used before any user exists.
    pub fn bootstrap_admin() -> (id: AuthIdentity)
        ensures
            id@ == bootstrap_view(),
    {
        AuthIdentity {
            user_id: "bootstrap".to_owned(),
            username: "bootstrap".to_owned(),
            role: Role::Admin,
            source: AuthSource::Bootstrap,
        }
    }
}

/// An identity that the authentication layer accepted.
pub struct Authed(pub AuthIdentity);

/// Why a request was refused by a role check.
#[derive(Debug, Clone, Copy, PartialEq, Eq, Structural)]
pub enum Denial {
    /// No identity: answered with 401.
    Unauthorized,
    /// An identity below the required role: answered with 403.
    Forbidden,
}

/// The role gate every protected handler passes through: no identity is
/// 401, one below `min` is 403, anything else goes through unchanged.
pub fn require_role(id: Option<AuthIdentity>, min: Role) -> (r: Result<AuthIdentity, Denial>)
    ensures
        match id {
            None => r == Err::<AuthIdentity, Denial>(Denial::Unauthorized),
            Some(i) => if role_level(i.role) >= role_level(min) {
                r matches Ok(j) && j@ == i@
            } else {
                r == Err::<AuthIdentity, Denial>(Denial::Forbidden)
            },
        },
{
    match id {
        None => Err(Denial::Unauthorized),
        Some(i) => {
            if i.role.at_least(min) {
                Ok(i)
            } else {
                Err(Denial::Forbidden)
            }
        },
    }
}

/// Scope attached to an API key: how much of the owner's role it keeps.
#[derive(Debug, Clone, Copy, PartialEq, Eq, Structural)]
pub enum KeyScope {
    /// The key takes the user's full role.
    Inherit,
    /// Read-only: clamps to Viewer whatever the user's role.
    Viewer,
    /// Write but not admin: capped at Operator.
    Operator,
}

impl KeyScope {
    /// Stored name of the scope.
    pub open spec fn spec_name(self) -> Seq<char> {
        match self {
            KeyScope::Inherit => "inherit"@,
            KeyScope::Viewer => "viewer"@,
            KeyScope::Operator => "operator"@,
        }
    }

    pub fn as_str(self) -> (s: &'static str)
        ensures
            s@ == self.spec_name(),
    {
        match self {
            KeyScope::Inherit => "inherit",
            KeyScope::Viewer => "viewer",
            KeyScope::Operator => "operator",
        }
    }

    /// The scope whose stored name is exactly `s` (case matters).
    pub fn parse(s: &str) -> (r: Option<KeyScope>)
        ensures
            r == scope_named(s@),
    {
        if str_eq(s, "inherit") {
            Some(KeyScope::Inherit)
        } else if str_eq(s, "viewer") {
            Some(KeyScope::Viewer)
        } else if str_eq(s, "operator") {
            Some(KeyScope::Operator)
        } else {
            None
        }
    }

    /// The role a key of this scope grants to a user of role `user_role`.
    pub open spec fn spec_effective(self, user_role: Role) -> Role {
        match self {
            KeyScope::Inherit => user_role,
            KeyScope::Viewer => Role::Viewer,
            KeyScope::Operator => if role_level(user_role) >= role_level(Role::Operator) {
                Role::Operator
            } else {
                user_role
            },
        }
    }

    /// Apply the scope clamp on top of the user's stored role.
    pub fn effective(self, user_role: Role) -> (r: Role)
        ensures
            r == self.spec_effective(user_role),
    {
        match self {
            KeyScope::Inherit => user_role,
            KeyScope::Viewer => Role::Viewer,
            KeyScope::Operator => {
                if user_role.at_least(Role::Operator) {
                    Role::Operator
                } else {
                    user_role
                }
            },
        }
    }
}

/// The scope with stored name `n`.
pub open spec fn scope_named(n: Seq<char>) -> Option<KeyScope> {
    if n == "inherit"@ {
        Some(KeyScope::Inherit)
    } else if n == "viewer"@ {
        Some(KeyScope::Viewer)
    } else if n == "operator"@ {
        Some(KeyScope::Operator)
    } else {
        None
    }
}

/// Group names that grant admin.
pub open spec fn is_admin_group(n: Seq<char>) -> bool {
    n == "racklog-admin"@ || n == "admin"@ || n == "admins"@
}

/// Group names that grant operator.
pub open spec fn is_operator_group(n: Seq<char>) -> bool {
    n == "racklog-operator"@ || n == "operator"@ || n == "operators"@
}

/// The group names in a `,`- or `|`-separated header, trimmed and
/// lower-cased.
pub open spec fn group_names(groups: Seq<char>) -> Seq<Seq<char>> {
    split_any_spec(groups, ',', '|').map_values(|p: Seq<char>| lower_spec(trim_spec(p)))
}

/// The strongest role any listed group grants; Viewer when none does.
pub open spec fn groups_role(groups: Seq<char>) -> Role {
    let ns = group_names(groups);
    if exists|i: int| 0 <= i < ns.len() && #[trigger] is_admin_group(ns[i]) {
        Role::Admin
    } else if exists|i: int| 0 <= i < ns.len() && #[trigger] is_operator_group(ns[i]) {
        Role::Operator
    } else {
        Role::Viewer
    }
}

/// Map an SSO groups header to a role: the strongest group wins.
pub fn map_groups_to_role(groups: &str) -> (r: Role)
    ensures
        r == groups_role(groups@),
{
    let parts = split_on_any(groups, ',', '|');
    let ghost ns = group_names(groups@);
    assert(ns.len() == parts@.len());
    let mut best = Role::Viewer;
    let mut i: usize = 0;
    while i < parts.len()
        invariant
            i <= parts@.len(),
            ns == group_names(groups@),
            parts@.map_values(|p: String| p@) == split_any_spec(groups@, ',', '|'),
            ns.len() == parts@.len(),
            forall|j: int| 0 <= j < i ==> !#[trigger] is_admin_group(ns[j]),
            best == Role::Operator || best == Role::Viewer,
            (best == Role::Operator) == (exists|j: int| 0 <= j < i && #[trigger] is_operator_group(ns[j])),
        decreases parts.len() - i,
    {
        let t = trimmed(parts[i].as_str());
        let n = lowercase(t.as_str());
        assert(parts@.map_values(|p: String| p@)[i as int] == parts@[i as int]@);
        assert(n@ == ns[i as int]);
        if str_eq(n.as_str(), "racklog-admin") || str_eq(n.as_str(), "admin") || str_eq(
            n.as_str(),
            "admins",
        ) {
            assert(is_admin_group(ns[i as int]));
            return Role::Admin;
        }
        if str_eq(n.as_str(), "racklog-operator") || str_eq(n.as_str(), "operator") || str_eq(
            n.as_str(),
            "operators",
        ) {
            assert(is_operator_group(ns[i as int]));
            if !best.at_least(Role::Operator) {
                best = Role::Operator;
            }
        }
        i = i + 1;
    }
    best
}

/// The strongest group wins: the mapped role is at least the role that any
/// single listed group would grant on its own.
pub proof fn lemma_groups_role_is_strongest(groups: Seq<char>, i: int)
    requires
        0 <= i < group_names(groups).len(),
    ensures
        is_admin_group(group_names(groups)[i]) ==> groups_role(groups) == Role::Admin,
        is_operator_group(group_names(groups)[i]) ==> role_level(groups_role(groups)) >= role_level(
            Role::Operator,
        ),
{
}

/// The group names of two headers joined by a separator are those of the
/// first followed by those of the second.
proof fn lemma_group_names_join(x: Seq<char>, y: Seq<char>, sep: char)
    requires
        sep == ',' || sep == '|',
    ensures
        group_names(x + seq![sep] + y) == group_names(x) + group_names(y),
{
    lemma_split_any_join(x, y, ',', '|', sep);
    let f = |p: Seq<char>| lower_spec(trim_spec(p));
    let px = split_any_spec(x, ',', '|');
    let py = split_any_spec(y, ',', '|');
    assert((px + py).map_values(f) =~= px.map_values(f) + py.map_values(f));
}

/// A name list and the same names in another order grant the same role,
/// when every name of each is among the other's.
proof fn lemma_groups_role_same_names(g1: Seq<char>, g2: Seq<char>)
    requires
        forall|i: int|
            0 <= i < group_names(g1).len() ==> group_names(g2).contains(#[trigger] group_names(g1)[i]),
        forall|i: int|
            0 <= i < group_names(g2).len() ==> group_names(g1).contains(#[trigger] group_names(g2)[i]),
    ensures
        groups_role(g1) == groups_role(g2),
{
    let n1 = group_names(g1);
    let n2 = group_names(g2);
    if exists|i: int| 0 <= i < n1.len() && #[trigger] is_admin_group(n1[i]) {
        let i = choose|i: int| 0 <= i < n1.len() && #[trigger] is_admin_group(n1[i]);
        assert(n2.contains(n1[i]));
        let j = choose|j: int| 0 <= j < n2.len() && n2[j] == n1[i];
        assert(is_admin_group(n2[j]));
    }
    if exists|i: int| 0 <= i < n2.len() && #[trigger] is_admin_group(n2[i]) {
        let i = choose|i: int| 0 <= i < n2.len() && #[trigger] is_admin_group(n2[i]);
        assert(n1.contains(n2[i]));
        let j = choose|j: int| 0 <= j < n1.len() && n1[j] == n2[i];
        assert(is_admin_group(n1[j]));
    }
    if exists|i: int| 0 <= i < n1.len() && #[trigger] is_operator_group(n1[i]) {
        let i = choose|i: int| 0 <= i < n1.len() && #[trigger] is_operator_group(n1[i]);
        assert(n2.contains(n1[i]));
        let j = choose|j: int| 0 <= j < n2.len() && n2[j] == n1[i];
        assert(is_operator_group(n2[j]));
    }
    if exists|i: int| 0 <= i < n2.len() && #[trigger] is_operator_group(n2[i]) {
        let i = choose|i: int| 0 <= i < n2.len() && #[trigger] is_operator_group(n2[i]);
        assert(n1.contains(n2[i]));
        let j = choose|j: int| 0 <= j < n1.len() && n1[j] == n2[i];
        assert(is_operator_group(n1[j]));
    }
}

/// The mapped role ignores the order of the groups and which separator
/// (`,` or `|`) joins them: `x,y` and `y|x` grant the same role.
pub proof fn lemma_groups_role_ignores_order(x: Seq<char>, y: Seq<char>, s1: char, s2: char)
    requires
        s1 == ',' || s1 == '|',
        s2 == ',' || s2 == '|',
    ensures
        groups_role(x + seq![s1] + y) == groups_role(y + seq![s2] + x),
{
    lemma_group_names_join(x, y, s1);
    lemma_group_names_join(y, x, s2);
    let nx = group_names(x);
    let ny = group_names(y);
    let a = group_names(x + seq![s1] + y);
    let b = group_names(y + seq![s2] + x);
    assert forall|i: int| 0 <= i < a.len() implies b.contains(#[trigger] a[i]) by {
        if i < nx.len() {
            assert(b[ny.len() + i] == a[i]);
        } else {
            assert(b[i - nx.len()] == a[i]);
        }
    }
    assert forall|i: int| 0 <= i < b.len() implies a.contains(#[trigger] b[i]) by {
        if i < ny.len() {
            assert(a[nx.len() + i] == b[i]);
        } else {
            assert(a[i - ny.len()] == b[i]);
        }
    }
    lemma_groups_role_same_names(x + seq![s1] + y, y + seq![s2] + x);
}

/// The mapped role ignores the ASCII case of the header: a header and its
/// lower-cased form map to the same role (so `Admins` grants what `admins`
/// grants).
pub proof fn lemma_groups_role_ignores_case(g: Seq<char>)
    ensures
        groups_role(lower_spec(g)) == groups_role(g),
{
    lemma_split_lower(g);
    let parts = split_any_spec(g, ',', '|');
    let a = group_names(lower_spec(g));
    let b = group_names(g);
    assert(a.len() == b.len());
    assert forall|i: int| 0 <= i < a.len() implies a[i] == b[i] by {
        lemma_trim_lower(parts[i]);
        lemma_trim_lower(trim_spec(parts[i]));
    }
    assert(a =~= b);
}

/// A header with a part that is, trimmed and in any ASCII case, one of
/// the admin group names maps to Admin; one with an operator group name
/// maps to at least Operator.
pub proof fn lemma_named_group_grants(g: Seq<char>, i: int)
    requires
        0 <= i < split_any_spec(g, ',', '|').len(),
    ensures
        ({
            let n = lower_spec(trim_spec(split_any_spec(g, ',', '|')[i]));
            &&& (n == "racklog-admin"@ || n == "admin"@ || n == "admins"@) ==> groups_role(g)
                == Role::Admin
            &&& (n == "racklog-operator"@ || n == "operator"@ || n == "operators"@) ==> (groups_role(
                g,
            ) == Role::Admin || groups_role(g) == Role::Operator)
        }),
{
    let ns = group_names(g);
    assert(ns[i] == lower_spec(trim_spec(split_any_spec(g, ',', '|')[i])));
    assert(0 <= i < ns.len());
    if is_admin_group(ns[i]) {
        assert(groups_role(g) == Role::Admin);
    }
    if is_operator_group(ns[i]) {
        assert(exists|j: int| 0 <= j < ns.len() && #[trigger] is_operator_group(ns[j]));
    }
}

/// `at_least` is a total preorder on roles, with Admin at the top and
/// Viewer at the bottom.
pub proof fn lemma_role_order(a: Role, b: Role, c: Role)
    ensures
        role_level(a) >= role_level(a),
        role_level(a) >= role_level(b) || role_level(b) >= role_level(a),
        role_level(a) >= role_level(b) && role_level(b) >= role_level(c) ==> role_level(a)
            >= role_level(c),
        role_level(a) >= role_level(b) && role_level(b) >= role_level(a) ==> a == b,
        role_level(Role::Admin) >= role_level(a),
        role_level(a) >= role_level(Role::Viewer),
{
}

/// The permission helpers agree with the order: writing is "at least
/// Operator", administering is "at least Admin".
pub proof fn lemma_permissions_follow_order(r: Role)
    ensures
        (r == Role::Admin || r == Role::Operator) == (role_level(r) >= role_level(Role::Operator)),
        (r == Role::Admin) == (role_level(r) >= role_level(Role::Admin)),
{
}

/// Every role's wire name parses back to it, in any ASCII case.
pub proof fn lemma_role_name_round_trip(r: Role)
    ensures
        role_named(lower_spec(r.spec_name())) == Some(r),
{
    reveal_strlit("admin");
    reveal_strlit("operator");
    reveal_strlit("viewer");
    let n = r.spec_name();
    assert(lower_spec(n) =~= n);
}

/// Every scope's stored name parses back to it.
pub proof fn lemma_scope_name_round_trip(s: KeyScope)
    ensures
        scope_named(s.spec_name()) == Some(s),
{
    reveal_strlit("inherit");
    reveal_strlit("viewer");
    reveal_strlit("operator");
    assert("viewer"@.len() != "inherit"@.len());
    assert("operator"@.len() != "inherit"@.len());
    assert("operator"@.len() != "viewer"@.len());
}

/// A key's scope lowers but never raises the owner's role, and a Viewer
/// scope always gives Viewer.
pub proof fn lemma_scope_never_raises(s: KeyScope, user_role: Role)
    ensures
        role_level(user_role) >= role_level(s.spec_effective(user_role)),
        s == KeyScope::Viewer ==> s.spec_effective(user_role) == Role::Viewer,
        s == KeyScope::Inherit ==> s.spec_effective(user_role) == user_role,
{
}

} // verus!
