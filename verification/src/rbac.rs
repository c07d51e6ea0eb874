//! Role-based access control: roles that hold permissions, users that hold a role,
//! and the permission check that joins them.

use vstd::prelude::*;
use crate::clock::{new_uuid, now_timestamp};
use crate::error::AppError;
use crate::keyed::{
    count_where, lemma_count_where, value_pred, has_key, lemma_map_of_empty, lemma_map_of_index, lemma_map_of_absent, lemma_map_of_len,
    lemma_map_of_push, lemma_map_of_remove, lemma_map_of_update, map_of, unique_keys,
};
use crate::text::{
    clone_strings, concat3, nat_decimal, push_str, push_u64_decimal, str_eq, str_to_string,
    string_views, strings_contain,
};

verus! {

/// A named set of permissions.
#[derive(Debug)]
pub struct Role {
    pub id: String,
    pub name: String,
    pub description: String,
    pub permissions: Vec<String>,
    pub created_at: i64,
}

/// The value of a role.
pub struct RoleView {
    pub id: Seq<char>,
    pub name: Seq<char>,
    pub description: Seq<char>,
    pub permissions: Seq<Seq<char>>,
    pub created_at: i64,
}

impl View for Role {
    type V = RoleView;

    open spec fn view(&self) -> RoleView {
        RoleView {
            id: self.id@,
            name: self.name@,
            description: self.description@,
            permissions: string_views(self.permissions@),
            created_at: self.created_at,
        }
    }
}

impl Clone for Role {
    fn clone(&self) -> (r: Self)
        ensures
            r@ == self@,
    {
        Role {
            id: self.id.clone(),
            name: self.name.clone(),
            description: self.description.clone(),
            permissions: clone_strings(&self.permissions),
            created_at: self.created_at,
        }
    }
}

/// An account that acts under one role.
#[derive(Debug)]
pub struct User {
    pub id: String,
    pub username: String,
    pub email: String,
    pub role_id: String,
    pub is_active: bool,
    pub created_at: i64,
    pub last_login: Option<i64>,
}

/// The value of a user.
pub struct UserView {
    pub id: Seq<char>,
    pub username: Seq<char>,
    pub email: Seq<char>,
    pub role_id: Seq<char>,
    pub is_active: bool,
    pub created_at: i64,
    pub last_login: Option<i64>,
}

impl View for User {
    type V = UserView;

    open spec fn view(&self) -> UserView {
        UserView {
            id: self.id@,
            username: self.username@,
            email: self.email@,
            role_id: self.role_id@,
            is_active: self.is_active,
            created_at: self.created_at,
            last_login: self.last_login,
        }
    }
}

impl Clone for User {
    fn clone(&self) -> (r: Self)
        ensures
            r@ == self@,
    {
        User {
            id: self.id.clone(),
            username: self.username.clone(),
            email: self.email.clone(),
            role_id: self.role_id.clone(),
            is_active: self.is_active,
            created_at: self.created_at,
            last_login: self.last_login,
        }
    }
}

/// A described permission on a resource.
#[derive(Debug)]
pub struct Permission {
    pub id: String,
    pub name: String,
    pub description: String,
    pub resource: String,
    pub action: String,
}

/// The value of a permission.
pub struct PermissionView {
    pub id: Seq<char>,
    pub name: Seq<char>,
    pub description: Seq<char>,
    pub resource: Seq<char>,
    pub action: Seq<char>,
}

impl View for Permission {
    type V = PermissionView;

    open spec fn view(&self) -> PermissionView {
        PermissionView {
            id: self.id@,
            name: self.name@,
            description: self.description@,
            resource: self.resource@,
            action: self.action@,
        }
    }
}

impl Clone for Permission {
    fn clone(&self) -> (r: Self)
        ensures
            r@ == self@,
    {
        Permission {
            id: self.id.clone(),
            name: self.name.clone(),
            description: self.description.clone(),
            resource: self.resource.clone(),
            action: self.action.clone(),
        }
    }
}

/// Limits and start-up behaviour of the access-control system.
#[derive(Debug, Clone, Copy)]
pub struct RbacConfig {
    pub max_roles: usize,
    pub max_users_per_role: usize,
    pub enable_default_roles: bool,
}

impl Default for RbacConfig {
    fn default() -> (r: Self)
        ensures
            r.max_roles == 50,
            r.max_users_per_role == 1000,
            r.enable_default_roles,
    {
        RbacConfig { max_roles: 50, max_users_per_role: 1000, enable_default_roles: true }
    }
}

/// The number of users under one role.
#[derive(Debug)]
pub struct RoleStats {
    pub id: String,
    pub name: String,
    pub user_count: usize,
}

/// Counts of the system's contents.
#[derive(Debug)]
pub struct RbacStats {
    pub total_roles: usize,
    pub total_users: usize,
    pub total_permissions: usize,
    pub roles: Vec<RoleStats>,
}

/// Roles, users and permissions, each keyed by its identifier.
pub struct RbacSystem {
    roles: Vec<Role>,
    users: Vec<User>,
    permissions: Vec<Permission>,
    config: RbacConfig,
}

/// The message of a missing role.
pub open spec fn role_not_found(id: Seq<char>) -> Seq<char> {
    "Role "@ + id + " not found"@
}

/// The message of a missing user.
pub open spec fn user_not_found(id: Seq<char>) -> Seq<char> {
    "User "@ + id + " not found"@
}

/// The message of a full role table.
pub open spec fn role_limit_reached(max: usize) -> Seq<char> {
    "Maximum role limit ("@ + nat_decimal(max as nat) + ") reached"@
}

/// A role as `create_role` makes it.
pub open spec fn new_role(
    id: Seq<char>,
    name: Seq<char>,
    description: Seq<char>,
    permissions: Seq<Seq<char>>,
    created_at: i64,
) -> RoleView {
    RoleView { id, name, description, permissions, created_at }
}

/// An active user as `create_user` makes it, created at time `t`.
pub open spec fn new_user(
    id: Seq<char>,
    username: Seq<char>,
    email: Seq<char>,
    role_id: Seq<char>,
    t: i64,
) -> UserView {
    UserView { id, username, email, role_id, is_active: true, created_at: t, last_login: None }
}

/// The role table after one `create_role` call whose identifier and clock reading were
/// `id` and `t`: unchanged when the table is full.
pub open spec fn after_create_role(
    roles: Map<Seq<char>, RoleView>,
    max: usize,
    id: Seq<char>,
    t: i64,
    name: Seq<char>,
    description: Seq<char>,
    permissions: Seq<Seq<char>>,
) -> Map<Seq<char>, RoleView> {
    if roles.len() >= max {
        roles
    } else {
        roles.insert(id, new_role(id, name, description, permissions, t))
    }
}

/// The text a successful result carries; empty for an error.
pub open spec fn ok_text(r: Result<String, AppError>) -> Seq<char> {
    match r {
        Ok(s) => s@,
        Err(_) => Seq::empty(),
    }
}

/// The permissions of the built-in administrator role.
pub open spec fn admin_permissions() -> Seq<Seq<char>> {
    seq![
        "user:create"@, "user:read"@, "user:update"@, "user:delete"@,
        "role:create"@, "role:read"@, "role:update"@, "role:delete"@,
        "permission:create"@, "permission:read"@, "permission:update"@, "permission:delete"@,
        "system:configure"@, "system:restart"@, "system:backup"@,
        "tool:execute"@, "skill:execute"@, "plugin:execute"@, "agent:chat"@,
    ]
}

/// The permissions of the built-in editor role.
pub open spec fn editor_permissions() -> Seq<Seq<char>> {
    seq![
        "user:read"@, "role:read"@, "permission:read"@,
        "tool:execute"@, "skill:execute"@, "plugin:execute"@, "agent:chat"@,
    ]
}

/// The permissions of the built-in viewer role.
pub open spec fn viewer_permissions() -> Seq<Seq<char>> {
    seq!["user:read"@, "role:read"@, "permission:read"@, "agent:chat"@]
}

/// The role table after the three built-in roles were created in turn into `roles`,
/// with identifiers `a`, `e`, `v` and clock readings `ta`, `te`, `tv`.
pub open spec fn after_default_roles(
    roles: Map<Seq<char>, RoleView>,
    max: usize,
    a: Seq<char>,
    ta: i64,
    e: Seq<char>,
    te: i64,
    v: Seq<char>,
    tv: i64,
) -> Map<Seq<char>, RoleView> {
    let r1 = after_create_role(roles, max, a, ta, "admin"@, "System Administrator"@, admin_permissions());
    let r2 = after_create_role(r1, max, e, te, "editor"@, "Content Editor"@, editor_permissions());
    after_create_role(r2, max, v, tv, "viewer"@, "Read-only Viewer"@, viewer_permissions())
}

/// Whether the permission list grants `permission`: it is listed, or the wildcard `*` is.
pub open spec fn grants(perms: Seq<Seq<char>>, permission: Seq<char>) -> bool {
    perms.contains(permission) || perms.contains("*"@)
}

/// The vectors of `list_*` calls: each element is the map's value at its key, every key
/// occurs, and no key occurs twice.
pub open spec fn lists_map<V>(keys: Seq<Seq<char>>, vals: Seq<V>, m: Map<Seq<char>, V>) -> bool {
    &&& keys.len() == vals.len()
    &&& keys.len() == m.dom().len()
    &&& keys.no_duplicates()
    &&& forall|i: int| 0 <= i < keys.len() ==> #[trigger] m.dom().contains(keys[i]) && m[keys[i]] == vals[i]
    &&& forall|k: Seq<char>| #[trigger] m.dom().contains(k) ==> keys.contains(k)
}

impl RbacSystem {
    pub closed spec fn role_entries(&self) -> Seq<(Seq<char>, RoleView)> {
        self.roles@.map_values(|r: Role| (r.id@, r@))
    }

    pub closed spec fn user_entries(&self) -> Seq<(Seq<char>, UserView)> {
        self.users@.map_values(|u: User| (u.id@, u@))
    }

    pub closed spec fn permission_entries(&self) -> Seq<(Seq<char>, PermissionView)> {
        self.permissions@.map_values(|p: Permission| (p.id@, p@))
    }

    /// The roles, by identifier.
    pub closed spec fn roles_view(&self) -> Map<Seq<char>, RoleView> {
        map_of(self.role_entries())
    }

    /// The users, by identifier.
    pub closed spec fn users_view(&self) -> Map<Seq<char>, UserView> {
        map_of(self.user_entries())
    }

    /// The permissions, by identifier.
    pub closed spec fn permissions_view(&self) -> Map<Seq<char>, PermissionView> {
        map_of(self.permission_entries())
    }

    /// The configuration the system was made with.
    pub closed spec fn config_view(&self) -> RbacConfig {
        self.config
    }

    /// Each table holds each identifier at most once.
    pub closed spec fn wf(&self) -> bool {
        &&& unique_keys(self.role_entries())
        &&& unique_keys(self.user_entries())
        &&& unique_keys(self.permission_entries())
    }

    proof fn lemma_tables(&self)
        requires
            self.wf(),
        ensures
            self.roles_view().dom().finite(),
            self.users_view().dom().finite(),
            self.permissions_view().dom().finite(),
            self.roles_view().dom().len() == self.roles@.len(),
            self.users_view().dom().len() == self.users@.len(),
            self.permissions_view().dom().len() == self.permissions@.len(),
    {
        lemma_map_of_len(self.role_entries());
        lemma_map_of_len(self.user_entries());
        lemma_map_of_len(self.permission_entries());
    }

    /// A system with the given limits; with `enable_default_roles` it starts with the
    /// built-in `admin`, `editor` and `viewer` roles, created in that order.
    pub fn new(config: RbacConfig) -> (r: Self)
        ensures
            r.wf(),
            r.config_view() == config,
            r.users_view() == Map::<Seq<char>, UserView>::empty(),
            r.permissions_view() == Map::<Seq<char>, PermissionView>::empty(),
            !config.enable_default_roles ==> r.roles_view() == Map::<Seq<char>, RoleView>::empty(),
            config.enable_default_roles ==> exists|a: Seq<char>, ta: i64, e: Seq<char>, te: i64, v: Seq<char>, tv: i64|
                r.roles_view() == #[trigger] after_default_roles(Map::empty(), config.max_roles, a, ta, e, te, v, tv),
    {
        let mut system = RbacSystem {
            roles: Vec::new(),
            users: Vec::new(),
            permissions: Vec::new(),
            config,
        };
        proof {
            lemma_map_of_empty(system.role_entries());
            lemma_map_of_empty(system.user_entries());
            lemma_map_of_empty(system.permission_entries());
        }
        if config.enable_default_roles {
            system.initialize_default_roles();
        }
        system
    }

    fn initialize_default_roles(&mut self)
        requires
            old(self).wf(),
        ensures
            final(self).wf(),
            final(self).config == old(self).config,
            final(self).users_view() == old(self).users_view(),
            final(self).permissions_view() == old(self).permissions_view(),
            exists|a: Seq<char>, ta: i64, e: Seq<char>, te: i64, v: Seq<char>, tv: i64|
                final(self).roles_view() == #[trigger] after_default_roles(old(self).roles_view(), old(self).config.max_roles, a, ta, e, te, v, tv),
    {
        let admin_perms = vec![
            str_to_string("user:create"), str_to_string("user:read"),
            str_to_string("user:update"), str_to_string("user:delete"),
            str_to_string("role:create"), str_to_string("role:read"),
            str_to_string("role:update"), str_to_string("role:delete"),
            str_to_string("permission:create"), str_to_string("permission:read"),
            str_to_string("permission:update"), str_to_string("permission:delete"),
            str_to_string("system:configure"), str_to_string("system:restart"),
            str_to_string("system:backup"), str_to_string("tool:execute"),
            str_to_string("skill:execute"), str_to_string("plugin:execute"),
            str_to_string("agent:chat"),
        ];
        assert(string_views(admin_perms@) =~= admin_permissions());
        let editor_perms = vec![
            str_to_string("user:read"), str_to_string("role:read"),
            str_to_string("permission:read"), str_to_string("tool:execute"),
            str_to_string("skill:execute"), str_to_string("plugin:execute"),
            str_to_string("agent:chat"),
        ];
        assert(string_views(editor_perms@) =~= editor_permissions());
        let viewer_perms = vec![
            str_to_string("user:read"), str_to_string("role:read"),
            str_to_string("permission:read"), str_to_string("agent:chat"),
        ];
        assert(string_views(viewer_perms@) =~= viewer_permissions());
        let ghost m0 = self.roles_view();
        let r1 = self.create_role(str_to_string("admin"), str_to_string("System Administrator"), admin_perms);
        let ghost m1 = self.roles_view();
        let ghost (a, ta) = choose|a: Seq<char>, ta: i64| m1 == after_create_role(m0, self.config.max_roles, a, ta, "admin"@, "System Administrator"@, admin_permissions());
        let r2 = self.create_role(str_to_string("editor"), str_to_string("Content Editor"), editor_perms);
        let ghost m2 = self.roles_view();
        let ghost (e, te) = choose|e: Seq<char>, te: i64| m2 == after_create_role(m1, self.config.max_roles, e, te, "editor"@, "Content Editor"@, editor_permissions());
        let r3 = self.create_role(str_to_string("viewer"), str_to_string("Read-only Viewer"), viewer_perms);
        let ghost m3 = self.roles_view();
        let ghost (v, tv) = choose|v: Seq<char>, tv: i64| m3 == after_create_role(m2, self.config.max_roles, v, tv, "viewer"@, "Read-only Viewer"@, viewer_permissions());
        assert(m3 == after_default_roles(m0, self.config.max_roles, a, ta, e, te, v, tv));
    }

    fn find_role(&self, id: &str) -> (r: Option<usize>)
        requires
            self.wf(),
        ensures
            match r {
                Some(i) => i < self.roles@.len() && self.roles@[i as int].id@ == id@
                    && self.roles_view().dom().contains(id@)
                    && self.roles_view()[id@] == self.roles@[i as int]@,
                None => !self.roles_view().dom().contains(id@),
            },
    {
        let mut i: usize = 0;
        while i < self.roles.len()
            invariant
                i <= self.roles@.len(),
                self.wf(),
                forall|j: int| 0 <= j < i ==> #[trigger] self.roles@[j].id@ != id@,
            decreases self.roles.len() - i,
        {
            if str_eq(self.roles[i].id.as_str(), id) {
                proof {
                    lemma_map_of_index(self.role_entries(), i as int);
                }
                return Some(i);
            }
            i = i + 1;
        }
        proof {
            assert forall|j: int| 0 <= j < self.role_entries().len() implies #[trigger] self.role_entries()[j].0 != id@ by {
                assert(self.role_entries()[j].0 == self.roles@[j].id@);
            }
            lemma_map_of_absent(self.role_entries(), id@);
        }
        None
    }

    fn find_user(&self, id: &str) -> (r: Option<usize>)
        requires
            self.wf(),
        ensures
            match r {
                Some(i) => i < self.users@.len() && self.users@[i as int].id@ == id@
                    && self.users_view().dom().contains(id@)
                    && self.users_view()[id@] == self.users@[i as int]@,
                None => !self.users_view().dom().contains(id@),
            },
    {
        let mut i: usize = 0;
        while i < self.users.len()
            invariant
                i <= self.users@.len(),
                self.wf(),
                forall|j: int| 0 <= j < i ==> #[trigger] self.users@[j].id@ != id@,
            decreases self.users.len() - i,
        {
            if str_eq(self.users[i].id.as_str(), id) {
                proof {
                    lemma_map_of_index(self.user_entries(), i as int);
                }
                return Some(i);
            }
            i = i + 1;
        }
        proof {
            assert forall|j: int| 0 <= j < self.user_entries().len() implies #[trigger] self.user_entries()[j].0 != id@ by {
                assert(self.user_entries()[j].0 == self.users@[j].id@);
            }
            lemma_map_of_absent(self.user_entries(), id@);
        }
        None
    }

    /// Adds a role under a fresh random identifier, which it returns; refused with
    /// `Internal` when the table already holds `max_roles` roles.
    pub fn create_role(&mut self, name: String, description: String, permissions: Vec<String>) -> (r: Result<String, AppError>)
        requires
            old(self).wf(),
        ensures
            final(self).wf(),
            final(self).config_view() == old(self).config_view(),
            final(self).users_view() == old(self).users_view(),
            final(self).permissions_view() == old(self).permissions_view(),
            exists|t: i64| final(self).roles_view() === #[trigger] after_create_role(old(self).roles_view(), old(self).config_view().max_roles, ok_text(r), t, name@, description@, string_views(permissions@)),
            r is Ok <==> old(self).roles_view().len() < old(self).config_view().max_roles,
            match r {
                Ok(_) => true,
                Err(e) => e is Internal && e.message() == role_limit_reached(old(self).config_view().max_roles),
            },
    {
        proof {
            self.lemma_tables();
        }
        let ghost max = old(self).config_view().max_roles;
        let ghost before = old(self).roles_view();
        if self.roles.len() >= self.config.max_roles {
            let mut msg = str_to_string("Maximum role limit (");
            push_u64_decimal(&mut msg, self.config.max_roles as u64);
            push_str(&mut msg, ") reached");
            let r = Err(AppError::Internal(msg));
            proof {
                assert(after_create_role(before, max, ok_text(r), 0, name@, description@, string_views(permissions@)) == self.roles_view());
            }
            return r;
        }
        let id = new_uuid();
        let created_at = now_timestamp();
        let role = Role { id: id.clone(), name, description, permissions, created_at };
        let ghost old_entries = self.role_entries();
        let ghost rv = role@;
        match self.find_role(id.as_str()) {
            Some(i) => {
                self.roles.set(i, role);
                proof {
                    assert(self.role_entries() =~= old_entries.update(i as int, (old_entries[i as int].0, rv)));
                    lemma_map_of_update(old_entries, i as int, rv);
                }
            },
            None => {
                self.roles.push(role);
                proof {
                    assert(self.role_entries() =~= old_entries.push((id@, rv)));
                    if has_key(old_entries, id@) {
                        let j = choose|j: int| 0 <= j < old_entries.len() && old_entries[j].0 == id@;
                        lemma_map_of_index(old_entries, j);
                    }
                    lemma_map_of_push(old_entries, id@, rv);
                }
            },
        }
        let r = Ok(id);
        assert(self.roles_view() == after_create_role(before, max, ok_text(r), created_at, name@, description@, string_views(permissions@)));
        r
    }

    /// The role with identifier `role_id`; `NotFound` when there is none.
    pub fn get_role(&self, role_id: &str) -> (r: Result<Role, AppError>)
        requires
            self.wf(),
        ensures
            r is Ok <==> self.roles_view().dom().contains(role_id@),
            match r {
                Ok(role) => role@ == self.roles_view()[role_id@],
                Err(e) => e is NotFound && e.message() == role_not_found(role_id@),
            },
    {
        match self.find_role(role_id) {
            Some(i) => Ok(self.roles[i].clone()),
            None => Err(AppError::NotFound(concat3("Role ", role_id, " not found"))),
        }
    }

    /// All roles, one per identifier.
    pub fn list_roles(&self) -> (r: Vec<Role>)
        requires
            self.wf(),
        ensures
            lists_map(r@.map_values(|x: Role| x.id@), r@.map_values(|x: Role| x@), self.roles_view()),
    {
        let mut out: Vec<Role> = Vec::new();
        let mut i: usize = 0;
        while i < self.roles.len()
            invariant
                i <= self.roles@.len(),
                out@.len() == i,
                forall|j: int| 0 <= j < i ==> #[trigger] out@[j]@ == self.roles@[j]@,
            decreases self.roles.len() - i,
        {
            out.push(self.roles[i].clone());
            i = i + 1;
        }
        proof {
            self.lemma_tables();
            let ks = out@.map_values(|x: Role| x.id@);
            let vs = out@.map_values(|x: Role| x@);
            let es = self.role_entries();
            assert forall|a: int, b: int| 0 <= a < ks.len() && 0 <= b < ks.len() && a != b implies ks[a] != ks[b] by {
                assert(out@[a]@ == self.roles@[a]@ && out@[b]@ == self.roles@[b]@);
                assert(es[a].0 == ks[a] && es[b].0 == ks[b]);
            }
            assert forall|a: int| 0 <= a < ks.len() implies #[trigger] self.roles_view().dom().contains(ks[a]) && self.roles_view()[ks[a]] == vs[a] by {
                assert(out@[a]@ == self.roles@[a]@);
                lemma_map_of_index(es, a);
            }
            assert forall|k: Seq<char>| #[trigger] self.roles_view().dom().contains(k) implies ks.contains(k) by {
                let a = choose|a: int| 0 <= a < es.len() && es[a].0 == k;
                assert(out@[a]@ == self.roles@[a]@);
                assert(ks[a] == k);
            }
        }
        out
    }

    /// Replaces the fields given as `Some` of the role `role_id`; `NotFound` when there is none.
    pub fn update_role(
        &mut self,
        role_id: &str,
        name: Option<String>,
        description: Option<String>,
        permissions: Option<Vec<String>>,
    ) -> (r: Result<(), AppError>)
        requires
            old(self).wf(),
        ensures
            final(self).wf(),
            final(self).config_view() == old(self).config_view(),
            final(self).users_view() == old(self).users_view(),
            final(self).permissions_view() == old(self).permissions_view(),
            r is Ok <==> old(self).roles_view().dom().contains(role_id@),
            match r {
                Ok(_) => {
                    let o = old(self).roles_view()[role_id@];
                    final(self).roles_view() == old(self).roles_view().insert(role_id@, RoleView {
                        id: o.id,
                        name: match name { Some(n) => n@, None => o.name },
                        description: match description { Some(d) => d@, None => o.description },
                        permissions: match permissions { Some(p) => string_views(p@), None => o.permissions },
                        created_at: o.created_at,
                    })
                },
                Err(e) => e is NotFound && e.message() == role_not_found(role_id@)
                    && final(self).roles_view() == old(self).roles_view(),
            },
    {
        match self.find_role(role_id) {
            None => Err(AppError::NotFound(concat3("Role ", role_id, " not found"))),
            Some(i) => {
                let ghost old_entries = self.role_entries();
                let mut role = self.roles[i].clone();
                if let Some(n) = name {
                    role.name = n;
                }
                if let Some(d) = description {
                    role.description = d;
                }
                if let Some(p) = permissions {
                    role.permissions = p;
                }
                let ghost rv = role@;
                self.roles.set(i, role);
                proof {
                    assert(self.role_entries() =~= old_entries.update(i as int, (old_entries[i as int].0, rv)));
                    lemma_map_of_update(old_entries, i as int, rv);
                }
                Ok(())
            },
        }
    }

    /// Removes the role `role_id`; `NotFound` when there is none. Users that held the
    /// role keep its identifier.
    pub fn delete_role(&mut self, role_id: &str) -> (r: Result<(), AppError>)
        requires
            old(self).wf(),
        ensures
            final(self).wf(),
            final(self).config_view() == old(self).config_view(),
            final(self).users_view() == old(self).users_view(),
            final(self).permissions_view() == old(self).permissions_view(),
            r is Ok <==> old(self).roles_view().dom().contains(role_id@),
            final(self).roles_view() == old(self).roles_view().remove(role_id@),
            match r {
                Ok(_) => true,
                Err(e) => e is NotFound && e.message() == role_not_found(role_id@),
            },
    {
        match self.find_role(role_id) {
            None => {
                assert(self.roles_view().remove(role_id@) =~= self.roles_view());
                Err(AppError::NotFound(concat3("Role ", role_id, " not found")))
            },
            Some(i) => {
                let ghost old_entries = self.role_entries();
                self.roles.remove(i);
                proof {
                    assert(self.role_entries() =~= old_entries.remove(i as int));
                    lemma_map_of_remove(old_entries, i as int);
                }
                Ok(())
            },
        }
    }

    /// Adds an active user that holds role `role_id`, under a fresh random identifier,
    /// which it returns; `NotFound` when the role does not exist.
    pub fn create_user(&mut self, username: String, email: String, role_id: String) -> (r: Result<String, AppError>)
        requires
            old(self).wf(),
        ensures
            final(self).wf(),
            final(self).config_view() == old(self).config_view(),
            final(self).roles_view() == old(self).roles_view(),
            final(self).permissions_view() == old(self).permissions_view(),
            r is Ok <==> old(self).roles_view().dom().contains(role_id@),
            match r {
                Ok(_) => exists|t: i64| final(self).users_view() === old(self).users_view().insert(ok_text(r), #[trigger] new_user(ok_text(r), username@, email@, role_id@, t)),
                Err(e) => e is NotFound && e.message() == role_not_found(role_id@)
                    && final(self).users_view() == old(self).users_view(),
            },
    {
        let ghost before = old(self).users_view();
        if self.find_role(role_id.as_str()).is_none() {
            return Err(AppError::NotFound(concat3("Role ", role_id.as_str(), " not found")));
        }
        let id = new_uuid();
        let created_at = now_timestamp();
        let user = User { id: id.clone(), username, email, role_id, is_active: true, created_at, last_login: None };
        let ghost old_entries = self.user_entries();
        let ghost uv = user@;
        match self.find_user(id.as_str()) {
            Some(i) => {
                self.users.set(i, user);
                proof {
                    assert(self.user_entries() =~= old_entries.update(i as int, (old_entries[i as int].0, uv)));
                    lemma_map_of_update(old_entries, i as int, uv);
                }
            },
            None => {
                self.users.push(user);
                proof {
                    assert(self.user_entries() =~= old_entries.push((id@, uv)));
                    if has_key(old_entries, id@) {
                        let j = choose|j: int| 0 <= j < old_entries.len() && old_entries[j].0 == id@;
                        lemma_map_of_index(old_entries, j);
                    }
                    lemma_map_of_push(old_entries, id@, uv);
                }
            },
        }
        let r = Ok(id);
        assert(self.users_view() == before.insert(ok_text(r), new_user(ok_text(r), username@, email@, role_id@, created_at)));
        r
    }

    /// The user with identifier `user_id`; `NotFound` when there is none.
    pub fn get_user(&self, user_id: &str) -> (r: Result<User, AppError>)
        requires
            self.wf(),
        ensures
            r is Ok <==> self.users_view().dom().contains(user_id@),
            match r {
                Ok(user) => user@ == self.users_view()[user_id@],
                Err(e) => e is NotFound && e.message() == user_not_found(user_id@),
            },
    {
        match self.find_user(user_id) {
            Some(i) => Ok(self.users[i].clone()),
            None => Err(AppError::NotFound(concat3("User ", user_id, " not found"))),
        }
    }

    /// All users, one per identifier.
    pub fn list_users(&self) -> (r: Vec<User>)
        requires
            self.wf(),
        ensures
            lists_map(r@.map_values(|x: User| x.id@), r@.map_values(|x: User| x@), self.users_view()),
    {
        let mut out: Vec<User> = Vec::new();
        let mut i: usize = 0;
        while i < self.users.len()
            invariant
                i <= self.users@.len(),
                out@.len() == i,
                forall|j: int| 0 <= j < i ==> #[trigger] out@[j]@ == self.users@[j]@,
            decreases self.users.len() - i,
        {
            out.push(self.users[i].clone());
            i = i + 1;
        }
        proof {
            self.lemma_tables();
            let ks = out@.map_values(|x: User| x.id@);
            let vs = out@.map_values(|x: User| x@);
            let es = self.user_entries();
            assert forall|a: int, b: int| 0 <= a < ks.len() && 0 <= b < ks.len() && a != b implies ks[a] != ks[b] by {
                assert(out@[a]@ == self.users@[a]@ && out@[b]@ == self.users@[b]@);
                assert(es[a].0 == ks[a] && es[b].0 == ks[b]);
            }
            assert forall|a: int| 0 <= a < ks.len() implies #[trigger] self.users_view().dom().contains(ks[a]) && self.users_view()[ks[a]] == vs[a] by {
                assert(out@[a]@ == self.users@[a]@);
                lemma_map_of_index(es, a);
            }
            assert forall|k: Seq<char>| #[trigger] self.users_view().dom().contains(k) implies ks.contains(k) by {
                let a = choose|a: int| 0 <= a < es.len() && es[a].0 == k;
                assert(out@[a]@ == self.users@[a]@);
                assert(ks[a] == k);
            }
        }
        out
    }

    /// Gives user `user_id` the role `role_id`. `NotFound` for a missing role, checked
    /// first, then for a missing user.
    pub fn update_user_role(&mut self, user_id: &str, role_id: &str) -> (r: Result<(), AppError>)
        requires
            old(self).wf(),
        ensures
            final(self).wf(),
            final(self).config_view() == old(self).config_view(),
            final(self).roles_view() == old(self).roles_view(),
            final(self).permissions_view() == old(self).permissions_view(),
            r is Ok <==> old(self).roles_view().dom().contains(role_id@) && old(self).users_view().dom().contains(user_id@),
            match r {
                Ok(_) => {
                    let o = old(self).users_view()[user_id@];
                    final(self).users_view() == old(self).users_view().insert(user_id@, UserView { role_id: role_id@, ..o })
                },
                Err(e) => e is NotFound && final(self).users_view() == old(self).users_view()
                    && e.message() == if !old(self).roles_view().dom().contains(role_id@) {
                        role_not_found(role_id@)
                    } else {
                        user_not_found(user_id@)
                    },
            },
    {
        if self.find_role(role_id).is_none() {
            return Err(AppError::NotFound(concat3("Role ", role_id, " not found")));
        }
        match self.find_user(user_id) {
            None => Err(AppError::NotFound(concat3("User ", user_id, " not found"))),
            Some(i) => {
                let ghost old_entries = self.user_entries();
                let mut user = self.users[i].clone();
                user.role_id = str_to_string(role_id);
                let ghost uv = user@;
                self.users.set(i, user);
                proof {
                    assert(self.user_entries() =~= old_entries.update(i as int, (old_entries[i as int].0, uv)));
                    lemma_map_of_update(old_entries, i as int, uv);
                }
                Ok(())
            },
        }
    }

    /// Removes the user `user_id`; `NotFound` when there is none.
    pub fn delete_user(&mut self, user_id: &str) -> (r: Result<(), AppError>)
        requires
            old(self).wf(),
        ensures
            final(self).wf(),
            final(self).config_view() == old(self).config_view(),
            final(self).roles_view() == old(self).roles_view(),
            final(self).permissions_view() == old(self).permissions_view(),
            r is Ok <==> old(self).users_view().dom().contains(user_id@),
            final(self).users_view() == old(self).users_view().remove(user_id@),
            match r {
                Ok(_) => true,
                Err(e) => e is NotFound && e.message() == user_not_found(user_id@),
            },
    {
        match self.find_user(user_id) {
            None => {
                assert(self.users_view().remove(user_id@) =~= self.users_view());
                Err(AppError::NotFound(concat3("User ", user_id, " not found")))
            },
            Some(i) => {
                let ghost old_entries = self.user_entries();
                self.users.remove(i);
                proof {
                    assert(self.user_entries() =~= old_entries.remove(i as int));
                    lemma_map_of_remove(old_entries, i as int);
                }
                Ok(())
            },
        }
    }

    /// The role of user `user_id`, looked up through its identifier: `NotFound` for a
    /// missing user, then for a missing role.
    fn user_role_index(&self, user_id: &str) -> (r: Result<usize, AppError>)
        requires
            self.wf(),
        ensures
            r is Ok <==> self.users_view().dom().contains(user_id@)
                && self.roles_view().dom().contains(self.users_view()[user_id@].role_id),
            match r {
                Ok(i) => i < self.roles@.len()
                    && self.roles@[i as int]@ == self.roles_view()[self.users_view()[user_id@].role_id],
                Err(e) => e is NotFound && e.message() == if !self.users_view().dom().contains(user_id@) {
                    user_not_found(user_id@)
                } else {
                    role_not_found(self.users_view()[user_id@].role_id)
                },
            },
    {
        match self.find_user(user_id) {
            None => Err(AppError::NotFound(concat3("User ", user_id, " not found"))),
            Some(u) => match self.find_role(self.users[u].role_id.as_str()) {
                None => Err(AppError::NotFound(concat3("Role ", self.users[u].role_id.as_str(), " not found"))),
                Some(i) => Ok(i),
            },
        }
    }

    /// Whether the role of user `user_id` grants `permission`, by name or by the
    /// wildcard `*`; `NotFound` for a missing user, then for a missing role.
    pub fn check_permission(&self, user_id: &str, permission: &str) -> (r: Result<bool, AppError>)
        requires
            self.wf(),
        ensures
            r is Ok <==> self.users_view().dom().contains(user_id@)
                && self.roles_view().dom().contains(self.users_view()[user_id@].role_id),
            match r {
                Ok(b) => b == grants(self.roles_view()[self.users_view()[user_id@].role_id].permissions, permission@),
                Err(e) => e is NotFound && e.message() == if !self.users_view().dom().contains(user_id@) {
                    user_not_found(user_id@)
                } else {
                    role_not_found(self.users_view()[user_id@].role_id)
                },
            },
    {
        match self.user_role_index(user_id) {
            Err(e) => Err(e),
            Ok(i) => {
                let direct = strings_contain(&self.roles[i].permissions, permission);
                let wildcard = strings_contain(&self.roles[i].permissions, "*");
                Ok(direct || wildcard)
            },
        }
    }

    /// The permissions of the role of user `user_id`; `NotFound` for a missing user,
    /// then for a missing role.
    pub fn get_user_permissions(&self, user_id: &str) -> (r: Result<Vec<String>, AppError>)
        requires
            self.wf(),
        ensures
            r is Ok <==> self.users_view().dom().contains(user_id@)
                && self.roles_view().dom().contains(self.users_view()[user_id@].role_id),
            match r {
                Ok(p) => string_views(p@) == self.roles_view()[self.users_view()[user_id@].role_id].permissions,
                Err(e) => e is NotFound && e.message() == if !self.users_view().dom().contains(user_id@) {
                    user_not_found(user_id@)
                } else {
                    role_not_found(self.users_view()[user_id@].role_id)
                },
            },
    {
        match self.user_role_index(user_id) {
            Err(e) => Err(e),
            Ok(i) => Ok(clone_strings(&self.roles[i].permissions)),
        }
    }

    /// The name of the role of user `user_id`; `NotFound` for a missing user, then for a
    /// missing role.
    pub fn get_user_role_name(&self, user_id: &str) -> (r: Result<String, AppError>)
        requires
            self.wf(),
        ensures
            r is Ok <==> self.users_view().dom().contains(user_id@)
                && self.roles_view().dom().contains(self.users_view()[user_id@].role_id),
            match r {
                Ok(n) => n@ == self.roles_view()[self.users_view()[user_id@].role_id].name,
                Err(e) => e is NotFound && e.message() == if !self.users_view().dom().contains(user_id@) {
                    user_not_found(user_id@)
                } else {
                    role_not_found(self.users_view()[user_id@].role_id)
                },
            },
    {
        match self.user_role_index(user_id) {
            Err(e) => Err(e),
            Ok(i) => Ok(self.roles[i].name.clone()),
        }
    }

    fn find_permission(&self, id: &str) -> (r: Option<usize>)
        requires
            self.wf(),
        ensures
            match r {
                Some(i) => i < self.permissions@.len() && self.permissions@[i as int].id@ == id@,
                None => !self.permissions_view().dom().contains(id@),
            },
    {
        let mut i: usize = 0;
        while i < self.permissions.len()
            invariant
                i <= self.permissions@.len(),
                self.wf(),
                forall|j: int| 0 <= j < i ==> #[trigger] self.permissions@[j].id@ != id@,
            decreases self.permissions.len() - i,
        {
            if str_eq(self.permissions[i].id.as_str(), id) {
                return Some(i);
            }
            i = i + 1;
        }
        proof {
            assert forall|j: int| 0 <= j < self.permission_entries().len() implies #[trigger] self.permission_entries()[j].0 != id@ by {
                assert(self.permission_entries()[j].0 == self.permissions@[j].id@);
            }
            lemma_map_of_absent(self.permission_entries(), id@);
        }
        None
    }

    /// Adds a permission under a fresh random identifier, which it returns.
    pub fn create_permission(&mut self, name: String, description: String, resource: String, action: String) -> (r: Result<String, AppError>)
        requires
            old(self).wf(),
        ensures
            final(self).wf(),
            final(self).config_view() == old(self).config_view(),
            final(self).roles_view() == old(self).roles_view(),
            final(self).users_view() == old(self).users_view(),
            r is Ok,
            match r {
                Ok(id) => final(self).permissions_view() == old(self).permissions_view().insert(id@, PermissionView {
                    id: id@,
                    name: name@,
                    description: description@,
                    resource: resource@,
                    action: action@,
                }),
                Err(_) => false,
            },
    {
        let id = new_uuid();
        let permission = Permission { id: id.clone(), name, description, resource, action };
        let ghost old_entries = self.permission_entries();
        let ghost pv = permission@;
        let found = self.find_permission(id.as_str());
        match found {
            Some(k) => {
                self.permissions.set(k, permission);
                proof {
                    assert(old_entries[k as int].0 == id@);
                    assert(self.permission_entries() =~= old_entries.update(k as int, (old_entries[k as int].0, pv)));
                    lemma_map_of_update(old_entries, k as int, pv);
                }
            },
            None => {
                self.permissions.push(permission);
                proof {
                    assert(self.permission_entries() =~= old_entries.push((id@, pv)));
                    if has_key(old_entries, id@) {
                        let j = choose|j: int| 0 <= j < old_entries.len() && old_entries[j].0 == id@;
                        lemma_map_of_index(old_entries, j);
                    }
                    lemma_map_of_push(old_entries, id@, pv);
                }
            },
        }
        Ok(id)
    }

    /// All permissions, one per identifier.
    pub fn list_permissions(&self) -> (r: Vec<Permission>)
        requires
            self.wf(),
        ensures
            lists_map(r@.map_values(|x: Permission| x.id@), r@.map_values(|x: Permission| x@), self.permissions_view()),
    {
        let mut out: Vec<Permission> = Vec::new();
        let mut i: usize = 0;
        while i < self.permissions.len()
            invariant
                i <= self.permissions@.len(),
                out@.len() == i,
                forall|j: int| 0 <= j < i ==> #[trigger] out@[j]@ == self.permissions@[j]@,
            decreases self.permissions.len() - i,
        {
            out.push(self.permissions[i].clone());
            i = i + 1;
        }
        proof {
            self.lemma_tables();
            let ks = out@.map_values(|x: Permission| x.id@);
            let vs = out@.map_values(|x: Permission| x@);
            let es = self.permission_entries();
            assert forall|a: int, b: int| 0 <= a < ks.len() && 0 <= b < ks.len() && a != b implies ks[a] != ks[b] by {
                assert(out@[a]@ == self.permissions@[a]@ && out@[b]@ == self.permissions@[b]@);
                assert(es[a].0 == ks[a] && es[b].0 == ks[b]);
            }
            assert forall|a: int| 0 <= a < ks.len() implies #[trigger] self.permissions_view().dom().contains(ks[a]) && self.permissions_view()[ks[a]] == vs[a] by {
                assert(out@[a]@ == self.permissions@[a]@);
                lemma_map_of_index(es, a);
            }
            assert forall|k: Seq<char>| #[trigger] self.permissions_view().dom().contains(k) implies ks.contains(k) by {
                let a = choose|a: int| 0 <= a < es.len() && es[a].0 == k;
                assert(out@[a]@ == self.permissions@[a]@);
                assert(ks[a] == k);
            }
        }
        out
    }

    /// The name of each role and the number of users that hold it, by role identifier.
    pub open spec fn role_stats_view(&self) -> Map<Seq<char>, (Seq<char>, nat)> {
        Map::new(
            |k: Seq<char>| self.roles_view().dom().contains(k),
            |k: Seq<char>| (self.roles_view()[k].name, count_where(self.users_view(), holds_role(k))),
        )
    }

    fn count_holders(&self, role_id: &str) -> (n: usize)
        requires
            self.wf(),
        ensures
            n == count_where(self.users_view(), holds_role(role_id@)),
    {
        let ghost es = self.user_entries();
        let ghost pr = value_pred::<Seq<char>, UserView>(holds_role(role_id@));
        let mut n: usize = 0;
        let mut j: usize = 0;
        proof {
            assert(es.take(0).filter(pr) =~= Seq::<(Seq<char>, UserView)>::empty()) by {
                reveal(Seq::filter);
            }
        }
        while j < self.users.len()
            invariant
                j <= self.users@.len(),
                es == self.user_entries(),
                pr == value_pred::<Seq<char>, UserView>(holds_role(role_id@)),
                es.len() == self.users@.len(),
                n == es.take(j as int).filter(pr).len(),
                n <= j,
            decreases self.users.len() - j,
        {
            proof {
                assert(es.take(j + 1) =~= es.take(j as int).push(es[j as int]));
                es.take(j as int).lemma_filter_push(es[j as int], pr);
                assert(es[j as int].1.role_id == self.users@[j as int].role_id@);
                assert(pr(es[j as int]) == (self.users@[j as int].role_id@ == role_id@));
            }
            if str_eq(self.users[j].role_id.as_str(), role_id) {
                n = n + 1;
            }
            j = j + 1;
        }
        proof {
            assert(es.take(es.len() as int) =~= es);
            lemma_count_where(es, holds_role(role_id@));
        }
        n
    }

    /// How many roles, users and permissions there are, and for each role its name and
    /// the number of users that hold it.
    pub fn get_stats(&self) -> (r: RbacStats)
        requires
            self.wf(),
        ensures
            r.total_roles == self.roles_view().len(),
            r.total_users == self.users_view().len(),
            r.total_permissions == self.permissions_view().len(),
            lists_map(
                r.roles@.map_values(|x: RoleStats| x.id@),
                r.roles@.map_values(|x: RoleStats| (x.name@, x.user_count as nat)),
                self.role_stats_view(),
            ),
    {
        proof {
            self.lemma_tables();
        }
        let mut out: Vec<RoleStats> = Vec::new();
        let mut i: usize = 0;
        while i < self.roles.len()
            invariant
                i <= self.roles@.len(),
                self.wf(),
                out@.len() == i,
                forall|j: int| 0 <= j < i ==> (#[trigger] out@[j]).id@ == self.roles@[j].id@
                    && out@[j].name@ == self.roles@[j].name@
                    && out@[j].user_count == count_where(self.users_view(), holds_role(self.roles@[j].id@)),
            decreases self.roles.len() - i,
        {
            let n = self.count_holders(self.roles[i].id.as_str());
            out.push(RoleStats { id: self.roles[i].id.clone(), name: self.roles[i].name.clone(), user_count: n });
            i = i + 1;
        }
        proof {
            let m = self.role_stats_view();
            let ks = out@.map_values(|x: RoleStats| x.id@);
            let vs = out@.map_values(|x: RoleStats| (x.name@, x.user_count as nat));
            let es = self.role_entries();
            assert(m.dom() =~= self.roles_view().dom());
            assert forall|a: int, b: int| 0 <= a < ks.len() && 0 <= b < ks.len() && a != b implies ks[a] != ks[b] by {
                assert(out@[a].id@ == self.roles@[a].id@ && out@[b].id@ == self.roles@[b].id@);
                assert(es[a].0 == ks[a] && es[b].0 == ks[b]);
            }
            assert forall|a: int| 0 <= a < ks.len() implies #[trigger] m.dom().contains(ks[a]) && m[ks[a]] == vs[a] by {
                assert(out@[a].id@ == self.roles@[a].id@);
                lemma_map_of_index(es, a);
            }
            assert forall|k: Seq<char>| #[trigger] m.dom().contains(k) implies ks.contains(k) by {
                let a = choose|a: int| 0 <= a < es.len() && es[a].0 == k;
                assert(out@[a].id@ == self.roles@[a].id@);
                assert(ks[a] == k);
            }
        }
        RbacStats {
            total_roles: self.roles.len(),
            total_users: self.users.len(),
            total_permissions: self.permissions.len(),
            roles: out,
        }
    }
}

/// Whether a user holds the role `id`.
pub open spec fn holds_role(id: Seq<char>) -> spec_fn(UserView) -> bool {
    |u: UserView| u.role_id == id
}

/// A role that `create_role` added is found under the identifier it returned, with the
/// name, description and permissions it was given.
pub proof fn law_created_role_is_found(
    roles: Map<Seq<char>, RoleView>,
    max: usize,
    id: Seq<char>,
    t: i64,
    name: Seq<char>,
    description: Seq<char>,
    permissions: Seq<Seq<char>>,
)
    requires
        roles.dom().finite(),
        roles.len() < max,
    ensures
        after_create_role(roles, max, id, t, name, description, permissions).dom().contains(id),
        after_create_role(roles, max, id, t, name, description, permissions)[id]
            == new_role(id, name, description, permissions, t),
{
}

/// The role table never grows past `max_roles`: creating a role into a table within the
/// limit leaves it within the limit.
pub proof fn law_role_limit_kept(
    roles: Map<Seq<char>, RoleView>,
    max: usize,
    id: Seq<char>,
    t: i64,
    name: Seq<char>,
    description: Seq<char>,
    permissions: Seq<Seq<char>>,
)
    requires
        roles.dom().finite(),
        roles.len() <= max,
    ensures
        after_create_role(roles, max, id, t, name, description, permissions).dom().finite(),
        after_create_role(roles, max, id, t, name, description, permissions).len() <= max,
{
    if roles.len() < max {
        if roles.dom().contains(id) {
            assert(roles.insert(id, new_role(id, name, description, permissions, t)).dom() =~= roles.dom());
        }
    }
}

/// After a deletion the identifier is gone and every other entry is as it was.
pub proof fn law_deleted_entry_is_gone<V>(m: Map<Seq<char>, V>, id: Seq<char>, other: Seq<char>)
    requires
        other != id,
    ensures
        !m.remove(id).dom().contains(id),
        m.remove(id).dom().contains(other) == m.dom().contains(other),
        m.dom().contains(other) ==> m.remove(id)[other] == m[other],
{
}

/// A role holding the wildcard `*` grants every permission.
pub proof fn law_wildcard_grants_all(perms: Seq<Seq<char>>, permission: Seq<char>)
    requires
        perms.contains("*"@),
    ensures
        grants(perms, permission),
{
}

/// A role grants exactly the permissions it lists, when it does not list the wildcard.
pub proof fn law_grants_listed_only(perms: Seq<Seq<char>>, permission: Seq<char>)
    requires
        !perms.contains("*"@),
    ensures
        grants(perms, permission) == perms.contains(permission),
{
}

/// Once a user's role is changed, its permissions are those of the new role.
pub proof fn law_role_change_takes_effect(
    roles: Map<Seq<char>, RoleView>,
    users: Map<Seq<char>, UserView>,
    user_id: Seq<char>,
    role_id: Seq<char>,
    permission: Seq<char>,
)
    requires
        users.dom().contains(user_id),
        roles.dom().contains(role_id),
    ensures
        ({
            let after = users.insert(user_id, UserView { role_id: role_id, ..users[user_id] });
            &&& after.dom().contains(user_id)
            &&& roles.dom().contains(after[user_id].role_id)
            &&& grants(roles[after[user_id].role_id].permissions, permission)
                == grants(roles[role_id].permissions, permission)
        }),
{
}

/// A system made with the default roles holds `admin`, `editor` and `viewer` with their
/// permission lists, when there is room for three roles and the three random
/// identifiers differ.
pub proof fn law_default_roles(
    max: usize,
    a: Seq<char>,
    ta: i64,
    e: Seq<char>,
    te: i64,
    v: Seq<char>,
    tv: i64,
)
    requires
        max >= 3,
        a != e,
        a != v,
        e != v,
    ensures
        ({
            let m = after_default_roles(Map::empty(), max, a, ta, e, te, v, tv);
            &&& m.dom().len() == 3
            &&& m.dom().contains(a) && m[a].name == "admin"@ && m[a].permissions == admin_permissions()
            &&& m.dom().contains(e) && m[e].name == "editor"@ && m[e].permissions == editor_permissions()
            &&& m.dom().contains(v) && m[v].name == "viewer"@ && m[v].permissions == viewer_permissions()
        }),
{
    let m0 = Map::<Seq<char>, RoleView>::empty();
    let m1 = m0.insert(a, new_role(a, "admin"@, "System Administrator"@, admin_permissions(), ta));
    assert(m0.dom().len() == 0);
    assert(m1.dom() =~= set![a]);
    let m2 = m1.insert(e, new_role(e, "editor"@, "Content Editor"@, editor_permissions(), te));
    assert(m2.dom() =~= set![a, e]);
    let m3 = m2.insert(v, new_role(v, "viewer"@, "Read-only Viewer"@, viewer_permissions(), tv));
    assert(m3.dom() =~= set![a, e, v]);
    assert(set![a, e].len() == 2) by {
        assert(set![a].len() == 1);
    }
    assert(m1.len() == 1);
    assert(m2.len() == 2);
    assert(m3.len() == 3) by {
        assert(set![a, e, v] =~= set![a, e].insert(v));
    }
}

} // verus!
