//! Accounts with hashed passwords, and login sessions that expire a day after they start.

use vstd::prelude::*;
use crate::clock::{new_uuid, now_timestamp, MAX_TIMESTAMP};
use crate::error::AppError;
use crate::keyed::{
    has_key, lemma_map_of_absent, lemma_map_of_empty, lemma_map_of_filter, lemma_map_of_index,
    lemma_map_of_push, lemma_map_of_remove, lemma_map_of_update, map_of, restrict_where, unique_keys,
};
use crate::text::{concat3, str_eq, str_to_string};

verus! {

/// The lower-case hexadecimal SHA-256 digest of the UTF-8 bytes of a password.
pub uninterp spec fn sha256_hex(password: Seq<char>) -> Seq<char>;

/// SHA-256 of the password's bytes (sha2's `Sha256`), rendered with `{:x}`. Its result
/// is named `sha256_hex` of the password; nothing more is claimed of it.
#[verifier::external_body]
fn hash_password(password: &str) -> (r: String)
    ensures
        r@ == sha256_hex(password@),
{
    let mut hasher = <sha2::Sha256 as sha2::Digest>::new();
    sha2::Digest::update(&mut hasher, password.as_bytes());
    format!("{:x}", sha2::Digest::finalize(hasher))
}

/// Whether `password` hashes to `hash`.
pub fn verify_password(password: &str, hash: &str) -> (r: bool)
    ensures
        r == (sha256_hex(password@) == hash@),
{
    let h = hash_password(password);
    str_eq(h.as_str(), hash)
}

/// An account.
#[derive(Debug)]
pub struct User {
    pub id: String,
    pub username: String,
    pub password_hash: String,
    pub role: String,
    pub created_at: i64,
}

/// The value of an account.
pub struct UserView {
    pub id: Seq<char>,
    pub username: Seq<char>,
    pub password_hash: Seq<char>,
    pub role: Seq<char>,
    pub created_at: i64,
}

impl View for User {
    type V = UserView;

    open spec fn view(&self) -> UserView {
        UserView {
            id: self.id@,
            username: self.username@,
            password_hash: self.password_hash@,
            role: self.role@,
            created_at: self.created_at,
        }
    }
}

impl Clone for User {
    fn clone(&self) -> (r: Self)
        ensures
            r@ == self@,
    {
        User {
            id: self.id.clone(),
            username: self.username.clone(),
            password_hash: self.password_hash.clone(),
            role: self.role.clone(),
            created_at: self.created_at,
        }
    }
}

/// A login session.
#[derive(Debug)]
pub struct Session {
    pub token: String,
    pub user_id: String,
    pub username: String,
    pub created_at: i64,
    pub expires_at: i64,
}

/// The value of a session.
pub struct SessionView {
    pub token: Seq<char>,
    pub user_id: Seq<char>,
    pub username: Seq<char>,
    pub created_at: i64,
    pub expires_at: i64,
}

impl View for Session {
    type V = SessionView;

    open spec fn view(&self) -> SessionView {
        SessionView {
            token: self.token@,
            user_id: self.user_id@,
            username: self.username@,
            created_at: self.created_at,
            expires_at: self.expires_at,
        }
    }
}

impl Clone for Session {
    fn clone(&self) -> (r: Self)
        ensures
            r@ == self@,
    {
        Session {
            token: self.token.clone(),
            user_id: self.user_id.clone(),
            username: self.username.clone(),
            created_at: self.created_at,
            expires_at: self.expires_at,
        }
    }
}

/// A login attempt.
#[derive(Debug)]
pub struct LoginRequest {
    pub username: String,
    pub password: String,
}

/// How long a session lasts, in seconds.
pub const SESSION_SECONDS: i64 = 86400;

/// Whether `password` opens the account `username`.
pub open spec fn login_accepted(users: Map<Seq<char>, UserView>, username: Seq<char>, password: Seq<char>) -> bool {
    users.dom().contains(username) && sha256_hex(password) == users[username].password_hash
}

/// A session of `user` that started at `t` under `token`.
pub open spec fn session_of(user: UserView, token: Seq<char>, t: i64) -> SessionView {
    SessionView {
        token,
        user_id: user.id,
        username: user.username,
        created_at: t,
        expires_at: (t + SESSION_SECONDS) as i64,
    }
}

/// A session is kept while it has not expired by `now`.
pub open spec fn unexpired(now: i64) -> spec_fn(SessionView) -> bool {
    |s: SessionView| s.expires_at > now
}

/// The message of a missing account.
pub open spec fn auth_user_not_found(username: Seq<char>) -> Seq<char> {
    "User "@ + username + " not found"@
}

/// Accounts by user name and sessions by token.
pub struct AuthManager {
    users: Vec<User>,
    sessions: Vec<Session>,
}

impl AuthManager {
    pub closed spec fn user_entries(&self) -> Seq<(Seq<char>, UserView)> {
        self.users@.map_values(|u: User| (u.username@, u@))
    }

    pub closed spec fn session_entries(&self) -> Seq<(Seq<char>, SessionView)> {
        self.sessions@.map_values(|s: Session| (s.token@, s@))
    }

    /// The accounts, by user name.
    pub closed spec fn users_view(&self) -> Map<Seq<char>, UserView> {
        map_of(self.user_entries())
    }

    /// The sessions, by token.
    pub closed spec fn sessions_view(&self) -> Map<Seq<char>, SessionView> {
        map_of(self.session_entries())
    }

    /// Each user name and each token is held once.
    pub closed spec fn wf(&self) -> bool {
        unique_keys(self.user_entries()) && unique_keys(self.session_entries())
    }

    /// The built-in account: user `admin` with password `admin`.
    pub open spec fn is_initial_admin(u: UserView) -> bool {
        &&& u.id == "admin"@
        &&& u.username == "admin"@
        &&& u.password_hash == sha256_hex("admin"@)
        &&& u.role == "admin"@
    }

    /// A manager with only the built-in `admin` account and no sessions.
    pub fn new() -> (r: Self)
        ensures
            r.wf(),
            r.users_view().dom() == set!["admin"@],
            Self::is_initial_admin(r.users_view()["admin"@]),
            r.sessions_view() == Map::<Seq<char>, SessionView>::empty(),
    {
        let now = now_timestamp();
        let admin = User {
            id: str_to_string("admin"),
            username: str_to_string("admin"),
            password_hash: hash_password("admin"),
            role: str_to_string("admin"),
            created_at: now,
        };
        let mut users: Vec<User> = Vec::new();
        users.push(admin);
        let r = AuthManager { users, sessions: Vec::new() };
        proof {
            assert(r.user_entries() =~= seq![("admin"@, r.users@[0]@)]);
            lemma_map_of_index(r.user_entries(), 0);
            assert forall|k: Seq<char>| r.users_view().dom().contains(k) == set!["admin"@].contains(k) by {
                if has_key(r.user_entries(), k) {
                    let i = choose|i: int| 0 <= i < r.user_entries().len() && r.user_entries()[i].0 == k;
                    assert(i == 0);
                }
            }
            assert(r.users_view().dom() =~= set!["admin"@]);
            lemma_map_of_empty(r.session_entries());
        }
        r
    }

    fn find_user(&self, username: &str) -> (r: Option<usize>)
        requires
            self.wf(),
        ensures
            match r {
                Some(i) => i < self.users@.len() && self.users@[i as int].username@ == username@
                    && self.users_view().dom().contains(username@)
                    && self.users_view()[username@] == self.users@[i as int]@,
                None => !self.users_view().dom().contains(username@),
            },
    {
        let mut i: usize = 0;
        while i < self.users.len()
            invariant
                i <= self.users@.len(),
                self.wf(),
                forall|j: int| 0 <= j < i ==> #[trigger] self.users@[j].username@ != username@,
            decreases self.users.len() - i,
        {
            if str_eq(self.users[i].username.as_str(), username) {
                proof {
                    lemma_map_of_index(self.user_entries(), i as int);
                }
                return Some(i);
            }
            i = i + 1;
        }
        proof {
            assert forall|j: int| 0 <= j < self.user_entries().len() implies #[trigger] self.user_entries()[j].0 != username@ by {
                assert(self.user_entries()[j].0 == self.users@[j].username@);
            }
            lemma_map_of_absent(self.user_entries(), username@);
        }
        None
    }

    fn find_session(&self, token: &str) -> (r: Option<usize>)
        requires
            self.wf(),
        ensures
            match r {
                Some(i) => i < self.sessions@.len() && self.sessions@[i as int].token@ == token@
                    && self.sessions_view().dom().contains(token@)
                    && self.sessions_view()[token@] == self.sessions@[i as int]@,
                None => !self.sessions_view().dom().contains(token@),
            },
    {
        let mut i: usize = 0;
        while i < self.sessions.len()
            invariant
                i <= self.sessions@.len(),
                self.wf(),
                forall|j: int| 0 <= j < i ==> #[trigger] self.sessions@[j].token@ != token@,
            decreases self.sessions.len() - i,
        {
            if str_eq(self.sessions[i].token.as_str(), token) {
                proof {
                    lemma_map_of_index(self.session_entries(), i as int);
                }
                return Some(i);
            }
            i = i + 1;
        }
        proof {
            assert forall|j: int| 0 <= j < self.session_entries().len() implies #[trigger] self.session_entries()[j].0 != token@ by {
                assert(self.session_entries()[j].0 == self.sessions@[j].token@);
            }
            lemma_map_of_absent(self.session_entries(), token@);
        }
        None
    }

    fn put_session(&mut self, s: Session)
        requires
            old(self).wf(),
        ensures
            final(self).wf(),
            final(self).users_view() == old(self).users_view(),
            final(self).sessions_view() == old(self).sessions_view().insert(s.token@, s@),
    {
        let ghost old_entries = self.session_entries();
        let ghost sv = s@;
        let ghost key = s.token@;
        match self.find_session(s.token.as_str()) {
            Some(i) => {
                self.sessions.set(i, s);
                proof {
                    assert(self.session_entries() =~= old_entries.update(i as int, (old_entries[i as int].0, sv)));
                    lemma_map_of_update(old_entries, i as int, sv);
                }
            },
            None => {
                self.sessions.push(s);
                proof {
                    assert(self.session_entries() =~= old_entries.push((key, sv)));
                    if has_key(old_entries, key) {
                        let j = choose|j: int| 0 <= j < old_entries.len() && old_entries[j].0 == key;
                        lemma_map_of_index(old_entries, j);
                    }
                    lemma_map_of_push(old_entries, key, sv);
                }
            },
        }
        assert(self.user_entries() =~= old(self).user_entries());
    }

    /// Opens a session for a user whose password matches, under a fresh random token,
    /// lasting one day; `Auth` otherwise, with the same message for an unknown user and a
    /// wrong password.
    pub fn login(&mut self, req: LoginRequest) -> (r: Result<Session, AppError>)
        requires
            old(self).wf(),
        ensures
            final(self).wf(),
            final(self).users_view() == old(self).users_view(),
            r is Ok <==> login_accepted(old(self).users_view(), req.username@, req.password@),
            match r {
                Ok(s) => s@ == session_of(old(self).users_view()[req.username@], s.token@, s.created_at)
                    && final(self).sessions_view() == old(self).sessions_view().insert(s.token@, s@),
                Err(e) => e is Auth && e.message() == "Invalid username or password"@
                    && final(self).sessions_view() == old(self).sessions_view(),
            },
    {
        let i = match self.find_user(req.username.as_str()) {
            Some(i) => i,
            None => return Err(AppError::Auth(str_to_string("Invalid username or password"))),
        };
        if !verify_password(req.password.as_str(), self.users[i].password_hash.as_str()) {
            return Err(AppError::Auth(str_to_string("Invalid username or password")));
        }
        let now = now_timestamp();
        let token = new_uuid();
        let session = Session {
            token,
            user_id: self.users[i].id.clone(),
            username: self.users[i].username.clone(),
            created_at: now,
            expires_at: now + SESSION_SECONDS,
        };
        let out = session.clone();
        self.put_session(session);
        Ok(out)
    }

    /// Ends the session `token`; whether there was one.
    pub fn logout(&mut self, token: &str) -> (r: Result<bool, AppError>)
        requires
            old(self).wf(),
        ensures
            final(self).wf(),
            final(self).users_view() == old(self).users_view(),
            r == Ok::<bool, AppError>(old(self).sessions_view().dom().contains(token@)),
            final(self).sessions_view() == old(self).sessions_view().remove(token@),
    {
        match self.find_session(token) {
            Some(i) => {
                let ghost old_entries = self.session_entries();
                self.sessions.remove(i);
                proof {
                    assert(self.session_entries() =~= old_entries.remove(i as int));
                    lemma_map_of_remove(old_entries, i as int);
                    assert(self.user_entries() =~= old(self).user_entries());
                }
                Ok(true)
            },
            None => {
                assert(self.sessions_view().remove(token@) =~= self.sessions_view());
                Ok(false)
            },
        }
    }

    /// The session `token` as of the clock reading `now`: `Auth` when there is none, or
    /// when it expired before `now`.
    pub fn validate_token_at(&self, token: &str, now: i64) -> (r: Result<Session, AppError>)
        requires
            self.wf(),
        ensures
            r is Ok <==> self.sessions_view().dom().contains(token@) && !(self.sessions_view()[token@].expires_at < now),
            match r {
                Ok(s) => s@ == self.sessions_view()[token@],
                Err(e) => e is Auth && e.message() == if !self.sessions_view().dom().contains(token@) {
                    "Invalid or expired token"@
                } else {
                    "Token expired"@
                },
            },
    {
        match self.find_session(token) {
            None => Err(AppError::Auth(str_to_string("Invalid or expired token"))),
            Some(i) => {
                if self.sessions[i].expires_at < now {
                    Err(AppError::Auth(str_to_string("Token expired")))
                } else {
                    Ok(self.sessions[i].clone())
                }
            },
        }
    }

    /// The session `token` as of now by the clock.
    pub fn validate_token(&self, token: &str) -> (r: Result<Session, AppError>)
        requires
            self.wf(),
        ensures
            !self.sessions_view().dom().contains(token@) ==> r is Err,
            match r {
                Ok(s) => self.sessions_view().dom().contains(token@) && s@ == self.sessions_view()[token@],
                Err(e) => e is Auth,
            },
    {
        let now = now_timestamp();
        self.validate_token_at(token, now)
    }

    /// Adds an account with a fresh random identifier; `InvalidInput` when the user name
    /// is taken.
    pub fn create_user(&mut self, username: &str, password: &str, role: &str) -> (r: Result<User, AppError>)
        requires
            old(self).wf(),
        ensures
            final(self).wf(),
            final(self).sessions_view() == old(self).sessions_view(),
            r is Ok <==> !old(self).users_view().dom().contains(username@),
            match r {
                Ok(u) => u.username@ == username@ && u.password_hash@ == sha256_hex(password@) && u.role@ == role@
                    && final(self).users_view() == old(self).users_view().insert(username@, u@),
                Err(e) => e is InvalidInput && e.message() == "User "@ + username@ + " already exists"@
                    && final(self).users_view() == old(self).users_view(),
            },
    {
        if self.find_user(username).is_some() {
            return Err(AppError::InvalidInput(concat3("User ", username, " already exists")));
        }
        let now = now_timestamp();
        let user = User {
            id: new_uuid(),
            username: str_to_string(username),
            password_hash: hash_password(password),
            role: str_to_string(role),
            created_at: now,
        };
        let out = user.clone();
        let ghost old_entries = self.user_entries();
        let ghost uv = user@;
        self.users.push(user);
        proof {
            assert(self.user_entries() =~= old_entries.push((username@, uv)));
            lemma_map_of_push(old_entries, username@, uv);
            assert(self.session_entries() =~= old(self).session_entries());
        }
        Ok(out)
    }

    /// The account `username`, if any.
    pub fn get_user(&self, username: &str) -> (r: Option<User>)
        requires
            self.wf(),
        ensures
            match r {
                Some(u) => self.users_view().dom().contains(username@) && u@ == self.users_view()[username@],
                None => !self.users_view().dom().contains(username@),
            },
    {
        match self.find_user(username) {
            Some(i) => Some(self.users[i].clone()),
            None => None,
        }
    }

    /// All accounts, one per user name.
    pub fn list_users(&self) -> (r: Vec<User>)
        requires
            self.wf(),
        ensures
            crate::rbac::lists_map(r@.map_values(|x: User| x.username@), r@.map_values(|x: User| x@), self.users_view()),
    {
        let mut out: Vec<User> = Vec::new();
        let mut i: usize = 0;
        while i < self.users.len()
            invariant
                i <= self.users@.len(),
                out@.len() == i,
                forall|j: int| 0 <= j < i ==> #[trigger] out@[j]@ == self.users@[j]@,
            decreases self.users.len() - i,
        {
            out.push(self.users[i].clone());
            i = i + 1;
        }
        proof {
            crate::keyed::lemma_map_of_len(self.user_entries());
            let ks = out@.map_values(|x: User| x.username@);
            let vs = out@.map_values(|x: User| x@);
            let es = self.user_entries();
            assert forall|a: int, b: int| 0 <= a < ks.len() && 0 <= b < ks.len() && a != b implies ks[a] != ks[b] by {
                assert(out@[a]@ == self.users@[a]@ && out@[b]@ == self.users@[b]@);
                assert(es[a].0 == ks[a] && es[b].0 == ks[b]);
            }
            assert forall|a: int| 0 <= a < ks.len() implies #[trigger] self.users_view().dom().contains(ks[a]) && self.users_view()[ks[a]] == vs[a] by {
                assert(out@[a]@ == self.users@[a]@);
                lemma_map_of_index(es, a);
            }
            assert forall|k: Seq<char>| #[trigger] self.users_view().dom().contains(k) implies ks.contains(k) by {
                let a = choose|a: int| 0 <= a < es.len() && es[a].0 == k;
                assert(out@[a]@ == self.users@[a]@);
                assert(ks[a] == k);
            }
        }
        out
    }

    /// Removes the account `username`, whether there was one; the `admin` account cannot
    /// be removed (`InvalidInput`).
    pub fn delete_user(&mut self, username: &str) -> (r: Result<bool, AppError>)
        requires
            old(self).wf(),
        ensures
            final(self).wf(),
            final(self).sessions_view() == old(self).sessions_view(),
            r is Err <==> username@ == "admin"@,
            match r {
                Ok(b) => b == old(self).users_view().dom().contains(username@)
                    && final(self).users_view() == old(self).users_view().remove(username@),
                Err(e) => e is InvalidInput && e.message() == "Cannot delete admin user"@
                    && final(self).users_view() == old(self).users_view(),
            },
    {
        if str_eq(username, "admin") {
            return Err(AppError::InvalidInput(str_to_string("Cannot delete admin user")));
        }
        match self.find_user(username) {
            Some(i) => {
                let ghost old_entries = self.user_entries();
                self.users.remove(i);
                proof {
                    assert(self.user_entries() =~= old_entries.remove(i as int));
                    lemma_map_of_remove(old_entries, i as int);
                    assert(self.session_entries() =~= old(self).session_entries());
                }
                Ok(true)
            },
            None => {
                assert(self.users_view().remove(username@) =~= self.users_view());
                Ok(false)
            },
        }
    }

    /// Sets a new password for `username`; `NotFound` when there is no such account.
    pub fn change_password(&mut self, username: &str, new_password: &str) -> (r: Result<bool, AppError>)
        requires
            old(self).wf(),
        ensures
            final(self).wf(),
            final(self).sessions_view() == old(self).sessions_view(),
            r is Ok <==> old(self).users_view().dom().contains(username@),
            match r {
                Ok(b) => b && final(self).users_view() == old(self).users_view().insert(
                    username@,
                    UserView { password_hash: sha256_hex(new_password@), ..old(self).users_view()[username@] },
                ),
                Err(e) => e is NotFound && e.message() == auth_user_not_found(username@)
                    && final(self).users_view() == old(self).users_view(),
            },
    {
        match self.find_user(username) {
            Some(i) => {
                let ghost old_entries = self.user_entries();
                let mut u = self.users[i].clone();
                u.password_hash = hash_password(new_password);
                let ghost uv = u@;
                self.users.set(i, u);
                proof {
                    assert(self.user_entries() =~= old_entries.update(i as int, (old_entries[i as int].0, uv)));
                    lemma_map_of_update(old_entries, i as int, uv);
                    assert(self.session_entries() =~= old(self).session_entries());
                }
                Ok(true)
            },
            None => Err(AppError::NotFound(concat3("User ", username, " not found"))),
        }
    }

    /// Drops the sessions that have expired by the clock reading `now`.
    pub fn cleanup_expired_sessions_at(&mut self, now: i64)
        requires
            old(self).wf(),
        ensures
            final(self).wf(),
            final(self).users_view() == old(self).users_view(),
            final(self).sessions_view() == restrict_where(old(self).sessions_view(), unexpired(now)),
    {
        let ghost es = self.session_entries();
        let ghost p = unexpired(now);
        let mut kept: Vec<Session> = Vec::new();
        let mut i: usize = 0;
        proof {
            assert(es.take(0).filter(crate::keyed::value_pred(p)) =~= Seq::<(Seq<char>, SessionView)>::empty()) by {
                reveal(Seq::filter);
            }
            assert(kept@.map_values(|x: Session| (x.token@, x@)) =~= Seq::<(Seq<char>, SessionView)>::empty());
        }
        while i < self.sessions.len()
            invariant
                i <= self.sessions@.len(),
                es == self.session_entries(),
                p == unexpired(now),
                kept@.map_values(|x: Session| (x.token@, x@)) == es.take(i as int).filter(crate::keyed::value_pred(p)),
            decreases self.sessions.len() - i,
        {
            let ghost before = kept@;
            proof {
                assert(es.take(i + 1) =~= es.take(i as int).push(es[i as int]));
                es.take(i as int).lemma_filter_push(es[i as int], crate::keyed::value_pred(p));
                assert(es[i as int] == (self.sessions@[i as int].token@, self.sessions@[i as int]@));
            }
            if self.sessions[i].expires_at > now {
                let x = self.sessions[i].clone();
                kept.push(x);
                proof {
                    assert(kept@ == before.push(x));
                    assert(kept@.map_values(|x: Session| (x.token@, x@)) =~= before.map_values(|x: Session| (x.token@, x@)).push(es[i as int]));
                }
            }
            i = i + 1;
        }
        proof {
            assert(es.take(es.len() as int) =~= es);
            lemma_map_of_filter(es, p);
        }
        self.sessions = kept;
        assert(self.user_entries() =~= old(self).user_entries());
    }

    /// Drops the sessions that have expired by the clock.
    pub fn cleanup_expired_sessions(&mut self)
        requires
            old(self).wf(),
        ensures
            final(self).wf(),
            final(self).users_view() == old(self).users_view(),
            exists|now: i64| final(self).sessions_view() == #[trigger] restrict_where(old(self).sessions_view(), unexpired(now)),
    {
        let now = now_timestamp();
        self.cleanup_expired_sessions_at(now);
    }
}

/// An account made by `create_user` opens with the password it was made with.
pub proof fn law_login_after_create(users: Map<Seq<char>, UserView>, username: Seq<char>, password: Seq<char>, u: UserView)
    requires
        u.password_hash == sha256_hex(password),
    ensures
        login_accepted(users.insert(username, u), username, password),
{
}

/// After a password change the new password opens the account, and the old one does so
/// only if it hashes the same.
pub proof fn law_password_change(users: Map<Seq<char>, UserView>, username: Seq<char>, old_password: Seq<char>, new_password: Seq<char>)
    requires
        users.dom().contains(username),
    ensures
        ({
            let after = users.insert(username, UserView { password_hash: sha256_hex(new_password), ..users[username] });
            &&& login_accepted(after, username, new_password)
            &&& login_accepted(after, username, old_password) == (sha256_hex(old_password) == sha256_hex(new_password))
        }),
{
}

/// A session that was logged out no longer validates.
pub proof fn law_logout_invalidates(sessions: Map<Seq<char>, SessionView>, token: Seq<char>)
    ensures
        !sessions.remove(token).dom().contains(token),
{
}

/// A session validates until its expiry time and not after.
pub proof fn law_session_lifetime(user: UserView, token: Seq<char>, t: i64, now: i64)
    requires
        0 <= t < MAX_TIMESTAMP,
    ensures
        !(session_of(user, token, t).expires_at < now) <==> now <= t + SESSION_SECONDS,
        session_of(user, token, t).expires_at - session_of(user, token, t).created_at == SESSION_SECONDS,
{
}

} // verus!
