//! Users, roles and sessions: who is logged in and what they may do.
//!
//! Password checking is a placeholder: one fixed password opens every
//! active account.

use vstd::prelude::*;
use crate::error::{DreasError, DreasErrorView};
use crate::string_map::StringMap;
use crate::text::{clone_opt_text, clone_texts, contains_text, opt_text, text_views};
use crate::time::{current_time, Timestamp};
use crate::unique_id::{fresh_id, id_text};

verus! {

/// The seconds for which a session is good.
pub const SESSION_SECONDS: i64 = 86_400;

/// A user account.
#[derive(Debug)]
pub struct User {
    pub id: String,
    pub username: String,
    pub email: String,
    pub roles: Vec<String>,
    pub permissions: Vec<String>,
    pub created_at: Timestamp,
    pub last_login: Option<Timestamp>,
    pub is_active: bool,
}

/// The mathematical value of a [`User`].
pub struct UserView {
    pub id: Seq<char>,
    pub username: Seq<char>,
    pub email: Seq<char>,
    pub roles: Seq<Seq<char>>,
    pub permissions: Seq<Seq<char>>,
    pub created_at: Timestamp,
    pub last_login: Option<Timestamp>,
    pub is_active: bool,
}

impl View for User {
    type V = UserView;

    open spec fn view(&self) -> UserView {
        UserView {
            id: self.id@,
            username: self.username@,
            email: self.email@,
            roles: text_views(self.roles@),
            permissions: text_views(self.permissions@),
            created_at: self.created_at,
            last_login: self.last_login,
            is_active: self.is_active,
        }
    }
}

impl Clone for User {
    fn clone(&self) -> (r: Self)
        ensures
            r@ == self@,
    {
        User {
            id: self.id.clone(),
            username: self.username.clone(),
            email: self.email.clone(),
            roles: clone_texts(&self.roles),
            permissions: clone_texts(&self.permissions),
            created_at: self.created_at,
            last_login: self.last_login,
            is_active: self.is_active,
        }
    }
}

/// A named set of permissions.
#[derive(Debug)]
pub struct Role {
    pub name: String,
    pub permissions: Vec<String>,
    pub description: String,
    pub created_at: Timestamp,
}

/// The mathematical value of a [`Role`].
pub struct RoleView {
    pub name: Seq<char>,
    pub permissions: Seq<Seq<char>>,
    pub description: Seq<char>,
    pub created_at: Timestamp,
}

impl View for Role {
    type V = RoleView;

    open spec fn view(&self) -> RoleView {
        RoleView {
            name: self.name@,
            permissions: text_views(self.permissions@),
            description: self.description@,
            created_at: self.created_at,
        }
    }
}

impl Clone for Role {
    fn clone(&self) -> (r: Self)
        ensures
            r@ == self@,
    {
        Role {
            name: self.name.clone(),
            permissions: clone_texts(&self.permissions),
            description: self.description.clone(),
            created_at: self.created_at,
        }
    }
}

/// A login that is good until it expires.
#[derive(Debug)]
pub struct UserSession {
    pub session_id: String,
    pub user_id: String,
    pub created_at: Timestamp,
    pub expires_at: Timestamp,
    pub ip_address: Option<String>,
    pub user_agent: Option<String>,
}

/// The mathematical value of a [`UserSession`].
pub struct UserSessionView {
    pub session_id: Seq<char>,
    pub user_id: Seq<char>,
    pub created_at: Timestamp,
    pub expires_at: Timestamp,
    pub ip_address: Option<Seq<char>>,
    pub user_agent: Option<Seq<char>>,
}

impl View for UserSession {
    type V = UserSessionView;

    open spec fn view(&self) -> UserSessionView {
        UserSessionView {
            session_id: self.session_id@,
            user_id: self.user_id@,
            created_at: self.created_at,
            expires_at: self.expires_at,
            ip_address: opt_text(self.ip_address),
            user_agent: opt_text(self.user_agent),
        }
    }
}

impl Clone for UserSession {
    fn clone(&self) -> (r: Self)
        ensures
            r@ == self@,
    {
        UserSession {
            session_id: self.session_id.clone(),
            user_id: self.user_id.clone(),
            created_at: self.created_at,
            expires_at: self.expires_at,
            ip_address: clone_opt_text(&self.ip_address),
            user_agent: clone_opt_text(&self.user_agent),
        }
    }
}

/// How a login attempt ended.
#[derive(Debug)]
pub struct AuthResult {
    pub success: bool,
    pub user: Option<User>,
    pub session_id: Option<String>,
    pub error: Option<String>,
}

/// Whether a permission is granted, and why not.
#[derive(Debug)]
pub struct PermissionResult {
    pub allowed: bool,
    pub reason: Option<String>,
}

/// The mathematical value of a [`PermissionResult`].
pub struct PermissionView {
    pub allowed: bool,
    pub reason: Option<Seq<char>>,
}

impl View for PermissionResult {
    type V = PermissionView;

    open spec fn view(&self) -> PermissionView {
        PermissionView { allowed: self.allowed, reason: opt_text(self.reason) }
    }
}

/// The instant at which a session that starts at `now` expires: one day
/// later, or the last second of the time line where that lies beyond it.
pub open spec fn session_expiry(now: Timestamp) -> Timestamp {
    Timestamp {
        secs: if now.secs + SESSION_SECONDS > i64::MAX {
            i64::MAX
        } else {
            (now.secs + SESSION_SECONDS) as i64
        },
        nanos: now.nanos,
    }
}

/// The session that a login at `now` opens.
pub open spec fn opened_session(session_id: Seq<char>, user_id: Seq<char>, now: Timestamp)
    -> UserSessionView {
    UserSessionView {
        session_id,
        user_id,
        created_at: now,
        expires_at: session_expiry(now),
        ip_address: None,
        user_agent: None,
    }
}

/// The users after a login at `now` for the id `user_id`: the user who is
/// stored under that id, if there is one, gets the login's time.
pub open spec fn stamped_users(users: Map<Seq<char>, UserView>, user_id: Seq<char>, now: Timestamp)
    -> Map<Seq<char>, UserView> {
    if users.contains_key(user_id) {
        users.insert(user_id, UserView { last_login: Some(now), ..users[user_id] })
    } else {
        users
    }
}

/// Whether the placeholder check accepts this login: the account exists,
/// is active, and the password is the fixed one.
pub open spec fn login_accepted(
    users: Map<Seq<char>, UserView>,
    username: Seq<char>,
    password: Seq<char>,
) -> bool {
    users.contains_key(username) && users[username].is_active && password == "password123"@
}

/// Whether one of the user's roles is defined and grants `permission`.
pub open spec fn role_grants(
    user_roles: Seq<Seq<char>>,
    roles: Map<Seq<char>, RoleView>,
    permission: Seq<char>,
) -> bool {
    exists|i: int|
        0 <= i < user_roles.len() && roles.contains_key(#[trigger] user_roles[i])
            && roles[user_roles[i]].permissions.contains(permission)
}

/// What a permission check at `now` answers. An unknown session, or a
/// session whose user is not stored under the session's user id, is an
/// authentication error. An expired session or an inactive account is
/// refused with its reason; otherwise the permission is granted if the
/// user holds it directly or through a role.
pub open spec fn permission_outcome(
    users: Map<Seq<char>, UserView>,
    roles: Map<Seq<char>, RoleView>,
    sessions: Map<Seq<char>, UserSessionView>,
    session_id: Seq<char>,
    permission: Seq<char>,
    now: Timestamp,
) -> Result<PermissionView, DreasErrorView> {
    if !sessions.contains_key(session_id) {
        Err(DreasErrorView::Authentication("Invalid session"@))
    } else if sessions[session_id].expires_at.lt(now) {
        Ok(PermissionView { allowed: false, reason: Some("Session expired"@) })
    } else if !users.contains_key(sessions[session_id].user_id) {
        Err(DreasErrorView::Authentication("User not found"@))
    } else {
        let user = users[sessions[session_id].user_id];
        if !user.is_active {
            Ok(PermissionView { allowed: false, reason: Some("User account is inactive"@) })
        } else if user.permissions.contains(permission) || role_grants(
            user.roles,
            roles,
            permission,
        ) {
            Ok(PermissionView { allowed: true, reason: None })
        } else {
            Ok(PermissionView { allowed: false, reason: Some("Insufficient permissions"@) })
        }
    }
}

/// The user that a session stands for at `now`: the one stored under the
/// session's user id, while the session has not expired.
pub open spec fn session_user(
    users: Map<Seq<char>, UserView>,
    sessions: Map<Seq<char>, UserSessionView>,
    session_id: Seq<char>,
    now: Timestamp,
) -> Option<UserView> {
    if sessions.contains_key(session_id) && now.le(sessions[session_id].expires_at)
        && users.contains_key(sessions[session_id].user_id) {
        Some(users[sessions[session_id].user_id])
    } else {
        None
    }
}

/// A permission result by its value.
pub open spec fn permission_result_view(r: Result<PermissionResult, DreasError>) -> Result<
    PermissionView,
    DreasErrorView,
> {
    match r {
        Ok(p) => Ok(p@),
        Err(e) => Err(e@),
    }
}

/// An optional user by its value.
pub open spec fn opt_user_view(u: Option<User>) -> Option<UserView> {
    match u {
        Some(u) => Some(u@),
        None => None,
    }
}

/// The store of users, roles and sessions. Users are stored under their
/// user name, roles under their name, sessions under their id.
#[derive(Debug)]
pub struct IdentityManager {
    users: StringMap<User>,
    roles: StringMap<Role>,
    sessions: StringMap<UserSession>,
}

impl IdentityManager {
    /// The users by user name.
    pub closed spec fn users(&self) -> Map<Seq<char>, UserView> {
        self.users@.map_values(|u: User| u@)
    }

    /// The roles by name.
    pub closed spec fn roles(&self) -> Map<Seq<char>, RoleView> {
        self.roles@.map_values(|r: Role| r@)
    }

    /// The sessions by id.
    pub closed spec fn sessions(&self) -> Map<Seq<char>, UserSessionView> {
        self.sessions@.map_values(|s: UserSession| s@)
    }

    /// An empty store.
    pub fn new() -> (manager: Self)
        ensures
            manager.users() == Map::<Seq<char>, UserView>::empty(),
            manager.roles() == Map::<Seq<char>, RoleView>::empty(),
            manager.sessions() == Map::<Seq<char>, UserSessionView>::empty(),
    {
        let manager = IdentityManager {
            users: StringMap::new(),
            roles: StringMap::new(),
            sessions: StringMap::new(),
        };
        proof {
            assert(manager.users() =~= Map::<Seq<char>, UserView>::empty());
            assert(manager.roles() =~= Map::<Seq<char>, RoleView>::empty());
            assert(manager.sessions() =~= Map::<Seq<char>, UserSessionView>::empty());
        }
        manager
    }

    /// Opens a session for `user_id` at `now` under the id `session_id`
    /// and stamps the login on the user who is stored under `user_id`, if
    /// there is one.
    pub fn create_session_at(&mut self, user_id: String, session_id: String, now: Timestamp) -> (r:
        Result<UserSession, DreasError>)
        ensures
            r is Ok,
            r->Ok_0@ == opened_session(session_id@, user_id@, now),
            final(self).sessions() == old(self).sessions().insert(
                session_id@,
                opened_session(session_id@, user_id@, now),
            ),
            final(self).roles() == old(self).roles(),
            final(self).users() == stamped_users(old(self).users(), user_id@, now),
    {
        let expires_secs: i64 = if now.secs > i64::MAX - SESSION_SECONDS {
            i64::MAX
        } else {
            now.secs + SESSION_SECONDS
        };
        let session = UserSession {
            session_id: session_id.clone(),
            user_id,
            created_at: now,
            expires_at: Timestamp { secs: expires_secs, nanos: now.nanos },
            ip_address: None,
            user_agent: None,
        };
        let returned = session.clone();
        self.sessions.insert(session_id, session);
        proof {
            assert(self.sessions() =~= old(self).sessions().insert(session_id@, session@));
        }
        let stamped: Option<User> = match self.users.get(&returned.user_id) {
            Some(user) => {
                let mut user = user.clone();
                user.last_login = Some(now);
                Some(user)
            },
            None => None,
        };
        match stamped {
            Some(user) => {
                let ghost view = user@;
                self.users.insert(returned.user_id.clone(), user);
                proof {
                    assert(self.users() =~= old(self).users().insert(user_id@, view));
                }
            },
            None => {
                proof {
                    assert(old(self).users().dom() =~= old(self).users@.dom());
                }
            },
        }
        Ok(returned)
    }

    /// Opens a session for `user_id` under a fresh id at the current time.
    fn create_session(&mut self, user_id: String) -> (r: Result<UserSession, DreasError>)
        ensures
            r is Ok,
            r->Ok_0@ == opened_session(r->Ok_0@.session_id, user_id@, r->Ok_0@.created_at),
            final(self).sessions() == old(self).sessions().insert(r->Ok_0@.session_id, r->Ok_0@),
            final(self).roles() == old(self).roles(),
            final(self).users() == stamped_users(old(self).users(), user_id@, r->Ok_0@.created_at),
    {
        let session_id = id_text(fresh_id());
        let now = current_time();
        self.create_session_at(user_id, session_id, now)
    }

    /// Tries to log `username` in. The login is accepted exactly where the
    /// account exists, is active and the password is the fixed one; an
    /// accepted login opens a session for the account's id and returns the
    /// account. A refused login changes nothing and reports "Invalid
    /// credentials".
    pub fn authenticate(&mut self, username: &str, password: &str) -> (r: Result<
        AuthResult,
        DreasError,
    >)
        ensures
            r is Ok,
            r->Ok_0.success == login_accepted(old(self).users(), username@, password@),
            final(self).roles() == old(self).roles(),
            if r->Ok_0.success {
                &&& opt_user_view(r->Ok_0.user) == Some(old(self).users()[username@])
                &&& r->Ok_0.session_id is Some
                &&& r->Ok_0.error is None
                &&& final(self).sessions().dom() == old(self).sessions().dom().insert(
                    r->Ok_0.session_id->0@,
                )
                &&& final(self).sessions() == old(self).sessions().insert(
                    r->Ok_0.session_id->0@,
                    opened_session(
                        r->Ok_0.session_id->0@,
                        old(self).users()[username@].id,
                        final(self).sessions()[r->Ok_0.session_id->0@].created_at,
                    ),
                )
                &&& final(self).users() == stamped_users(
                    old(self).users(),
                    old(self).users()[username@].id,
                    final(self).sessions()[r->Ok_0.session_id->0@].created_at,
                )
            } else {
                &&& r->Ok_0.user is None
                &&& r->Ok_0.session_id is None
                &&& opt_text(r->Ok_0.error) == Some("Invalid credentials"@)
                &&& final(self).sessions() == old(self).sessions()
                &&& final(self).users() == old(self).users()
            },
    {
        let name = username.to_owned();
        let given = password.to_owned();
        let expected = "password123".to_string();
        let found: Option<User> = match self.users.get(&name) {
            Some(user) => Some(user.clone()),
            None => None,
        };
        proof {
            assert(old(self).users().dom() =~= old(self).users@.dom());
        }
        if let Some(user) = found {
            if user.is_active {
                if given == expected {
                    let session = match self.create_session(user.id.clone()) {
                        Ok(session) => session,
                        Err(e) => {
                            return Err(e);
                        },
                    };
                    return Ok(
                        AuthResult {
                            success: true,
                            user: Some(user),
                            session_id: Some(session.session_id),
                            error: None,
                        },
                    );
                }
            }
        }
        Ok(
            AuthResult {
                success: false,
                user: None,
                session_id: None,
                error: Some("Invalid credentials".to_string()),
            },
        )
    }

    /// Whether one of `user_roles` is defined and grants `permission`.
    fn roles_grant(&self, user_roles: &Vec<String>, permission: &String) -> (granted: bool)
        ensures
            granted == role_grants(text_views(user_roles@), self.roles(), permission@),
    {
        let ghost names = text_views(user_roles@);
        let mut i: usize = 0;
        while i < user_roles.len()
            invariant
                i <= user_roles.len(),
                names == text_views(user_roles@),
                forall|j: int|
                    0 <= j < i ==> !(self.roles().contains_key(#[trigger] names[j])
                        && self.roles()[names[j]].permissions.contains(permission@)),
            decreases user_roles.len() - i,
        {
            assert(names[i as int] == user_roles[i as int]@);
            proof {
                assert(self.roles().dom() =~= self.roles@.dom());
            }
            if let Some(role) = self.roles.get(&user_roles[i]) {
                assert(self.roles()[names[i as int]] == role@);
                if contains_text(&role.permissions, permission) {
                    return true;
                }
            }
            i += 1;
        }
        false
    }

    /// Answers at `now` whether the session's user holds `permission`.
    pub fn check_permission_at(&self, session_id: &str, permission: &str, now: Timestamp) -> (r:
        Result<PermissionResult, DreasError>)
        ensures
            permission_result_view(r) == permission_outcome(
                self.users(),
                self.roles(),
                self.sessions(),
                session_id@,
                permission@,
                now,
            ),
    {
        let session_key = session_id.to_owned();
        let wanted = permission.to_owned();
        proof {
            assert(self.sessions().dom() =~= self.sessions@.dom());
            assert(self.users().dom() =~= self.users@.dom());
        }
        let session = match self.sessions.get(&session_key) {
            Some(session) => session,
            None => {
                return Err(DreasError::Authentication("Invalid session".to_string()));
            },
        };
        assert(self.sessions()[session_id@] == session@);
        if session.expires_at.is_before(&now) {
            return Ok(
                PermissionResult { allowed: false, reason: Some("Session expired".to_string()) },
            );
        }
        let user = match self.users.get(&session.user_id) {
            Some(user) => user,
            None => {
                return Err(DreasError::Authentication("User not found".to_string()));
            },
        };
        assert(self.users()[session@.user_id] == user@);
        if !user.is_active {
            return Ok(
                PermissionResult {
                    allowed: false,
                    reason: Some("User account is inactive".to_string()),
                },
            );
        }
        if contains_text(&user.permissions, &wanted) {
            return Ok(PermissionResult { allowed: true, reason: None });
        }
        if self.roles_grant(&user.roles, &wanted) {
            return Ok(PermissionResult { allowed: true, reason: None });
        }
        Ok(
            PermissionResult {
                allowed: false,
                reason: Some("Insufficient permissions".to_string()),
            },
        )
    }

    /// Answers at the current time whether the session's user holds
    /// `permission`; see [`Self::check_permission_at`].
    pub fn check_permission(&self, session_id: &str, permission: &str) -> (r: Result<
        PermissionResult,
        DreasError,
    >)
        ensures
            exists|now: Timestamp|
                permission_result_view(r) == permission_outcome(
                    self.users(),
                    self.roles(),
                    self.sessions(),
                    session_id@,
                    permission@,
                    now,
                ),
    {
        let now = current_time();
        self.check_permission_at(session_id, permission, now)
    }

    /// Stores a new active account under `username`, replacing an earlier
    /// one of that name, and returns it. The account gets a fresh id and
    /// no direct permissions. The password is not kept.
    pub fn create_user(
        &mut self,
        username: String,
        email: String,
        password: String,
        roles: Vec<String>,
    ) -> (r: Result<User, DreasError>)
        ensures
            r is Ok,
            r->Ok_0@ == (UserView {
                id: r->Ok_0@.id,
                username: username@,
                email: email@,
                roles: text_views(roles@),
                permissions: Seq::empty(),
                created_at: r->Ok_0@.created_at,
                last_login: None,
                is_active: true,
            }),
            final(self).users() == old(self).users().insert(username@, r->Ok_0@),
            final(self).roles() == old(self).roles(),
            final(self).sessions() == old(self).sessions(),
    {
        let user = User {
            id: id_text(fresh_id()),
            username: username.clone(),
            email,
            roles,
            permissions: Vec::new(),
            created_at: current_time(),
            last_login: None,
            is_active: true,
        };
        let returned = user.clone();
        proof {
            assert(user@.permissions =~= Seq::<Seq<char>>::empty());
        }
        self.users.insert(username, user);
        proof {
            assert(self.users() =~= old(self).users().insert(username@, returned@));
        }
        Ok(returned)
    }

    /// Stores a role under `name`, replacing an earlier one of that name,
    /// and returns it.
    pub fn create_role(&mut self, name: String, permissions: Vec<String>, description: String) -> (r:
        Result<Role, DreasError>)
        ensures
            r is Ok,
            r->Ok_0@ == (RoleView {
                name: name@,
                permissions: text_views(permissions@),
                description: description@,
                created_at: r->Ok_0@.created_at,
            }),
            final(self).roles() == old(self).roles().insert(name@, r->Ok_0@),
            final(self).users() == old(self).users(),
            final(self).sessions() == old(self).sessions(),
    {
        let role = Role { name: name.clone(), permissions, description, created_at: current_time() };
        let returned = role.clone();
        self.roles.insert(name, role);
        proof {
            assert(self.roles() =~= old(self).roles().insert(name@, returned@));
        }
        Ok(returned)
    }

    /// Ends the session `session_id`; an unknown id changes nothing.
    pub fn logout(&mut self, session_id: &str) -> (r: Result<(), DreasError>)
        ensures
            r is Ok,
            final(self).sessions() == old(self).sessions().remove(session_id@),
            final(self).users() == old(self).users(),
            final(self).roles() == old(self).roles(),
    {
        let key = session_id.to_owned();
        let _ = self.sessions.remove(&key);
        proof {
            assert(self.sessions() =~= old(self).sessions().remove(session_id@));
        }
        Ok(())
    }

    /// The user that the session stands for at `now`.
    pub fn get_user_by_session_at(&self, session_id: &str, now: Timestamp) -> (r: Result<
        Option<User>,
        DreasError,
    >)
        ensures
            r is Ok,
            opt_user_view(r->Ok_0) == session_user(
                self.users(),
                self.sessions(),
                session_id@,
                now,
            ),
    {
        let key = session_id.to_owned();
        proof {
            assert(self.sessions().dom() =~= self.sessions@.dom());
            assert(self.users().dom() =~= self.users@.dom());
        }
        if let Some(session) = self.sessions.get(&key) {
            assert(self.sessions()[session_id@] == session@);
            if now.is_at_or_before(&session.expires_at) {
                return Ok(
                    match self.users.get(&session.user_id) {
                        Some(user) => Some(user.clone()),
                        None => None,
                    },
                );
            }
        }
        Ok(None)
    }

    /// The user that the session stands for at the current time.
    pub fn get_user_by_session(&self, session_id: &str) -> (r: Result<Option<User>, DreasError>)
        ensures
            r is Ok,
            exists|now: Timestamp|
                opt_user_view(r->Ok_0) == session_user(
                    self.users(),
                    self.sessions(),
                    session_id@,
                    now,
                ),
    {
        let now = current_time();
        self.get_user_by_session_at(session_id, now)
    }
}

} // verus!
