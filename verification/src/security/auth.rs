//! Authentication: users and their credentials, sessions, and the lockout
//! after repeated failures.

use vstd::prelude::*;
use crate::storage::entry::{elapsed_secs, seconds_between, Clock, NANOS_PER_SEC};
use crate::text::{decimal, decimal_text};
use crate::text_map::TextMap;

verus! {

/// Outcome of an attempt to authenticate.
#[derive(Debug, Clone, Copy, PartialEq, Eq, Structural)]
pub enum AuthResult {
    Success,
    Failed,
    Expired,
    Disabled,
}

/// Credentials of a user.
#[derive(Debug, Clone)]
pub struct Credentials {
    pub username: String,
    pub password_hash: String,
    pub enabled: bool,
    /// When the user was added, on the manager's clock.
    pub created_at: u64,
    /// When the user last logged in.
    pub last_login: Option<u64>,
}

impl Credentials {
    /// Credentials of an enabled user made at `now` who has not logged in.
    pub fn new(username: &str, password_hash: &str, now: u64) -> (c: Credentials)
        ensures
            c.username@ == username@,
            c.password_hash@ == password_hash@,
            c.enabled,
            c.created_at == now,
            c.last_login is None,
    {
        Credentials {
            username: String::from_str(username),
            password_hash: String::from_str(password_hash),
            enabled: true,
            created_at: now,
            last_login: None,
        }
    }
}

/// Authentication configuration.
#[derive(Debug, Clone, Copy, PartialEq, Eq, Structural)]
pub struct AuthConfig {
    /// Whether clients must authenticate.
    pub require_auth: bool,
    /// Seconds for which a session is valid.
    pub session_timeout: u64,
    /// Failures after which a user is locked out.
    pub max_attempts: u32,
    /// Seconds for which a user is locked out.
    pub lockout_duration: u64,
}

impl Default for AuthConfig {
    /// Authentication required, sessions of an hour, five attempts, five
    /// minutes of lockout.
    fn default() -> (c: AuthConfig)
        ensures
            c == (AuthConfig {
                require_auth: true,
                session_timeout: 3600,
                max_attempts: 5,
                lockout_duration: 300,
            }),
    {
        AuthConfig {
            require_auth: true,
            session_timeout: 3600,
            max_attempts: 5,
            lockout_duration: 300,
        }
    }
}

/// A session: who it belongs to and when it began.
pub struct Session {
    pub username: String,
    pub created: u64,
}

/// The failures of a user: how many, and when the last one was.
#[derive(Debug, Clone, Copy, PartialEq, Eq, Structural)]
pub struct FailedAttempts {
    pub count: u32,
    pub since: u64,
}

/// The text of a name that was given, if one was.
pub open spec fn name_of(r: Option<String>) -> Option<Seq<char>> {
    match r {
        Some(name) => Some(name@),
        None => None,
    }
}

/// Authentication manager.
pub struct AuthManager {
    config: AuthConfig,
    users: TextMap<Credentials>,
    sessions: TextMap<Session>,
    failed_attempts: TextMap<FailedAttempts>,
    clock: Clock,
}

impl AuthManager {
    /// The configuration.
    pub closed spec fn spec_config(&self) -> AuthConfig {
        self.config
    }

    /// The users, by name.
    pub closed spec fn users(&self) -> TextMap<Credentials> {
        self.users
    }

    /// The sessions, by token.
    pub closed spec fn sessions(&self) -> TextMap<Session> {
        self.sessions
    }

    /// The failures, by user name.
    pub closed spec fn failures(&self) -> TextMap<FailedAttempts> {
        self.failed_attempts
    }

    /// The three tables are well formed.
    pub open spec fn wf(&self) -> bool {
        self.users().wf() && self.sessions().wf() && self.failures().wf()
    }

    /// Whether a user is locked out at `now`: the failures have reached
    /// the limit, and the last one is less than the lockout ago.
    pub open spec fn locked_out(&self, username: Seq<char>, now: u64) -> bool {
        self.failures().has(username) && self.failures().value_of(username).count
            >= self.spec_config().max_attempts && seconds_between(
            self.failures().value_of(username).since,
            now,
        ) < self.spec_config().lockout_duration
    }

    /// The outcome of an attempt at `now`: a failure for a user who is
    /// locked out; else "disabled" for a user who is; else success where
    /// the user is known and the hash is the user's; else a failure.
    pub open spec fn outcome(&self, username: Seq<char>, password_hash: Seq<char>, now: u64)
        -> AuthResult {
        if self.locked_out(username, now) {
            AuthResult::Failed
        } else if self.users().has(username) && !self.users().value_of(username).enabled {
            AuthResult::Disabled
        } else if self.users().has(username) && self.users().value_of(username).password_hash@
            == password_hash {
            AuthResult::Success
        } else {
            AuthResult::Failed
        }
    }

    /// The user of a session that is valid at `now`: that of the session
    /// under the token, where there is one and it began less than the
    /// timeout ago.
    pub open spec fn session_user(&self, token: Seq<char>, now: u64) -> Option<Seq<char>> {
        if self.sessions().has(token) && seconds_between(
            self.sessions().value_of(token).created,
            now,
        ) < self.spec_config().session_timeout {
            Some(self.sessions().value_of(token).username@)
        } else {
            None
        }
    }

    /// The count of failures after one more.
    pub open spec fn next_count(&self, username: Seq<char>) -> u32 {
        if !self.failures().has(username) {
            1
        } else if self.failures().value_of(username).count < u32::MAX {
            (self.failures().value_of(username).count + 1) as u32
        } else {
            u32::MAX
        }
    }

    /// A manager without users, sessions or failures.
    pub fn new(config: AuthConfig) -> (m: AuthManager)
        ensures
            m.wf(),
            m.spec_config() == config,
            forall|name: Seq<char>| !m.users().has(name),
            forall|token: Seq<char>| !m.sessions().has(token),
            forall|name: Seq<char>| !m.failures().has(name),
    {
        AuthManager {
            config,
            users: TextMap::new(),
            sessions: TextMap::new(),
            failed_attempts: TextMap::new(),
            clock: Clock::new(),
        }
    }

    /// The present instant on this manager's clock.
    pub fn now(&self) -> u64 {
        self.clock.now()
    }

    /// Adds an enabled user, in the place of a user of the same name.
    pub fn add_user(&mut self, username: &str, password_hash: &str)
        requires
            old(self).wf(),
        ensures
            final(self).wf(),
            final(self).spec_config() == old(self).spec_config(),
            final(self).sessions() == old(self).sessions(),
            final(self).failures() == old(self).failures(),
            final(self).users().has(username@),
            final(self).users().value_of(username@).username@ == username@,
            final(self).users().value_of(username@).password_hash@ == password_hash@,
            final(self).users().value_of(username@).enabled,
            forall|other: Seq<char>|
                other != username@ ==> final(self).users().has(other) == old(self).users().has(
                    other,
                )
                    && (old(self).users().has(other) ==> final(self).users().value_of(other)
                        == old(self).users().value_of(other)),
    {
        let now = self.clock.now();
        let credentials = Credentials::new(username, password_hash, now);
        self.users.insert(String::from_str(username), credentials);
    }

    /// Removes a user. Returns whether the user was known.
    pub fn remove_user(&mut self, username: &str) -> (existed: bool)
        requires
            old(self).wf(),
        ensures
            final(self).wf(),
            final(self).spec_config() == old(self).spec_config(),
            final(self).sessions() == old(self).sessions(),
            final(self).failures() == old(self).failures(),
            existed == old(self).users().has(username@),
            !final(self).users().has(username@),
            forall|other: Seq<char>|
                other != username@ ==> final(self).users().has(other) == old(self).users().has(
                    other,
                )
                    && (old(self).users().has(other) ==> final(self).users().value_of(other)
                        == old(self).users().value_of(other)),
    {
        self.users.remove(username).is_some()
    }

    fn is_locked_out(&self, username: &str, now: u64) -> (r: bool)
        requires
            self.wf(),
        ensures
            r == self.locked_out(username@, now),
    {
        match self.failed_attempts.get(username) {
            Some(failed) => failed.count >= self.config.max_attempts && elapsed_secs(
                failed.since,
                now,
            ) < self.config.lockout_duration,
            None => false,
        }
    }

    fn record_failed_attempt(&mut self, username: &str, now: u64)
        requires
            old(self).wf(),
        ensures
            final(self).wf(),
            final(self).spec_config() == old(self).spec_config(),
            final(self).users() == old(self).users(),
            final(self).sessions() == old(self).sessions(),
            final(self).failures().has(username@),
            final(self).failures().value_of(username@) == (FailedAttempts {
                count: old(self).next_count(username@),
                since: now,
            }),
            forall|other: Seq<char>|
                other != username@
                    ==> final(self).failures().has(other) == old(self).failures().has(other)
                    && (old(self).failures().has(other)
                        ==> final(self).failures().value_of(other)
                            == old(self).failures().value_of(other)),
    {
        let count: u32 = match self.failed_attempts.get(username) {
            Some(failed) => if failed.count < u32::MAX {
                failed.count + 1
            } else {
                u32::MAX
            },
            None => 1,
        };
        self.failed_attempts.insert(String::from_str(username), FailedAttempts { count,
            since: now });
    }

    fn clear_failed_attempts(&mut self, username: &str)
        requires
            old(self).wf(),
        ensures
            final(self).wf(),
            final(self).spec_config() == old(self).spec_config(),
            final(self).users() == old(self).users(),
            final(self).sessions() == old(self).sessions(),
            !final(self).failures().has(username@),
            forall|other: Seq<char>|
                other != username@
                    ==> final(self).failures().has(other) == old(self).failures().has(other)
                    && (old(self).failures().has(other)
                        ==> final(self).failures().value_of(other)
                            == old(self).failures().value_of(other)),
    {
        self.failed_attempts.remove(username);
    }

    /// Judges an attempt to authenticate at `now`.
    ///
    /// A success clears the user's failures. A failure of a user who is
    /// not locked out is counted, with `now` as its time. A locked-out or
    /// disabled user changes nothing.
    pub fn authenticate_at(&mut self, username: &str, password_hash: &str, now: u64) -> (r:
        AuthResult)
        requires
            old(self).wf(),
        ensures
            final(self).wf(),
            r == old(self).outcome(username@, password_hash@, now),
            final(self).spec_config() == old(self).spec_config(),
            final(self).users() == old(self).users(),
            final(self).sessions() == old(self).sessions(),
            old(self).locked_out(username@, now) || r == AuthResult::Disabled
                ==> final(self).failures() == old(self).failures(),
            r == AuthResult::Success ==> !final(self).failures().has(username@),
            r == AuthResult::Failed && !old(self).locked_out(username@, now)
                ==> final(self).failures().has(username@)
                    && final(self).failures().value_of(username@)
                == (FailedAttempts { count: old(self).next_count(username@), since: now }),
            forall|other: Seq<char>|
                other != username@
                    ==> final(self).failures().has(other) == old(self).failures().has(other)
                    && (old(self).failures().has(other)
                        ==> final(self).failures().value_of(other)
                            == old(self).failures().value_of(other)),
    {
        if self.is_locked_out(username, now) {
            return AuthResult::Failed;
        }
        let verdict: Option<AuthResult> = match self.users.get(username) {
            Some(creds) => {
                if !creds.enabled {
                    Some(AuthResult::Disabled)
                } else if crate::text::str_eq(creds.password_hash.as_str(), password_hash) {
                    Some(AuthResult::Success)
                } else {
                    None
                }
            },
            None => None,
        };
        match verdict {
            Some(AuthResult::Disabled) => AuthResult::Disabled,
            Some(_) => {
                self.clear_failed_attempts(username);
                AuthResult::Success
            },
            None => {
                self.record_failed_attempt(username, now);
                AuthResult::Failed
            },
        }
    }

    /// Judges an attempt to authenticate now. Without failures on record,
    /// the clock does not matter.
    pub fn authenticate(&mut self, username: &str, password_hash: &str) -> (r: AuthResult)
        requires
            old(self).wf(),
        ensures
            final(self).wf(),
            final(self).spec_config() == old(self).spec_config(),
            final(self).users() == old(self).users(),
            final(self).sessions() == old(self).sessions(),
            r == AuthResult::Success ==> old(self).users().has(username@)
                && old(self).users().value_of(username@).password_hash@ == password_hash@
                && old(self).users().value_of(username@).enabled,
            !old(self).failures().has(username@) ==> r == (if old(self).users().has(username@)
                && !old(self).users().value_of(username@).enabled {
                AuthResult::Disabled
            } else if old(self).users().has(username@) && old(self).users().value_of(
                username@,
            ).password_hash@ == password_hash@ {
                AuthResult::Success
            } else {
                AuthResult::Failed
            }),
    {
        let now = self.clock.now();
        self.authenticate_at(username, password_hash, now)
    }

    /// Begins a session of a user at `now` and returns its token: the
    /// user's name, an underscore, and the instant.
    pub fn create_session_at(&mut self, username: &str, now: u64) -> (token: String)
        requires
            old(self).wf(),
        ensures
            final(self).wf(),
            token@ == username@ + "_"@ + decimal_text(now as nat),
            final(self).spec_config() == old(self).spec_config(),
            final(self).users() == old(self).users(),
            final(self).failures() == old(self).failures(),
            final(self).sessions().has(token@),
            final(self).sessions().value_of(token@).username@ == username@,
            final(self).sessions().value_of(token@).created == now,
            forall|other: Seq<char>|
                other != token@
                    ==> final(self).sessions().has(other) == old(self).sessions().has(other)
                    && (old(self).sessions().has(other)
                        ==> final(self).sessions().value_of(other)
                            == old(self).sessions().value_of(other)),
    {
        let mut token = String::from_str(username);
        token.append("_");
        let digits = decimal(now);
        token.append(digits.as_str());
        let key = token.clone();
        self.sessions.insert(key, Session { username: String::from_str(username), created: now });
        token
    }

    /// Begins a session of a user now and returns its token.
    pub fn create_session(&mut self, username: &str) -> (token: String)
        requires
            old(self).wf(),
        ensures
            final(self).wf(),
            final(self).spec_config() == old(self).spec_config(),
            final(self).users() == old(self).users(),
            final(self).failures() == old(self).failures(),
            final(self).sessions().has(token@),
            final(self).sessions().value_of(token@).username@ == username@,
    {
        let now = self.clock.now();
        self.create_session_at(username, now)
    }

    /// The user of a session that is valid at `now`: the token is known,
    /// and the session began less than the timeout ago.
    pub fn validate_session_at(&self, token: &str, now: u64) -> (r: Option<String>)
        requires
            self.wf(),
        ensures
            name_of(r) == self.session_user(token@, now),
    {
        match self.sessions.get(token) {
            Some(session) => {
                if elapsed_secs(session.created, now) < self.config.session_timeout {
                    Some(session.username.clone())
                } else {
                    None
                }
            },
            None => None,
        }
    }

    /// The user of a session that is valid now, as of the instant that the
    /// manager's clock shows.
    pub fn validate_session(&self, token: &str) -> (r: Option<String>)
        requires
            self.wf(),
        ensures
            exists|now: u64| name_of(r) == #[trigger] self.session_user(token@, now),
            !self.sessions().has(token@) ==> r is None,
            self.sessions().has(token@) && self.spec_config().session_timeout > u64::MAX
                / NANOS_PER_SEC ==> r is Some,
    {
        let now = self.clock.now();
        self.validate_session_at(token, now)
    }

    /// Ends a session.
    pub fn end_session(&mut self, token: &str)
        requires
            old(self).wf(),
        ensures
            final(self).wf(),
            final(self).spec_config() == old(self).spec_config(),
            final(self).users() == old(self).users(),
            final(self).failures() == old(self).failures(),
            !final(self).sessions().has(token@),
            forall|other: Seq<char>|
                other != token@
                    ==> final(self).sessions().has(other) == old(self).sessions().has(other)
                    && (old(self).sessions().has(other)
                        ==> final(self).sessions().value_of(other)
                            == old(self).sessions().value_of(other)),
    {
        self.sessions.remove(token);
    }
}

impl Default for AuthManager {
    fn default() -> (m: AuthManager)
        ensures
            m.wf(),
            m.spec_config() == (AuthConfig {
                require_auth: true,
                session_timeout: 3600,
                max_attempts: 5,
                lockout_duration: 300,
            }),
    {
        AuthManager::new(AuthConfig::default())
    }
}

} // verus!
