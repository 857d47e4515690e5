//! Audit trail: the security events of the server, kept in a bounded
//! buffer and exported as JSON.

use vstd::prelude::*;
use crate::storage::entry::unix_millis;
use crate::text::{decimal, decimal_text};

verus! {

/// Kinds of audit events.
#[derive(Debug, Clone, Copy, PartialEq, Eq, Structural)]
pub enum AuditEventType {
    /// An attempt to authenticate.
    AuthAttempt,
    /// A successful login.
    Login,
    /// A logout.
    Logout,
    /// A command was executed.
    Command,
    /// A permission was denied.
    PermissionDenied,
    /// The configuration was changed.
    ConfigChange,
    /// An administrator acted.
    AdminAction,
    /// A connection was opened.
    Connect,
    /// A connection was closed.
    Disconnect,
}

impl AuditEventType {
    /// The name of the kind as text.
    pub open spec fn text(self) -> Seq<char> {
        match self {
            AuditEventType::AuthAttempt => "AuthAttempt"@,
            AuditEventType::Login => "Login"@,
            AuditEventType::Logout => "Logout"@,
            AuditEventType::Command => "Command"@,
            AuditEventType::PermissionDenied => "PermissionDenied"@,
            AuditEventType::ConfigChange => "ConfigChange"@,
            AuditEventType::AdminAction => "AdminAction"@,
            AuditEventType::Connect => "Connect"@,
            AuditEventType::Disconnect => "Disconnect"@,
        }
    }

    /// The name of the kind.
    pub fn name(self) -> (s: &'static str)
        ensures
            s@ == self.text(),
    {
        match self {
            AuditEventType::AuthAttempt => "AuthAttempt",
            AuditEventType::Login => "Login",
            AuditEventType::Logout => "Logout",
            AuditEventType::Command => "Command",
            AuditEventType::PermissionDenied => "PermissionDenied",
            AuditEventType::ConfigChange => "ConfigChange",
            AuditEventType::AdminAction => "AdminAction",
            AuditEventType::Connect => "Connect",
            AuditEventType::Disconnect => "Disconnect",
        }
    }
}

/// An audit event.
#[derive(Debug, Clone)]
pub struct AuditEvent {
    /// Kind of event.
    pub event_type: AuditEventType,
    /// Milliseconds since the Unix epoch.
    pub timestamp: u64,
    /// The user, if authenticated.
    pub username: Option<String>,
    /// The address of the client.
    pub client_ip: Option<String>,
    /// The command that was executed.
    pub command: Option<String>,
    /// The key that was touched.
    pub key: Option<String>,
    /// Whether the action succeeded.
    pub success: bool,
    /// Further words.
    pub message: Option<String>,
}

/// An audit event as a value.
pub struct EventModel {
    pub event_type: AuditEventType,
    pub timestamp: u64,
    pub username: Option<Seq<char>>,
    pub client_ip: Option<Seq<char>>,
    pub command: Option<Seq<char>>,
    pub key: Option<Seq<char>>,
    pub success: bool,
    pub message: Option<Seq<char>>,
}

/// The text that an optional string holds.
pub open spec fn optional_text(o: Option<String>) -> Option<Seq<char>> {
    match o {
        Some(s) => Some(s@),
        None => None,
    }
}

impl View for AuditEvent {
    type V = EventModel;

    open spec fn view(&self) -> EventModel {
        EventModel {
            event_type: self.event_type,
            timestamp: self.timestamp,
            username: optional_text(self.username),
            client_ip: optional_text(self.client_ip),
            command: optional_text(self.command),
            key: optional_text(self.key),
            success: self.success,
            message: optional_text(self.message),
        }
    }
}

/// A field of text in JSON, with the comma that separates it from the
/// field before it; nothing for a field that is absent.
pub open spec fn text_field(name: Seq<char>, value: Option<Seq<char>>) -> Seq<char> {
    match value {
        Some(v) => ",\""@ + name + "\":\""@ + v + "\""@,
        None => Seq::empty(),
    }
}

impl EventModel {
    /// A successful event of a kind at a time, with nothing else said.
    pub open spec fn plain(event_type: AuditEventType, timestamp: u64) -> EventModel {
        EventModel {
            event_type,
            timestamp,
            username: None,
            client_ip: None,
            command: None,
            key: None,
            success: true,
            message: None,
        }
    }

    /// The event as a JSON object: kind, time and success, and then each
    /// field of text that is present.
    pub open spec fn json(self) -> Seq<char> {
        "{\"type\":\""@ + self.event_type.text() + "\",\"timestamp\":"@ + decimal_text(
            self.timestamp as nat,
        ) + ",\"success\":"@ + (if self.success {
            "true"@
        } else {
            "false"@
        }) + text_field("username"@, self.username) + text_field("client_ip"@, self.client_ip)
            + text_field("command"@, self.command) + text_field("key"@, self.key) + text_field(
            "message"@,
            self.message,
        ) + "}"@
    }
}

fn append_field(out: &mut String, name: &str, value: &Option<String>)
    ensures
        final(out)@ == old(out)@ + text_field(name@, optional_text(*value)),
{
    match value {
        Some(v) => {
            out.append(",\"");
            out.append(name);
            out.append("\":\"");
            out.append(v.as_str());
            out.append("\"");
            assert(out@ =~= old(out)@ + text_field(name@, optional_text(*value)));
        },
        None => {
            assert(out@ =~= old(out)@ + text_field(name@, optional_text(*value)));
        },
    }
}

fn copy_text(value: &Option<String>) -> (r: Option<String>)
    ensures
        optional_text(r) == optional_text(*value),
{
    match value {
        Some(s) => Some(s.clone()),
        None => None,
    }
}

impl AuditEvent {
    /// A successful event of a kind at a time.
    pub fn new_at(event_type: AuditEventType, timestamp: u64) -> (e: AuditEvent)
        ensures
            e@ == EventModel::plain(event_type, timestamp),
    {
        AuditEvent {
            event_type,
            timestamp,
            username: None,
            client_ip: None,
            command: None,
            key: None,
            success: true,
            message: None,
        }
    }

    /// A successful event of a kind, now.
    pub fn new(event_type: AuditEventType) -> (e: AuditEvent)
        ensures
            e@ == EventModel::plain(event_type, e.timestamp),
    {
        AuditEvent::new_at(event_type, unix_millis())
    }

    /// The same event with this user.
    pub fn with_user(self, username: &str) -> (e: AuditEvent)
        ensures
            e@ == (EventModel { username: Some(username@), ..self@ }),
    {
        let mut e = self;
        e.username = Some(String::from_str(username));
        e
    }

    /// The same event with this client address.
    pub fn with_client(self, ip: &str) -> (e: AuditEvent)
        ensures
            e@ == (EventModel { client_ip: Some(ip@), ..self@ }),
    {
        let mut e = self;
        e.client_ip = Some(String::from_str(ip));
        e
    }

    /// The same event with this command.
    pub fn with_command(self, cmd: &str) -> (e: AuditEvent)
        ensures
            e@ == (EventModel { command: Some(cmd@), ..self@ }),
    {
        let mut e = self;
        e.command = Some(String::from_str(cmd));
        e
    }

    /// The same event with this key.
    pub fn with_key(self, key: &str) -> (e: AuditEvent)
        ensures
            e@ == (EventModel { key: Some(key@), ..self@ }),
    {
        let mut e = self;
        e.key = Some(String::from_str(key));
        e
    }

    /// The same event as a failure.
    pub fn failed(self) -> (e: AuditEvent)
        ensures
            e@ == (EventModel { success: false, ..self@ }),
    {
        let mut e = self;
        e.success = false;
        e
    }

    /// The same event with this message.
    pub fn with_message(self, msg: &str) -> (e: AuditEvent)
        ensures
            e@ == (EventModel { message: Some(msg@), ..self@ }),
    {
        let mut e = self;
        e.message = Some(String::from_str(msg));
        e
    }

    /// A copy of this event.
    pub fn duplicate(&self) -> (e: AuditEvent)
        ensures
            e@ == self@,
    {
        AuditEvent {
            event_type: self.event_type,
            timestamp: self.timestamp,
            username: copy_text(&self.username),
            client_ip: copy_text(&self.client_ip),
            command: copy_text(&self.command),
            key: copy_text(&self.key),
            success: self.success,
            message: copy_text(&self.message),
        }
    }

    /// The event as a JSON object.
    pub fn to_json(&self) -> (s: String)
        ensures
            s@ == self@.json(),
    {
        let mut s = String::from_str("{\"type\":\"");
        s.append(self.event_type.name());
        s.append("\",\"timestamp\":");
        let ts = decimal(self.timestamp);
        s.append(ts.as_str());
        s.append(",\"success\":");
        if self.success {
            s.append("true");
        } else {
            s.append("false");
        }
        append_field(&mut s, "username", &self.username);
        append_field(&mut s, "client_ip", &self.client_ip);
        append_field(&mut s, "command", &self.command);
        append_field(&mut s, "key", &self.key);
        append_field(&mut s, "message", &self.message);
        s.append("}");
        s
    }
}

/// The events that a buffer holds.
pub open spec fn events_view(buffer: Seq<AuditEvent>) -> Seq<EventModel> {
    Seq::new(buffer.len(), |i: int| buffer[i]@)
}

/// The buffer after an event was logged: where the buffer is full, its
/// oldest event leaves first.
pub open spec fn logged(buffer: Seq<EventModel>, event: EventModel, max_size: usize) -> Seq<
    EventModel,
> {
    if buffer.len() >= max_size && buffer.len() > 0 {
        buffer.skip(1).push(event)
    } else {
        buffer.push(event)
    }
}

/// The JSON objects of the first `n` events, with commas between them.
pub open spec fn joined_json(events: Seq<EventModel>, n: int) -> Seq<char>
    decreases n,
{
    if n <= 0 {
        Seq::empty()
    } else if n == 1 {
        events[0].json()
    } else {
        joined_json(events, n - 1) + ","@ + events[n - 1].json()
    }
}

/// The event of a login attempt.
pub open spec fn login_event(username: Seq<char>, client_ip: Seq<char>, success: bool, at: u64)
    -> EventModel {
    EventModel {
        username: Some(username),
        client_ip: Some(client_ip),
        success,
        ..EventModel::plain(
            if success {
                AuditEventType::Login
            } else {
                AuditEventType::AuthAttempt
            },
            at,
        )
    }
}

/// The event of a command, executed or denied.
pub open spec fn command_event(
    event_type: AuditEventType,
    username: Seq<char>,
    command: Seq<char>,
    key: Option<Seq<char>>,
    success: bool,
    at: u64,
) -> EventModel {
    EventModel {
        username: Some(username),
        command: Some(command),
        key,
        success,
        ..EventModel::plain(event_type, at)
    }
}

/// The text that an optional string slice holds.
pub open spec fn optional_str(o: Option<&str>) -> Option<Seq<char>> {
    match o {
        Some(s) => Some(s@),
        None => None,
    }
}

/// What an audit logger holds.
pub struct AuditModel {
    pub buffer: Seq<EventModel>,
    pub max_size: usize,
    pub enabled: bool,
}

/// Audit logger.
pub struct AuditLogger {
    buffer: Vec<AuditEvent>,
    max_size: usize,
    enabled: bool,
}

impl View for AuditLogger {
    type V = AuditModel;

    closed spec fn view(&self) -> AuditModel {
        AuditModel {
            buffer: events_view(self.buffer@),
            max_size: self.max_size,
            enabled: self.enabled,
        }
    }
}

impl AuditLogger {
    /// An enabled logger with an empty buffer of room for `max_size`
    /// events.
    pub fn new(max_size: usize) -> (l: AuditLogger)
        ensures
            l@ == (AuditModel { buffer: Seq::empty(), max_size, enabled: true }),
    {
        let l = AuditLogger { buffer: Vec::new(), max_size, enabled: true };
        assert(l@.buffer =~= Seq::<EventModel>::empty());
        l
    }

    /// Logs an event, unless logging is off.
    pub fn log(&mut self, event: AuditEvent)
        ensures
            final(self)@ == if old(self)@.enabled {
                AuditModel {
                    buffer: logged(old(self)@.buffer, event@, old(self)@.max_size),
                    ..old(self)@
                }
            } else {
                old(self)@
            },
    {
        if !self.enabled {
            return ;
        }
        let ghost before = self@.buffer;
        if self.buffer.len() >= self.max_size && self.buffer.len() > 0 {
            self.buffer.remove(0);
            assert(self@.buffer =~= before.skip(1));
        }
        let ghost middle = self@.buffer;
        self.buffer.push(event);
        assert(self@.buffer =~= middle.push(event@));
    }

    /// Logs a login attempt: a login where it succeeded, a failed attempt
    /// to authenticate where it did not.
    pub fn log_login(&mut self, username: &str, client_ip: &str, success: bool)
        ensures
            final(self)@.max_size == old(self)@.max_size,
            final(self)@.enabled == old(self)@.enabled,
            !old(self)@.enabled ==> final(self)@ == old(self)@,
            old(self)@.enabled ==> exists|at: u64|
                final(self)@.buffer == #[trigger] logged(
                    old(self)@.buffer,
                    login_event(username@, client_ip@, success, at),
                    old(self)@.max_size,
                ),
    {
        let kind = if success {
            AuditEventType::Login
        } else {
            AuditEventType::AuthAttempt
        };
        let mut event = AuditEvent::new(kind).with_user(username).with_client(client_ip);
        if !success {
            event = event.failed();
        }
        assert(event@ == login_event(username@, client_ip@, success, event.timestamp));
        self.log(event);
    }

    /// Logs a command that was executed.
    pub fn log_command(&mut self, username: &str, command: &str, key: Option<&str>)
        ensures
            final(self)@.max_size == old(self)@.max_size,
            final(self)@.enabled == old(self)@.enabled,
            !old(self)@.enabled ==> final(self)@ == old(self)@,
            old(self)@.enabled ==> exists|at: u64|
                final(self)@.buffer == #[trigger] logged(
                    old(self)@.buffer,
                    command_event(
                        AuditEventType::Command,
                        username@,
                        command@,
                        optional_str(key),
                        true,
                        at,
                    ),
                    old(self)@.max_size,
                ),
    {
        let mut event = AuditEvent::new(AuditEventType::Command).with_user(username).with_command(
            command,
        );
        if let Some(k) = key {
            event = event.with_key(k);
        }
        assert(event@ == command_event(
            AuditEventType::Command,
            username@,
            command@,
            optional_str(key),
            true,
            event.timestamp,
        ));
        self.log(event);
    }

    /// Logs a command that was denied.
    pub fn log_denied(&mut self, username: &str, command: &str, key: Option<&str>)
        ensures
            final(self)@.max_size == old(self)@.max_size,
            final(self)@.enabled == old(self)@.enabled,
            !old(self)@.enabled ==> final(self)@ == old(self)@,
            old(self)@.enabled ==> exists|at: u64|
                final(self)@.buffer == #[trigger] logged(
                    old(self)@.buffer,
                    command_event(
                        AuditEventType::PermissionDenied,
                        username@,
                        command@,
                        optional_str(key),
                        false,
                        at,
                    ),
                    old(self)@.max_size,
                ),
    {
        let mut event = AuditEvent::new(AuditEventType::PermissionDenied).with_user(
            username,
        ).with_command(command).failed();
        if let Some(k) = key {
            event = event.with_key(k);
        }
        assert(event@ == command_event(
            AuditEventType::PermissionDenied,
            username@,
            command@,
            optional_str(key),
            false,
            event.timestamp,
        ));
        self.log(event);
    }

    /// The latest events, newest first, and no more than `count` of them.
    pub fn recent(&self, count: usize) -> (r: Vec<AuditEvent>)
        ensures
            r@.len() == if count <= self@.buffer.len() {
                count as int
            } else {
                self@.buffer.len() as int
            },
            forall|i: int|
                0 <= i < r@.len() ==> (#[trigger] r@[i])@ == self@.buffer[self@.buffer.len() - 1
                    - i],
    {
        let n = self.buffer.len();
        let take = if count <= n {
            count
        } else {
            n
        };
        let mut out: Vec<AuditEvent> = Vec::new();
        let mut i: usize = 0;
        while i < take
            invariant
                i <= take <= n,
                n == self.buffer@.len(),
                out@.len() == i,
                forall|j: int| 0 <= j < i ==> (#[trigger] out@[j])@ == self@.buffer[n - 1 - j],
            decreases take - i,
        {
            out.push(self.buffer[n - 1 - i].duplicate());
            i += 1;
        }
        out
    }

    /// All events as a JSON array, oldest first.
    pub fn export_json(&self) -> (s: String)
        ensures
            s@ == "["@ + joined_json(self@.buffer, self@.buffer.len() as int) + "]"@,
    {
        let mut s = String::from_str("[");
        let mut i: usize = 0;
        while i < self.buffer.len()
            invariant
                i <= self.buffer@.len(),
                s@ == "["@ + joined_json(self@.buffer, i as int),
            decreases self.buffer@.len() - i,
        {
            if i > 0 {
                s.append(",");
            }
            let json = self.buffer[i].to_json();
            s.append(json.as_str());
            proof {
                assert(self@.buffer[i as int] == self.buffer@[i as int]@);
                assert(s@ =~= "["@ + joined_json(self@.buffer, i + 1));
            }
            i += 1;
        }
        s.append("]");
        s
    }

    /// Removes every event.
    pub fn clear(&mut self)
        ensures
            final(self)@ == (AuditModel { buffer: Seq::empty(), ..old(self)@ }),
    {
        self.buffer.clear();
        assert(self@.buffer =~= Seq::<EventModel>::empty());
    }
}

impl Default for AuditLogger {
    /// A logger with room for 10,000 events.
    fn default() -> (l: AuditLogger)
        ensures
            l@ == (AuditModel { buffer: Seq::empty(), max_size: 10000, enabled: true }),
    {
        AuditLogger::new(10000)
    }
}

} // verus!
