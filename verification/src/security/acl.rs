//! Access control lists: which role may run which command and touch
//! which key, and which user has which roles.

use vstd::prelude::*;
use vstd::utf8::encode_utf8;
use crate::text::{contains_text, plain_upper, str_eq, texts, to_uppercase, upper_text};

verus! {

/// Kinds of permission.
#[derive(Debug, Clone, Copy, PartialEq, Eq, Hash, Structural)]
pub enum Permission {
    /// Reading: GET, EXISTS, SCAN.
    Read,
    /// Writing: SET, DEL.
    Write,
    /// Administration: CONFIG, SHUTDOWN.
    Admin,
    /// Cluster operations.
    Cluster,
    /// Every permission.
    All,
}

/// The byte of the asterisk.
pub const STAR: u8 = 0x2A;

/// Whether a text matches a pattern, both as bytes. The pattern `*`
/// matches every text; a pattern that ends in `*` matches the texts that
/// start with what stands before it; a pattern that starts with `*`
/// matches the texts that end with what stands behind it; any other
/// pattern matches itself only.
pub open spec fn glob_matches(pattern: Seq<u8>, text: Seq<u8>) -> bool {
    if pattern == seq![STAR] {
        true
    } else if pattern.len() > 0 && pattern.last() == STAR {
        pattern.drop_last().is_prefix_of(text)
    } else if pattern.len() > 0 && pattern[0] == STAR {
        pattern.skip(1).is_suffix_of(text)
    } else {
        pattern == text
    }
}

fn starts_with(text: &Vec<u8>, prefix: &Vec<u8>, prefix_len: usize) -> (r: bool)
    requires
        prefix_len <= prefix@.len(),
    ensures
        r == prefix@.take(prefix_len as int).is_prefix_of(text@),
{
    if prefix_len > text.len() {
        return false;
    }
    let mut i: usize = 0;
    while i < prefix_len
        invariant
            i <= prefix_len <= text@.len(),
            prefix_len <= prefix@.len(),
            forall|j: int| 0 <= j < i ==> text@[j] == prefix@[j],
        decreases prefix_len - i,
    {
        if text[i] != prefix[i] {
            proof {
                let p = prefix@.take(prefix_len as int);
                if p.is_prefix_of(text@) {
                    assert(p[i as int] == text@.subrange(0, p.len() as int)[i as int]);
                }
            }
            return false;
        }
        i += 1;
    }
    proof {
        let p = prefix@.take(prefix_len as int);
        assert(p =~= text@.subrange(0, p.len() as int));
    }
    true
}

fn ends_with(text: &Vec<u8>, pattern: &Vec<u8>, from: usize) -> (r: bool)
    requires
        from <= pattern@.len(),
    ensures
        r == pattern@.skip(from as int).is_suffix_of(text@),
{
    let n = pattern.len() - from;
    if n > text.len() {
        return false;
    }
    let offset = text.len() - n;
    assert(pattern@.len() <= usize::MAX && text@.len() <= usize::MAX);
    let ghost p = pattern@.skip(from as int);
    let ghost tail = text@.subrange(offset as int, text@.len() as int);
    let mut i: usize = 0;
    while i < n
        invariant
            i <= n,
            from <= pattern@.len() <= usize::MAX,
            n == pattern@.len() - from,
            offset == text@.len() - n,
            n <= text@.len() <= usize::MAX,
            p == pattern@.skip(from as int),
            tail == text@.subrange(offset as int, text@.len() as int),
            forall|j: int| 0 <= j < i ==> (#[trigger] tail[j]) == p[j],
        decreases n - i,
    {
        assert(tail[i as int] == text@[offset + i]);
        assert(p[i as int] == pattern@[from + i]);
        if text[offset + i] != pattern[from + i] {
            return false;
        }
        i += 1;
    }
    assert(p =~= tail);
    true
}

/// Whether `text` matches `pattern`.
pub fn glob_match(pattern: &str, text: &str) -> (r: bool)
    ensures
        r == glob_matches(encode_utf8(pattern@), encode_utf8(text@)),
{
    let p = pattern.as_bytes_vec();
    let t = text.as_bytes_vec();
    let n = p.len();
    if n == 1 && p[0] == STAR {
        assert(p@ =~= seq![STAR]);
        return true;
    }
    if n > 0 && p[n - 1] == STAR {
        assert(p@.take(n - 1) =~= p@.drop_last());
        return starts_with(&t, &p, n - 1);
    }
    if n > 0 && p[0] == STAR {
        return ends_with(&t, &p, 1);
    }
    let same = crate::wire::bytes_eq(&p, &t);
    same
}

/// A rule: the keys that match a pattern may be touched with some kinds
/// of permission.
#[derive(Debug, Clone)]
pub struct AclRule {
    /// Key pattern.
    pub pattern: String,
    /// Kinds of permission that the rule grants, each once.
    pub permissions: Vec<Permission>,
}

/// A rule as a value.
pub struct RuleModel {
    pub pattern: Seq<char>,
    pub permissions: Seq<Permission>,
}

impl View for AclRule {
    type V = RuleModel;

    open spec fn view(&self) -> RuleModel {
        RuleModel { pattern: self.pattern@, permissions: self.permissions@ }
    }
}

impl RuleModel {
    /// Whether the rule grants a kind of permission: it holds that kind,
    /// or the kind that stands for all.
    pub open spec fn allows(self, perm: Permission) -> bool {
        self.permissions.contains(Permission::All) || self.permissions.contains(perm)
    }

    /// Whether the rule is about a key.
    pub open spec fn matches_key(self, key: Seq<char>) -> bool {
        glob_matches(encode_utf8(self.pattern), encode_utf8(key))
    }

    /// The rule with one more kind of permission.
    pub open spec fn with_permission(self, perm: Permission) -> RuleModel {
        RuleModel {
            permissions: if self.permissions.contains(perm) {
                self.permissions
            } else {
                self.permissions.push(perm)
            },
            ..self
        }
    }
}

fn has_permission(list: &Vec<Permission>, perm: Permission) -> (r: bool)
    ensures
        r == list@.contains(perm),
{
    let mut i: usize = 0;
    while i < list.len()
        invariant
            i <= list@.len(),
            forall|j: int| 0 <= j < i ==> list@[j] != perm,
        decreases list@.len() - i,
    {
        if list[i] == perm {
            return true;
        }
        i += 1;
    }
    false
}

impl AclRule {
    /// A rule for a pattern that grants nothing.
    pub fn new(pattern: &str) -> (r: AclRule)
        ensures
            r@ == (RuleModel { pattern: pattern@, permissions: Seq::empty() }),
    {
        AclRule { pattern: String::from_str(pattern), permissions: Vec::new() }
    }

    /// The same rule with one more kind of permission.
    pub fn with_permission(self, perm: Permission) -> (r: AclRule)
        ensures
            r@ == self@.with_permission(perm),
    {
        let mut r = self;
        if !has_permission(&r.permissions, perm) {
            r.permissions.push(perm);
        }
        r
    }

    /// The same rule with reading.
    pub fn with_read(self) -> (r: AclRule)
        ensures
            r@ == self@.with_permission(Permission::Read),
    {
        self.with_permission(Permission::Read)
    }

    /// The same rule with writing.
    pub fn with_write(self) -> (r: AclRule)
        ensures
            r@ == self@.with_permission(Permission::Write),
    {
        self.with_permission(Permission::Write)
    }

    /// The same rule with every permission.
    pub fn with_all(self) -> (r: AclRule)
        ensures
            r@ == self@.with_permission(Permission::All),
    {
        self.with_permission(Permission::All)
    }

    /// Whether the rule is about a key.
    pub fn matches_key(&self, key: &str) -> (r: bool)
        ensures
            r == self@.matches_key(key@),
    {
        glob_match(self.pattern.as_str(), key)
    }

    /// Whether the rule grants a kind of permission.
    pub fn allows(&self, perm: Permission) -> (r: bool)
        ensures
            r == self@.allows(perm),
    {
        has_permission(&self.permissions, Permission::All) || has_permission(
            &self.permissions,
            perm,
        )
    }
}

/// A role: rules on keys, and the commands that it may and may not run.
#[derive(Debug, Clone)]
pub struct Role {
    pub name: String,
    pub rules: Vec<AclRule>,
    /// The commands that the role may run, in upper case, each once. An
    /// empty list allows every command.
    pub commands: Vec<String>,
    /// The commands that the role may not run, in upper case, each once.
    pub denied_commands: Vec<String>,
}

/// A role as a value.
pub struct RoleModel {
    pub name: Seq<char>,
    pub rules: Seq<RuleModel>,
    pub commands: Seq<Seq<char>>,
    pub denied_commands: Seq<Seq<char>>,
}

/// The rules that a list holds.
pub open spec fn rules_view(rules: Seq<AclRule>) -> Seq<RuleModel> {
    Seq::new(rules.len(), |i: int| rules[i]@)
}

impl View for Role {
    type V = RoleModel;

    open spec fn view(&self) -> RoleModel {
        RoleModel {
            name: self.name@,
            rules: rules_view(self.rules@),
            commands: texts(self.commands@),
            denied_commands: texts(self.denied_commands@),
        }
    }
}

/// A list of texts with one more text, unless it holds it already.
pub open spec fn with_text(list: Seq<Seq<char>>, s: Seq<char>) -> Seq<Seq<char>> {
    if list.contains(s) {
        list
    } else {
        list.push(s)
    }
}

impl RoleModel {
    /// Whether the role may run a command: the command, in upper case, is
    /// not denied, and is allowed, or every command is.
    pub open spec fn can_execute(self, cmd: Seq<char>) -> bool {
        !self.denied_commands.contains(upper_text(cmd)) && (self.commands.len() == 0
            || self.commands.contains(upper_text(cmd)) || self.commands.contains("*"@))
    }

    /// Whether the role may touch a key with a kind of permission: some
    /// rule is about the key and grants the kind.
    pub open spec fn can_access(self, key: Seq<char>, perm: Permission) -> bool {
        exists|i: int|
            0 <= i < self.rules.len() && (#[trigger] self.rules[i]).matches_key(key)
                && self.rules[i].allows(perm)
    }
}

fn push_unique(list: &mut Vec<String>, s: String)
    ensures
        texts(final(list)@) == with_text(texts(old(list)@), s@),
{
    if !contains_text(list, s.as_str()) {
        list.push(s);
        assert(texts(list@) =~= texts(old(list)@).push(s@));
    }
}

impl Role {
    /// A role without rules that may run every command.
    pub fn new(name: &str) -> (r: Role)
        ensures
            r@ == (RoleModel {
                name: name@,
                rules: Seq::empty(),
                commands: Seq::empty(),
                denied_commands: Seq::empty(),
            }),
    {
        let r = Role {
            name: String::from_str(name),
            rules: Vec::new(),
            commands: Vec::new(),
            denied_commands: Vec::new(),
        };
        assert(r@.rules =~= Seq::<RuleModel>::empty());
        assert(r@.commands =~= Seq::<Seq<char>>::empty());
        assert(r@.denied_commands =~= Seq::<Seq<char>>::empty());
        r
    }

    /// The same role with one more rule.
    pub fn with_rule(self, rule: AclRule) -> (r: Role)
        ensures
            r@ == (RoleModel { rules: self@.rules.push(rule@), ..self@ }),
    {
        let mut r = self;
        r.rules.push(rule);
        assert(r@.rules =~= self@.rules.push(rule@));
        r
    }

    /// The same role, allowed to run a command. The command counts in
    /// upper case.
    pub fn allow_command(self, cmd: &str) -> (r: Role)
        ensures
            r@ == (RoleModel {
                commands: with_text(self@.commands, upper_text(cmd@)),
                ..self@
            }),
    {
        let mut r = self;
        push_unique(&mut r.commands, to_uppercase(cmd));
        r
    }

    /// The same role, forbidden to run a command.
    pub fn deny_command(self, cmd: &str) -> (r: Role)
        ensures
            r@ == (RoleModel {
                denied_commands: with_text(self@.denied_commands, upper_text(cmd@)),
                ..self@
            }),
    {
        let mut r = self;
        push_unique(&mut r.denied_commands, to_uppercase(cmd));
        r
    }

    /// Whether the role may run a command.
    pub fn can_execute(&self, cmd: &str) -> (r: bool)
        ensures
            r == self@.can_execute(cmd@),
    {
        let upper = to_uppercase(cmd);
        if contains_text(&self.denied_commands, upper.as_str()) {
            return false;
        }
        assert(texts(self.commands@).len() == self.commands@.len());
        self.commands.len() == 0 || contains_text(&self.commands, upper.as_str())
            || contains_text(&self.commands, "*")
    }

    /// Whether the role may touch a key with a kind of permission.
    pub fn can_access(&self, key: &str, perm: Permission) -> (r: bool)
        ensures
            r == self@.can_access(key@, perm),
    {
        let mut i: usize = 0;
        while i < self.rules.len()
            invariant
                i <= self.rules@.len(),
                forall|j: int|
                    0 <= j < i ==> !((#[trigger] self@.rules[j]).matches_key(key@)
                        && self@.rules[j].allows(perm)),
            decreases self.rules@.len() - i,
        {
            if self.rules[i].matches_key(key) && self.rules[i].allows(perm) {
                assert(self@.rules[i as int] == self.rules@[i as int]@);
                return true;
            }
            assert(self@.rules[i as int] == self.rules@[i as int]@);
            i += 1;
        }
        false
    }

    /// The role of an administrator: every key, every command.
    pub fn admin() -> (r: Role)
        ensures
            r@ == admin_role(),
    {
        proof {
            reveal_strlit("*");
        }
        assert(plain_upper("*"@));
        let rule = AclRule::new("*").with_all();
        assert(rule@.permissions =~= seq![Permission::All]);
        let r = Role::new("admin").with_rule(rule).allow_command("*");
        assert(r@.rules =~= admin_role().rules);
        assert(r@.commands =~= admin_role().commands);
        r
    }

    /// The role of a reader: every key for reading, and the reading
    /// commands.
    pub fn read_only() -> (r: Role)
        ensures
            r@ == read_only_role(),
    {
        proof {
            reveal_strlit("GET");
            reveal_strlit("EXISTS");
            reveal_strlit("SCAN");
            reveal_strlit("KEYS");
            reveal_strlit("MGET");
        }
        assert(plain_upper("GET"@) && plain_upper("EXISTS"@) && plain_upper("SCAN"@)
            && plain_upper("KEYS"@) && plain_upper("MGET"@));
        let rule = AclRule::new("*").with_read();
        assert(rule@.permissions =~= seq![Permission::Read]);
        let r0 = Role::new("readonly").with_rule(rule);
        assert(r0@.rules =~= read_only_role().rules);
        let r1 = r0.allow_command("GET");
        assert(r1@.commands =~= seq!["GET"@]);
        let r2 = r1.allow_command("EXISTS");
        assert("EXISTS"@.len() != "GET"@.len());
        assert(r2@.commands =~= seq!["GET"@, "EXISTS"@]);
        let r3 = r2.allow_command("SCAN");
        assert("SCAN"@.len() != "GET"@.len() && "SCAN"@.len() != "EXISTS"@.len());
        assert(r3@.commands =~= seq!["GET"@, "EXISTS"@, "SCAN"@]);
        let r4 = r3.allow_command("KEYS");
        assert("KEYS"@.len() != "GET"@.len() && "KEYS"@.len() != "EXISTS"@.len());
        assert("KEYS"@[0] != "SCAN"@[0]);
        assert(r4@.commands =~= seq!["GET"@, "EXISTS"@, "SCAN"@, "KEYS"@]);
        let r5 = r4.allow_command("MGET");
        assert("MGET"@.len() != "GET"@.len() && "MGET"@.len() != "EXISTS"@.len());
        assert("MGET"@[0] != "SCAN"@[0] && "MGET"@[0] != "KEYS"@[0]);
        assert(r5@.commands =~= read_only_role().commands);
        r5
    }

    /// The role of a writer: every key for writing, and the writing
    /// commands.
    pub fn write_only() -> (r: Role)
        ensures
            r@ == write_only_role(),
    {
        proof {
            reveal_strlit("SET");
            reveal_strlit("DEL");
            reveal_strlit("MSET");
        }
        assert(plain_upper("SET"@) && plain_upper("DEL"@) && plain_upper("MSET"@));
        let rule = AclRule::new("*").with_write();
        assert(rule@.permissions =~= seq![Permission::Write]);
        let r0 = Role::new("writeonly").with_rule(rule);
        assert(r0@.rules =~= write_only_role().rules);
        let r1 = r0.allow_command("SET");
        assert(r1@.commands =~= seq!["SET"@]);
        let r2 = r1.allow_command("DEL");
        assert("DEL"@[0] != "SET"@[0]);
        assert(r2@.commands =~= seq!["SET"@, "DEL"@]);
        let r3 = r2.allow_command("MSET");
        assert("MSET"@.len() != "SET"@.len() && "MSET"@.len() != "DEL"@.len());
        assert(r3@.commands =~= write_only_role().commands);
        r3
    }
}

/// The role "admin": every key with every permission, every command.
pub open spec fn admin_role() -> RoleModel {
    RoleModel {
        name: "admin"@,
        rules: seq![RuleModel { pattern: "*"@, permissions: seq![Permission::All] }],
        commands: seq!["*"@],
        denied_commands: Seq::empty(),
    }
}

/// The role "readonly": every key for reading, and the commands GET,
/// EXISTS, SCAN, KEYS and MGET.
pub open spec fn read_only_role() -> RoleModel {
    RoleModel {
        name: "readonly"@,
        rules: seq![RuleModel { pattern: "*"@, permissions: seq![Permission::Read] }],
        commands: seq!["GET"@, "EXISTS"@, "SCAN"@, "KEYS"@, "MGET"@],
        denied_commands: Seq::empty(),
    }
}

/// The role "writeonly": every key for writing, and the commands SET, DEL
/// and MSET.
pub open spec fn write_only_role() -> RoleModel {
    RoleModel {
        name: "writeonly"@,
        rules: seq![RuleModel { pattern: "*"@, permissions: seq![Permission::Write] }],
        commands: seq!["SET"@, "DEL"@, "MSET"@],
        denied_commands: Seq::empty(),
    }
}

/// The roles that a list holds.
pub open spec fn roles_view(roles: Seq<Role>) -> Seq<RoleModel> {
    Seq::new(roles.len(), |i: int| roles[i]@)
}

/// The users and the names of their roles that a table holds.
pub open spec fn grants_view(table: Seq<(String, Vec<String>)>) -> Seq<(Seq<char>,
    Seq<Seq<char>>)> {
    Seq::new(table.len(), |i: int| (table[i].0@, texts(table[i].1@)))
}

/// What an ACL manager holds.
pub struct AclModel {
    /// The roles, each name once.
    pub roles: Seq<RoleModel>,
    /// The names of the roles of each user, each user once.
    pub user_roles: Seq<(Seq<char>, Seq<Seq<char>>)>,
}

impl AclModel {
    /// Whether a role of this name is known.
    pub open spec fn has_role(self, name: Seq<char>) -> bool {
        exists|i: int| 0 <= i < self.roles.len() && (#[trigger] self.roles[i]).name == name
    }

    /// The place of the role of this name.
    pub open spec fn role_index(self, name: Seq<char>) -> int {
        choose|i: int| 0 <= i < self.roles.len() && (#[trigger] self.roles[i]).name == name
    }

    /// Whether a user has roles.
    pub open spec fn has_user(self, user: Seq<char>) -> bool {
        exists|i: int| 0 <= i < self.user_roles.len() && (#[trigger] self.user_roles[i]).0 == user
    }

    /// The place of a user.
    pub open spec fn user_index(self, user: Seq<char>) -> int {
        choose|i: int| 0 <= i < self.user_roles.len() && (#[trigger] self.user_roles[i]).0 == user
    }

    /// The names of the roles of a user.
    pub open spec fn roles_of(self, user: Seq<char>) -> Seq<Seq<char>> {
        if self.has_user(user) {
            self.user_roles[self.user_index(user)].1
        } else {
            Seq::empty()
        }
    }

    /// Whether a user may run a command: one of the user's roles is known
    /// and may.
    pub open spec fn can_execute(self, user: Seq<char>, cmd: Seq<char>) -> bool {
        exists|k: int|
            0 <= k < self.roles_of(user).len() && self.has_role(#[trigger] self.roles_of(user)[k])
                && self.roles[self.role_index(self.roles_of(user)[k])].can_execute(cmd)
    }

    /// Whether a user may touch a key with a kind of permission: one of
    /// the user's roles is known and may.
    pub open spec fn can_access(self, user: Seq<char>, key: Seq<char>, perm: Permission) -> bool {
        exists|k: int|
            0 <= k < self.roles_of(user).len() && self.has_role(#[trigger] self.roles_of(user)[k])
                && self.roles[self.role_index(self.roles_of(user)[k])].can_access(key, perm)
    }

    /// No role name and no user occurs twice.
    pub open spec fn wf(self) -> bool {
        &&& forall|i: int, j: int|
            0 <= i < j < self.roles.len() ==> (#[trigger] self.roles[i]).name != (
            #[trigger] self.roles[j]).name
        &&& forall|i: int, j: int|
            0 <= i < j < self.user_roles.len() ==> (#[trigger] self.user_roles[i]).0 != (
            #[trigger] self.user_roles[j]).0
    }
}

/// ACL manager.
pub struct AclManager {
    roles: Vec<Role>,
    user_roles: Vec<(String, Vec<String>)>,
}

impl View for AclManager {
    type V = AclModel;

    closed spec fn view(&self) -> AclModel {
        AclModel { roles: roles_view(self.roles@), user_roles: grants_view(self.user_roles@) }
    }
}

impl AclManager {
    /// No role name and no user occurs twice.
    pub open spec fn wf(&self) -> bool {
        self@.wf()
    }

    /// A manager that knows the roles "admin", "readonly" and
    /// "writeonly", each with what it allows, and no user.
    pub fn new() -> (m: AclManager)
        ensures
            m.wf(),
            m@.roles == seq![admin_role(), read_only_role(), write_only_role()],
            m@.user_roles.len() == 0,
    {
        proof {
            reveal_strlit("admin");
            reveal_strlit("readonly");
            reveal_strlit("writeonly");
        }
        let mut roles: Vec<Role> = Vec::new();
        roles.push(Role::admin());
        roles.push(Role::read_only());
        roles.push(Role::write_only());
        let m = AclManager { roles, user_roles: Vec::new() };
        proof {
            assert("admin"@.len() == 5 && "readonly"@.len() == 8 && "writeonly"@.len() == 9);
            assert(m@.roles =~= seq![admin_role(), read_only_role(), write_only_role()]);
        }
        m
    }

    fn find_role(&self, name: &str) -> (r: Option<usize>)
        ensures
            match r {
                Some(i) => i < self@.roles.len() && self@.roles[i as int].name == name@,
                None => !self@.has_role(name@),
            },
    {
        let mut i: usize = 0;
        while i < self.roles.len()
            invariant
                i <= self.roles@.len(),
                forall|j: int| 0 <= j < i ==> (#[trigger] self@.roles[j]).name != name@,
            decreases self.roles@.len() - i,
        {
            if str_eq(self.roles[i].name.as_str(), name) {
                return Some(i);
            }
            i += 1;
        }
        None
    }

    fn find_user(&self, user: &str) -> (r: Option<usize>)
        ensures
            match r {
                Some(i) => i < self@.user_roles.len() && self@.user_roles[i as int].0 == user@,
                None => !self@.has_user(user@),
            },
    {
        let mut i: usize = 0;
        while i < self.user_roles.len()
            invariant
                i <= self.user_roles@.len(),
                forall|j: int| 0 <= j < i ==> (#[trigger] self@.user_roles[j]).0 != user@,
            decreases self.user_roles@.len() - i,
        {
            if str_eq(self.user_roles[i].0.as_str(), user) {
                return Some(i);
            }
            i += 1;
        }
        None
    }

    /// Adds a role, in the place of the role of the same name.
    pub fn add_role(&mut self, role: Role)
        requires
            old(self).wf(),
        ensures
            final(self).wf(),
            final(self)@ == (AclModel {
                roles: if old(self)@.has_role(role@.name) {
                    old(self)@.roles.update(old(self)@.role_index(role@.name), role@)
                } else {
                    old(self)@.roles.push(role@)
                },
                ..old(self)@
            }),
    {
        let ghost before = self@.roles;
        match self.find_role(role.name.as_str()) {
            Some(i) => {
                proof {
                    let c = self@.role_index(role@.name);
                    if c < i {
                        assert(before[c].name != before[i as int].name);
                    } else if c > i {
                        assert(before[i as int].name != before[c].name);
                    }
                }
                self.roles.set(i, role);
                proof {
                    let after = self@.roles;
                    assert(after =~= before.update(i as int, role@));
                    assert forall|a: int, b: int| 0 <= a < b < after.len() implies (
                    #[trigger] after[a]).name != (#[trigger] after[b]).name by {
                        assert(before[a].name != before[b].name);
                    }
                }
            },
            None => {
                self.roles.push(role);
                proof {
                    let after = self@.roles;
                    assert(after =~= before.push(role@));
                    assert forall|a: int, b: int| 0 <= a < b < after.len() implies (
                    #[trigger] after[a]).name != (#[trigger] after[b]).name by {
                        if b < before.len() {
                            assert(before[a].name != before[b].name);
                        } else {
                            assert(before[a].name != role@.name);
                        }
                    }
                }
            },
        }
        assert(self@.user_roles == old(self)@.user_roles);
    }

    /// Gives a user one more role, by name.
    pub fn assign_role(&mut self, username: &str, role_name: &str)
        requires
            old(self).wf(),
        ensures
            final(self).wf(),
            final(self)@.roles == old(self)@.roles,
            final(self)@.has_user(username@),
            final(self)@.roles_of(username@) == old(self)@.roles_of(username@).push(role_name@),
            forall|other: Seq<char>|
                other != username@ ==> final(self)@.has_user(other) == old(self)@.has_user(other)
                    && final(self)@.roles_of(other) == old(self)@.roles_of(other),
    {
        let ghost before = self@.user_roles;
        let ghost w: int;
        match self.find_user(username) {
            Some(i) => {
                proof {
                    w = i as int;
                    lemma_unique_user(before, username@);
                }
                let (name, mut names) = self.user_roles.remove(i);
                let ghost old_names = texts(names@);
                names.push(String::from_str(role_name));
                assert(texts(names@) =~= old_names.push(role_name@));
                self.user_roles.insert(i, (name, names));
                assert(self@.user_roles =~= before.update(
                    i as int,
                    (username@, old_names.push(role_name@)),
                ));
            },
            None => {
                proof {
                    w = before.len() as int;
                }
                let mut names: Vec<String> = Vec::new();
                names.push(String::from_str(role_name));
                assert(texts(names@) =~= Seq::<Seq<char>>::empty().push(role_name@));
                self.user_roles.push((String::from_str(username), names));
                assert(self@.user_roles =~= before.push(
                    (username@, Seq::<Seq<char>>::empty().push(role_name@)),
                ));
            },
        }
        proof {
            let after = self@.user_roles;
            assert(after[w].0 == username@);
            assert forall|a: int, b: int| 0 <= a < b < after.len() implies (#[trigger] after[a]).0
                != (#[trigger] after[b]).0 by {
                if b < before.len() {
                    assert(before[a].0 != before[b].0);
                } else {
                    assert(before[a].0 != username@);
                }
            }
            lemma_unique_user(after, username@);
            assert forall|other: Seq<char>| other != username@ implies self@.has_user(other)
                == old(self)@.has_user(other) && self@.roles_of(other) == old(self)@.roles_of(
                other,
            ) by {
                if old(self)@.has_user(other) {
                    let k = old(self)@.user_index(other);
                    assert(after[k] == before[k]);
                    lemma_unique_user(after, other);
                }
                if self@.has_user(other) {
                    let k = self@.user_index(other);
                    assert(before[k] == after[k]);
                    lemma_unique_user(before, other);
                }
            }
            assert(self@.roles == old(self)@.roles);
        }
    }

    /// Whether a user may run a command.
    pub fn can_execute(&self, username: &str, cmd: &str) -> (r: bool)
        requires
            self.wf(),
        ensures
            r == self@.can_execute(username@, cmd@),
    {
        let u = match self.find_user(username) {
            Some(u) => u,
            None => {
                return false;
            },
        };
        proof {
            lemma_unique_user(self@.user_roles, username@);
        }
        let names = &self.user_roles[u].1;
        assert(texts(names@) == self@.roles_of(username@));
        let mut k: usize = 0;
        while k < names.len()
            invariant
                k <= names@.len(),
                self.wf(),
                texts(names@) == self@.roles_of(username@),
                forall|j: int|
                    0 <= j < k ==> !(self@.has_role(#[trigger] self@.roles_of(username@)[j])
                        && self@.roles[self@.role_index(
                        self@.roles_of(username@)[j],
                    )].can_execute(cmd@)),
            decreases names@.len() - k,
        {
            assert(texts(names@)[k as int] == names@[k as int]@);
            if let Some(i) = self.find_role(names[k].as_str()) {
                proof {
                    lemma_unique_role(self@.roles, names@[k as int]@);
                    assert(self@.roles[i as int] == self.roles@[i as int]@);
                }
                if self.roles[i].can_execute(cmd) {
                    return true;
                }
            }
            k += 1;
        }
        false
    }

    /// Whether a user may touch a key with a kind of permission.
    pub fn can_access(&self, username: &str, key: &str, perm: Permission) -> (r: bool)
        requires
            self.wf(),
        ensures
            r == self@.can_access(username@, key@, perm),
    {
        let u = match self.find_user(username) {
            Some(u) => u,
            None => {
                return false;
            },
        };
        proof {
            lemma_unique_user(self@.user_roles, username@);
        }
        let names = &self.user_roles[u].1;
        assert(texts(names@) == self@.roles_of(username@));
        let mut k: usize = 0;
        while k < names.len()
            invariant
                k <= names@.len(),
                self.wf(),
                texts(names@) == self@.roles_of(username@),
                forall|j: int|
                    0 <= j < k ==> !(self@.has_role(#[trigger] self@.roles_of(username@)[j])
                        && self@.roles[self@.role_index(
                        self@.roles_of(username@)[j],
                    )].can_access(key@, perm)),
            decreases names@.len() - k,
        {
            assert(texts(names@)[k as int] == names@[k as int]@);
            if let Some(i) = self.find_role(names[k].as_str()) {
                proof {
                    lemma_unique_role(self@.roles, names@[k as int]@);
                    assert(self@.roles[i as int] == self.roles@[i as int]@);
                }
                if self.roles[i].can_access(key, perm) {
                    return true;
                }
            }
            k += 1;
        }
        false
    }
}

/// In a table without repeated users, the place of a user is the only one
/// that holds it.
proof fn lemma_unique_user(table: Seq<(Seq<char>, Seq<Seq<char>>)>, user: Seq<char>)
    requires
        forall|i: int, j: int|
            0 <= i < j < table.len() ==> (#[trigger] table[i]).0 != (#[trigger] table[j]).0,
    ensures
        forall|i: int|
            0 <= i < table.len() && (#[trigger] table[i]).0 == user ==> (AclModel {
                roles: Seq::empty(),
                user_roles: table,
            }).user_index(user) == i,
{
    let m = AclModel { roles: Seq::empty(), user_roles: table };
    assert forall|i: int| 0 <= i < table.len() && (#[trigger] table[i]).0
        == user implies m.user_index(
        user,
    ) == i by {
        let c = m.user_index(user);
        if c < i {
            assert(table[c].0 != table[i].0);
        } else if c > i {
            assert(table[i].0 != table[c].0);
        }
    }
}

/// Among roles without repeated names, the place of a name is the only one
/// that holds it.
proof fn lemma_unique_role(roles: Seq<RoleModel>, name: Seq<char>)
    requires
        forall|i: int, j: int|
            0 <= i < j < roles.len() ==> (#[trigger] roles[i]).name != (#[trigger] roles[j]).name,
    ensures
        forall|i: int|
            0 <= i < roles.len() && (#[trigger] roles[i]).name == name ==> (AclModel {
                roles,
                user_roles: Seq::empty(),
            }).role_index(name) == i,
{
    let m = AclModel { roles, user_roles: Seq::empty() };
    assert forall|i: int| 0 <= i < roles.len()
        && (#[trigger] roles[i]).name == name implies m.role_index(
        name,
    ) == i by {
        let c = m.role_index(name);
        if c < i {
            assert(roles[c].name != roles[i].name);
        } else if c > i {
            assert(roles[i].name != roles[c].name);
        }
    }
}

impl Default for AclManager {
    fn default() -> (m: AclManager)
        ensures
            m.wf(),
    {
        AclManager::new()
    }
}

} // verus!
