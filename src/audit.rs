//! Audit records: who did what to which real path.
use vstd::prelude::*;

verus! {

/// The actions that the server records.
#[derive(Debug, Clone, Copy, PartialEq, Eq, Structural)]
pub enum AuditAction {
    Open,
    Close,
    Read,
    Write,
    Remove,
    OpenDir,
    ReadDir,
    MakeDir,
    RemoveDir,
    RealPath,
    Rename,
}

/// The name under which an action is stored.
pub open spec fn action_name(a: AuditAction) -> Seq<char> {
    match a {
        AuditAction::Open => "Open"@,
        AuditAction::Close => "Close"@,
        AuditAction::Read => "Read"@,
        AuditAction::Write => "Write"@,
        AuditAction::Remove => "Remove"@,
        AuditAction::OpenDir => "OpenDir"@,
        AuditAction::ReadDir => "ReadDir"@,
        AuditAction::MakeDir => "MakeDir"@,
        AuditAction::RemoveDir => "RemoveDir"@,
        AuditAction::RealPath => "RealPath"@,
        AuditAction::Rename => "Rename"@,
    }
}

impl AuditAction {
    /// The name under which the action is stored.
    pub fn as_str(&self) -> (r: &'static str)
        ensures
            r@ == action_name(*self),
    {
        match self {
            AuditAction::Open => "Open",
            AuditAction::Close => "Close",
            AuditAction::Read => "Read",
            AuditAction::Write => "Write",
            AuditAction::Remove => "Remove",
            AuditAction::OpenDir => "OpenDir",
            AuditAction::ReadDir => "ReadDir",
            AuditAction::MakeDir => "MakeDir",
            AuditAction::RemoveDir => "RemoveDir",
            AuditAction::RealPath => "RealPath",
            AuditAction::Rename => "Rename",
        }
    }
}

/// One audit record: `username` performed `action` on the real path `target`.
#[derive(Debug)]
pub struct AuditRecord {
    pub username: String,
    pub action: AuditAction,
    pub target: String,
}

/// Gathers the three fields of an audit event as a structured-logging event reports
/// them, one field at a time.
#[derive(Debug)]
pub struct LogVisitor {
    pub username: Option<String>,
    pub action: Option<String>,
    pub target: Option<String>,
}

pub open spec fn text_of(o: Option<String>) -> Option<Seq<char>> {
    match o {
        Some(s) => Some(s@),
        None => None,
    }
}

impl LogVisitor {
    /// A visitor that has seen no field.
    pub fn new() -> (r: LogVisitor)
        ensures
            r.username is None && r.action is None && r.target is None,
    {
        LogVisitor { username: None, action: None, target: None }
    }

    /// All three fields were seen.
    pub fn is_valid(&self) -> (r: bool)
        ensures
            r == (self.username is Some && self.action is Some && self.target is Some),
    {
        self.username.is_some() && self.action.is_some() && self.target.is_some()
    }

    /// The three fields, once all were seen.
    pub fn get_val(&self) -> (r: Option<(String, String, String)>)
        ensures
            r is Some == (self.username is Some && self.action is Some && self.target is Some),
            r matches Some(t) ==> Some(t.0@) == text_of(self.username) && Some(t.1@) == text_of(
                self.action,
            ) && Some(t.2@) == text_of(self.target),
    {
        match (&self.username, &self.action, &self.target) {
            (Some(u), Some(a), Some(t)) => Some((u.clone(), a.clone(), t.clone())),
            _ => None,
        }
    }

    /// Takes the text field `name`: `username`, `action` and `target` are kept, any
    /// other field is ignored.
    pub fn record_str(&mut self, name: &str, value: &str)
        ensures
            name@ == "username"@ ==> text_of(final(self).username) == Some(value@),
            name@ != "username"@ ==> final(self).username == old(self).username,
            name@ == "action"@ ==> text_of(final(self).action) == Some(value@),
            name@ != "action"@ ==> final(self).action == old(self).action,
            name@ == "target"@ ==> text_of(final(self).target) == Some(value@),
            name@ != "target"@ ==> final(self).target == old(self).target,
    {
        proof {
            reveal_strlit("username");
            reveal_strlit("action");
            reveal_strlit("target");
            assert("username"@.len() != "action"@.len());
            assert("username"@.len() != "target"@.len());
            assert("action"@[0] != "target"@[0]);
        }
        let n = String::from_str(name);
        if n == String::from_str("username") {
            self.username = Some(String::from_str(value));
        } else if n == String::from_str("action") {
            self.action = Some(String::from_str(value));
        } else if n == String::from_str("target") {
            self.target = Some(String::from_str(value));
        }
    }

    /// Takes a field that arrives in its debug rendering: only `target` is kept.
    pub fn record_debug(&mut self, name: &str, rendered: &str)
        ensures
            name@ == "target"@ ==> text_of(final(self).target) == Some(rendered@),
            name@ != "target"@ ==> final(self).target == old(self).target,
            final(self).username == old(self).username,
            final(self).action == old(self).action,
    {
        if String::from_str(name) == String::from_str("target") {
            self.target = Some(String::from_str(rendered));
        }
    }
}

} // verus!
