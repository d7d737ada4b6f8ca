//! The server's per-connection SFTP session: version exchange, path resolution under
//! the virtual root, the handle table, the readdir cursor, and the audit records of
//! successful operations.
use vstd::prelude::*;
use crate::audit::{AuditAction, AuditRecord};
use crate::listing::{decimal, push_decimal};
use crate::path::{is_absolute, lemma_render_prefix};
use crate::vroot::{real_of, PathError, VirtualRoot};

verus! {

/// Protocol status codes with which a request fails.
#[derive(Debug, Clone, Copy, PartialEq, Eq, Structural)]
pub enum StatusCode {
    Eof,
    NoSuchFile,
    PermissionDenied,
    Failure,
    ConnectionLost,
    OpUnsupported,
    InvalidHandle,
}

/// How a filesystem call on the host failed.
#[derive(Debug, Clone, Copy, PartialEq, Eq, Structural)]
pub enum IoFailure {
    NotFound,
    PermissionDenied,
    Other,
}

pub open spec fn status_of_io(f: IoFailure) -> StatusCode {
    match f {
        IoFailure::NotFound => StatusCode::NoSuchFile,
        IoFailure::PermissionDenied => StatusCode::PermissionDenied,
        IoFailure::Other => StatusCode::Failure,
    }
}

/// The status with which a failed host call is answered.
pub fn status_from_io(f: IoFailure) -> (r: StatusCode)
    ensures
        r == status_of_io(f),
{
    match f {
        IoFailure::NotFound => StatusCode::NoSuchFile,
        IoFailure::PermissionDenied => StatusCode::PermissionDenied,
        IoFailure::Other => StatusCode::Failure,
    }
}

/// The status with which a failed host `open` is answered: a refused permission is
/// `PermissionDenied`, any other failure `NoSuchFile`.
pub open spec fn open_status_of_io(f: IoFailure) -> StatusCode {
    match f {
        IoFailure::PermissionDenied => StatusCode::PermissionDenied,
        IoFailure::NotFound | IoFailure::Other => StatusCode::NoSuchFile,
    }
}

/// The status with which a failed host `open` is answered.
pub fn open_status_from_io(f: IoFailure) -> (r: StatusCode)
    ensures
        r == open_status_of_io(f),
{
    match f {
        IoFailure::PermissionDenied => StatusCode::PermissionDenied,
        IoFailure::NotFound | IoFailure::Other => StatusCode::NoSuchFile,
    }
}

/// The protocol version the server speaks.
pub const SFTP_VERSION: u32 = 3;

/// Whether the version exchange has happened, and with which client version.
#[derive(Debug, Clone, Copy, PartialEq, Eq, Structural)]
pub enum SessionState {
    Uninitialised,
    Ready(u32),
}

/// Attributes of a listed file, as the protocol carries them.
#[derive(Debug, Clone)]
pub struct Attrs {
    pub size: Option<u64>,
    pub uid: Option<u32>,
    pub user: Option<String>,
    pub gid: Option<u32>,
    pub group: Option<String>,
    pub permissions: Option<u32>,
    pub atime: Option<u32>,
    pub mtime: Option<u32>,
}

/// One entry of a name reply.
#[derive(Debug, Clone)]
pub struct NameEntry {
    pub filename: String,
    pub longname: String,
    pub attrs: Attrs,
}

/// One handle: the real path it was opened on, whether it is a directory, and for a
/// directory whether its entries were already delivered.
pub struct HandleEntry {
    pub token: String,
    pub real_path: String,
    pub is_dir: bool,
    pub drained: bool,
}

/// What the table knows of a handle: real path, directory or not, drained or not.
pub type HandleInfo = (Seq<char>, bool, bool);

/// The token of the handle opened by request `id`: `handle_<id>`.
pub open spec fn token_text(id: u32) -> Seq<char> {
    "handle_"@ + decimal(id as nat)
}

/// The virtual path that a request path names from the working directory `cwd`.
pub open spec fn join_cwd(cwd: Seq<char>, p: Seq<char>) -> Seq<char> {
    if is_absolute(p) {
        p
    } else if cwd.len() > 0 && cwd.last() == '/' {
        cwd + p
    } else {
        cwd + seq!['/'] + p
    }
}

/// The real path a request path resolves to; a sandbox violation is refused with
/// `PermissionDenied`.
pub open spec fn resolve_spec(root: Seq<Seq<char>>, cwd: Seq<char>, p: Seq<char>) -> Result<Seq<char>, StatusCode> {
    match real_of(root, join_cwd(cwd, p)) {
        Ok(r) => Ok(r),
        Err(_) => Err(StatusCode::PermissionDenied),
    }
}

/// The record of `action` on `target` by `user`.
pub open spec fn record_is(r: AuditRecord, user: Seq<char>, action: AuditAction, target: Seq<char>) -> bool {
    r.username@ == user && r.action == action && r.target@ == target
}

/// `readdir` on handle `h` of the table `m` before any listing: an unknown handle or a
/// file is invalid; a drained directory is at its end.
pub open spec fn readdir_start_spec(m: Map<Seq<char>, HandleInfo>, h: Seq<char>) -> Result<Seq<char>, StatusCode> {
    if !m.contains_key(h) || !m[h].1 {
        Err(StatusCode::InvalidHandle)
    } else if m[h].2 {
        Err(StatusCode::Eof)
    } else {
        Ok(m[h].0)
    }
}

/// The real path of the file under handle `h`; an unknown handle or a directory is
/// invalid.
pub open spec fn file_handle_spec(m: Map<Seq<char>, HandleInfo>, h: Seq<char>) -> Result<Seq<char>, StatusCode> {
    if m.contains_key(h) && !m[h].1 {
        Ok(m[h].0)
    } else {
        Err(StatusCode::InvalidHandle)
    }
}

/// The table after the directory under `h` has delivered its entries.
pub open spec fn drained_at(m: Map<Seq<char>, HandleInfo>, h: Seq<char>) -> Map<Seq<char>, HandleInfo> {
    m.insert(h, (m[h].0, true, true))
}

/// The per-connection session state.
pub struct SftpSession {
    state: SessionState,
    virtual_root: VirtualRoot,
    cwd: String,
    handles: Vec<HandleEntry>,
    map: Ghost<Map<Seq<char>, HandleInfo>>,
    user: String,
}

impl View for SftpSession {
    type V = Map<Seq<char>, HandleInfo>;

    closed spec fn view(&self) -> Map<Seq<char>, HandleInfo> {
        self.map@
    }
}

impl SftpSession {
    pub closed spec fn state(&self) -> SessionState {
        self.state
    }

    pub closed spec fn user(&self) -> Seq<char> {
        self.user@
    }

    pub closed spec fn root(&self) -> Seq<Seq<char>> {
        self.virtual_root.root()
    }

    pub closed spec fn cwd(&self) -> Seq<char> {
        self.cwd@
    }

    pub closed spec fn wf(&self) -> bool {
        &&& forall|j: int| 0 <= j < self.handles.len() ==> {
            &&& self.map@.contains_key(#[trigger] self.handles@[j].token@)
            &&& self.map@[self.handles@[j].token@] == (
                self.handles@[j].real_path@,
                self.handles@[j].is_dir,
                self.handles@[j].drained,
            )
        }
        &&& forall|j: int, l: int|
            0 <= j < self.handles.len() && 0 <= l < self.handles.len() && j != l ==> #[trigger] self.handles@[j].token@
                != #[trigger] self.handles@[l].token@
        &&& forall|k: Seq<char>| #[trigger]
            self.map@.contains_key(k) ==> exists|j: int| 0 <= j < self.handles.len() && self.handles@[j].token@ == k
    }

    /// A session for `user`, serving the tree under `root`; the working directory is `/`.
    pub fn new_with_username(user: String, root: VirtualRoot) -> (r: SftpSession)
        ensures
            r.wf(),
            r@ == Map::<Seq<char>, HandleInfo>::empty(),
            r.state() == SessionState::Uninitialised,
            r.user() == user@,
            r.root() == root.root(),
            r.cwd() == seq!['/'],
    {
        let cwd = String::from_str("/");
        proof {
            reveal_strlit("/");
        }
        assert(cwd@ =~= seq!['/']);
        SftpSession {
            state: SessionState::Uninitialised,
            virtual_root: root,
            cwd,
            handles: Vec::new(),
            map: Ghost(Map::empty()),
            user,
        }
    }

    /// The client's name.
    pub fn user_name(&self) -> (r: &str)
        ensures
            r@ == self.user(),
    {
        self.user.as_str()
    }

    /// The version exchange: accepted once; a second `init` is a protocol error.
    pub fn init(&mut self, version: u32) -> (r: Result<u32, StatusCode>)
        requires
            old(self).wf(),
        ensures
            final(self).wf(),
            final(self)@ == old(self)@,
            final(self).user() == old(self).user(),
            final(self).root() == old(self).root(),
            final(self).cwd() == old(self).cwd(),
            old(self).state() is Ready ==> r == Err::<u32, StatusCode>(StatusCode::ConnectionLost)
                && final(self).state() == old(self).state(),
            old(self).state() is Uninitialised ==> r == Ok::<u32, StatusCode>(SFTP_VERSION)
                && final(self).state() == SessionState::Ready(version),
    {
        match self.state {
            SessionState::Ready(_) => Err(StatusCode::ConnectionLost),
            SessionState::Uninitialised => {
                self.state = SessionState::Ready(version);
                Ok(SFTP_VERSION)
            },
        }
    }

    /// The answer to operations the server does not offer.
    pub fn unimplemented(&self) -> (r: StatusCode)
        ensures
            r == StatusCode::OpUnsupported,
    {
        StatusCode::OpUnsupported
    }

    /// The real path that the request path `path` names: joined to the working
    /// directory and resolved under the virtual root.
    pub fn resolve(&self, path: &str) -> (r: Result<String, StatusCode>)
        ensures
            r matches Ok(s) ==> resolve_spec(self.root(), self.cwd(), path@) == Ok::<Seq<char>, StatusCode>(s@),
            r matches Err(e) ==> resolve_spec(self.root(), self.cwd(), path@) == Err::<Seq<char>, StatusCode>(e),
    {
        let v = join_to(&self.cwd, path);
        match self.virtual_root.to_real_path(v.as_str()) {
            Ok(r) => Ok(r),
            Err(_) => Err(StatusCode::PermissionDenied),
        }
    }

    /// The virtual path under which the real path `real_path` is shown to the client,
    /// for `realpath`; a path outside the root is refused with `PermissionDenied`.
    pub fn virtual_name(&self, real_path: &str) -> (r: Result<String, StatusCode>)
        ensures
            r matches Ok(v) ==> crate::vroot::virtual_of(self.root(), real_path@) == Ok::<Seq<char>, PathError>(v@),
            r matches Err(e) ==> e == StatusCode::PermissionDenied && crate::vroot::virtual_of(self.root(), real_path@) is Err,
    {
        match self.virtual_root.to_virtual_path(real_path) {
            Ok(v) => Ok(v),
            Err(_) => Err(StatusCode::PermissionDenied),
        }
    }

    /// The record of a successful `action` on `target`.
    fn record(&self, action: AuditAction, target: &str) -> (r: AuditRecord)
        ensures
            record_is(r, self.user(), action, target@),
    {
        AuditRecord { username: self.user.clone(), action, target: String::from_str(target) }
    }

    /// Completes an operation on the request path `path` (`remove`, `mkdir`, `rmdir`,
    /// `realpath`, and `rename` by its old path) once the host call has returned
    /// `outcome`: on success, exactly one record of `action` on the real path.
    pub fn finish_path_op(&self, action: AuditAction, path: &str, outcome: Result<(), IoFailure>) -> (r: Result<AuditRecord, StatusCode>)
        ensures
            resolve_spec(self.root(), self.cwd(), path@) matches Err(e) ==> r == Err::<AuditRecord, StatusCode>(e),
            resolve_spec(self.root(), self.cwd(), path@) is Ok ==> (outcome matches Err(f) ==> r == Err::<AuditRecord, StatusCode>(status_of_io(f))),
            r matches Ok(rec) ==> outcome is Ok && resolve_spec(self.root(), self.cwd(), path@) is Ok
                && record_is(rec, self.user(), action, resolve_spec(self.root(), self.cwd(), path@)->Ok_0),
            resolve_spec(self.root(), self.cwd(), path@) is Ok && outcome is Ok ==> r is Ok,
    {
        let target = match self.resolve(path) {
            Ok(target) => target,
            Err(e) => return Err(e),
        };
        match outcome {
            Err(f) => Err(status_from_io(f)),
            Ok(()) => Ok(self.record(action, target.as_str())),
        }
    }

    /// Position of the entry for `token`.
    fn find(&self, token: &String) -> (r: Option<usize>)
        requires
            self.wf(),
        ensures
            r matches Some(j) ==> j < self.handles.len() && self.handles@[j as int].token@ == token@,
            r is None ==> !self@.contains_key(token@),
    {
        let mut j: usize = 0;
        while j < self.handles.len()
            invariant
                j <= self.handles.len(),
                forall|l: int| 0 <= l < j ==> self.handles@[l].token@ != token@,
            decreases self.handles.len() - j,
        {
            if self.handles[j].token == *token {
                return Some(j);
            }
            j = j + 1;
        }
        proof {
            if self.map@.contains_key(token@) {
                let l = choose|l: int| 0 <= l < self.handles.len() && self.handles@[l].token@ == token@;
            }
        }
        None
    }

    /// Binds `token` to a new entry, replacing any entry it had.
    fn put(&mut self, entry: HandleEntry)
        requires
            old(self).wf(),
        ensures
            final(self).wf(),
            final(self)@ == old(self)@.insert(entry.token@, (entry.real_path@, entry.is_dir, entry.drained)),
            final(self).state() == old(self).state(),
            final(self).user() == old(self).user(),
            final(self).root() == old(self).root(),
            final(self).cwd() == old(self).cwd(),
    {
        let ghost info = (entry.real_path@, entry.is_dir, entry.drained);
        let ghost key = entry.token@;
        let ghost old_list = self.handles@;
        let ghost new_map = self.map@.insert(key, info);
        match self.find(&entry.token) {
            Some(j) => {
                self.handles.set(j, entry);
                self.map = Ghost(new_map);
                proof {
                    assert forall|l: int| 0 <= l < self.handles.len() implies {
                        &&& self.map@.contains_key(#[trigger] self.handles@[l].token@)
                        &&& self.map@[self.handles@[l].token@] == (
                            self.handles@[l].real_path@,
                            self.handles@[l].is_dir,
                            self.handles@[l].drained,
                        )
                    } by {
                        if l != j {
                            assert(self.handles@[l] == old_list[l]);
                            assert(old_list[l].token@ != old_list[j as int].token@);
                        }
                    }
                    assert forall|k: Seq<char>| #[trigger] self.map@.contains_key(k) implies exists|l: int|
                        0 <= l < self.handles.len() && self.handles@[l].token@ == k by {
                        if k == key {
                            assert(self.handles@[j as int].token@ == k);
                        } else {
                            let l = choose|l: int| 0 <= l < old_list.len() && old_list[l].token@ == k;
                            assert(self.handles@[l] == old_list[l]);
                        }
                    }
                }
            },
            None => {
                self.handles.push(entry);
                self.map = Ghost(new_map);
                proof {
                    assert forall|l: int| 0 <= l < self.handles.len() implies {
                        &&& self.map@.contains_key(#[trigger] self.handles@[l].token@)
                        &&& self.map@[self.handles@[l].token@] == (
                            self.handles@[l].real_path@,
                            self.handles@[l].is_dir,
                            self.handles@[l].drained,
                        )
                    } by {
                        if l < old_list.len() {
                            assert(self.handles@[l] == old_list[l]);
                            assert(old(self).map@.contains_key(old_list[l].token@));
                        }
                    }
                    assert forall|a: int, b: int|
                        0 <= a < self.handles.len() && 0 <= b < self.handles.len() && a != b implies #[trigger] self.handles@[a].token@
                            != #[trigger] self.handles@[b].token@ by {
                        if a < old_list.len() {
                            assert(self.handles@[a] == old_list[a]);
                            assert(old(self).map@.contains_key(old_list[a].token@));
                        }
                        if b < old_list.len() {
                            assert(self.handles@[b] == old_list[b]);
                            assert(old(self).map@.contains_key(old_list[b].token@));
                        }
                    }
                    assert forall|k: Seq<char>| #[trigger] self.map@.contains_key(k) implies exists|l: int|
                        0 <= l < self.handles.len() && self.handles@[l].token@ == k by {
                        if k == key {
                            assert(self.handles@[old_list.len() as int].token@ == k);
                        } else {
                            let l = choose|l: int| 0 <= l < old_list.len() && old_list[l].token@ == k;
                            assert(self.handles@[l] == old_list[l]);
                        }
                    }
                }
            },
        }
    }

    /// `open` once the host has tried to open the file that `filename` resolves to: the
    /// file gets the handle `handle_<id>`, and one `Open` record is made. A host failure
    /// is answered with `PermissionDenied` when permission was refused, else `NoSuchFile`.
    pub fn open(&mut self, id: u32, filename: &str, outcome: Result<(), IoFailure>) -> (r: Result<(String, AuditRecord), StatusCode>)
        requires
            old(self).wf(),
        ensures
            final(self).wf(),
            final(self).state() == old(self).state(),
            final(self).user() == old(self).user(),
            final(self).root() == old(self).root(),
            final(self).cwd() == old(self).cwd(),
            resolve_spec(old(self).root(), old(self).cwd(), filename@) matches Err(e) ==> r == Err::<(String, AuditRecord), StatusCode>(e),
            resolve_spec(old(self).root(), old(self).cwd(), filename@) is Ok ==> (outcome matches Err(f) ==> r == Err::<(String, AuditRecord), StatusCode>(open_status_of_io(f))),
            r is Err ==> final(self)@ == old(self)@,
            resolve_spec(old(self).root(), old(self).cwd(), filename@) is Ok && outcome is Ok ==> r is Ok,
            r matches Ok((token, rec)) ==> {
                let target = resolve_spec(old(self).root(), old(self).cwd(), filename@)->Ok_0;
                &&& token@ == token_text(id)
                &&& final(self)@ == old(self)@.insert(token@, (target, false, false))
                &&& record_is(rec, old(self).user(), AuditAction::Open, target)
            },
    {
        let target = match self.resolve(filename) {
            Ok(target) => target,
            Err(e) => return Err(e),
        };
        if let Err(f) = outcome {
            return Err(open_status_from_io(f));
        }
        let token = handle_token(id);
        let rec = self.record(AuditAction::Open, target.as_str());
        self.put(HandleEntry { token: token.clone(), real_path: target, is_dir: false, drained: false });
        Ok((token, rec))
    }

    /// `opendir` on the directory that `path` resolves to: it gets the handle
    /// `handle_<id>` with its entries not yet delivered, and one `OpenDir` record is made.
    pub fn opendir(&mut self, id: u32, path: &str) -> (r: Result<(String, AuditRecord), StatusCode>)
        requires
            old(self).wf(),
        ensures
            final(self).wf(),
            final(self).state() == old(self).state(),
            final(self).user() == old(self).user(),
            final(self).root() == old(self).root(),
            final(self).cwd() == old(self).cwd(),
            resolve_spec(old(self).root(), old(self).cwd(), path@) matches Err(e) ==> r == Err::<(String, AuditRecord), StatusCode>(e)
                && final(self)@ == old(self)@,
            resolve_spec(old(self).root(), old(self).cwd(), path@) is Ok ==> r is Ok,
            r matches Ok((token, rec)) ==> {
                let target = resolve_spec(old(self).root(), old(self).cwd(), path@)->Ok_0;
                &&& token@ == token_text(id)
                &&& final(self)@ == old(self)@.insert(token@, (target, true, false))
                &&& record_is(rec, old(self).user(), AuditAction::OpenDir, target)
            },
    {
        let target = match self.resolve(path) {
            Ok(target) => target,
            Err(e) => return Err(e),
        };
        let token = handle_token(id);
        let rec = self.record(AuditAction::OpenDir, target.as_str());
        self.put(HandleEntry { token: token.clone(), real_path: target, is_dir: true, drained: false });
        Ok((token, rec))
    }

    /// `close`: the handle goes, and one `Close` record is made; every later operation
    /// on it fails with `InvalidHandle`.
    pub fn close(&mut self, handle: &str) -> (r: Result<AuditRecord, StatusCode>)
        requires
            old(self).wf(),
        ensures
            final(self).wf(),
            final(self).state() == old(self).state(),
            final(self).user() == old(self).user(),
            final(self).root() == old(self).root(),
            final(self).cwd() == old(self).cwd(),
            final(self)@ == old(self)@.remove(handle@),
            !old(self)@.contains_key(handle@) ==> r == Err::<AuditRecord, StatusCode>(StatusCode::InvalidHandle),
            old(self)@.contains_key(handle@) ==> (r matches Ok(rec) && record_is(
                rec,
                old(self).user(),
                AuditAction::Close,
                old(self)@[handle@].0,
            )),
    {
        let key = String::from_str(handle);
        match self.find(&key) {
            None => {
                assert(self.map@.remove(handle@) =~= self.map@);
                Err(StatusCode::InvalidHandle)
            },
            Some(j) => {
                let ghost old_list = self.handles@;
                let ghost new_map = self.map@.remove(handle@);
                let entry = self.handles.remove(j);
                self.map = Ghost(new_map);
                proof {
                    assert forall|l: int| 0 <= l < self.handles.len() implies {
                        &&& self.map@.contains_key(#[trigger] self.handles@[l].token@)
                        &&& self.map@[self.handles@[l].token@] == (
                            self.handles@[l].real_path@,
                            self.handles@[l].is_dir,
                            self.handles@[l].drained,
                        )
                    } by {
                        let l0 = if l < j { l } else { l + 1 };
                        assert(self.handles@[l] == old_list[l0]);
                        assert(old_list[l0].token@ != old_list[j as int].token@);
                    }
                    assert forall|a: int, b: int|
                        0 <= a < self.handles.len() && 0 <= b < self.handles.len() && a != b implies #[trigger] self.handles@[a].token@
                            != #[trigger] self.handles@[b].token@ by {
                        let a0 = if a < j { a } else { a + 1 };
                        let b0 = if b < j { b } else { b + 1 };
                        assert(self.handles@[a] == old_list[a0]);
                        assert(self.handles@[b] == old_list[b0]);
                    }
                    assert forall|k: Seq<char>| #[trigger] self.map@.contains_key(k) implies exists|l: int|
                        0 <= l < self.handles.len() && self.handles@[l].token@ == k by {
                        let l0 = choose|l: int| 0 <= l < old_list.len() && old_list[l].token@ == k;
                        if l0 < j {
                            assert(self.handles@[l0] == old_list[l0]);
                        } else {
                            assert(l0 != j);
                            assert(self.handles@[l0 - 1] == old_list[l0]);
                        }
                    }
                }
                Ok(self.record(AuditAction::Close, entry.real_path.as_str()))
            },
        }
    }

    /// The real path of the open file under `handle` (for `fstat`, `read`, `write`);
    /// `InvalidHandle` for an unknown handle or a directory.
    pub fn file_path(&self, handle: &str) -> (r: Result<String, StatusCode>)
        requires
            self.wf(),
        ensures
            r matches Ok(p) ==> file_handle_spec(self@, handle@) == Ok::<Seq<char>, StatusCode>(p@),
            r matches Err(e) ==> file_handle_spec(self@, handle@) == Err::<Seq<char>, StatusCode>(e),
    {
        let key = String::from_str(handle);
        match self.find(&key) {
            None => Err(StatusCode::InvalidHandle),
            Some(j) => {
                if self.handles[j].is_dir {
                    Err(StatusCode::InvalidHandle)
                } else {
                    Ok(self.handles[j].real_path.clone())
                }
            },
        }
    }

    /// `read` before the host read: the real path of the file, or `Eof` when `offset`
    /// is at or past the end of the file, `file_size` bytes long.
    pub fn read_start(&self, handle: &str, offset: u64, file_size: u64) -> (r: Result<String, StatusCode>)
        requires
            self.wf(),
        ensures
            !(self@.contains_key(handle@) && !self@[handle@].1) ==> r == Err::<String, StatusCode>(StatusCode::InvalidHandle),
            self@.contains_key(handle@) && !self@[handle@].1 && offset >= file_size ==> r == Err::<String, StatusCode>(StatusCode::Eof),
            self@.contains_key(handle@) && !self@[handle@].1 && offset < file_size ==> (r matches Ok(p) && p@ == self@[handle@].0),
    {
        let p = self.file_path(handle)?;
        if offset >= file_size {
            Err(StatusCode::Eof)
        } else {
            Ok(p)
        }
    }

    /// `read` once the host has read `data` for a request of `len` bytes: at most `len`
    /// bytes go back, and one `Read` record is made.
    pub fn read_done(&self, handle: &str, len: u32, data: Vec<u8>) -> (r: Result<(Vec<u8>, AuditRecord), StatusCode>)
        requires
            self.wf(),
        ensures
            !(self@.contains_key(handle@) && !self@[handle@].1) ==> r == Err::<(Vec<u8>, AuditRecord), StatusCode>(StatusCode::InvalidHandle),
            self@.contains_key(handle@) && !self@[handle@].1 ==> (r matches Ok((bytes, rec)) && bytes@ == (
                if data@.len() <= len { data@ } else { data@.take(len as int) }) && record_is(
                rec,
                self.user(),
                AuditAction::Read,
                self@[handle@].0,
            )),
    {
        let p = self.file_path(handle)?;
        let mut data = data;
        if data.len() > len as usize {
            data.truncate(len as usize);
        }
        Ok((data, self.record(AuditAction::Read, p.as_str())))
    }

    /// `write` once the host has taken `outcome` bytes of the `supplied`: a short write is
    /// answered with `Eof`; a full one makes one `Write` record.
    pub fn write_done(&self, handle: &str, supplied: usize, outcome: Result<usize, IoFailure>) -> (r: Result<AuditRecord, StatusCode>)
        requires
            self.wf(),
        ensures
            !(self@.contains_key(handle@) && !self@[handle@].1) ==> r == Err::<AuditRecord, StatusCode>(StatusCode::InvalidHandle),
            self@.contains_key(handle@) && !self@[handle@].1 ==> {
                &&& outcome matches Err(f) ==> r == Err::<AuditRecord, StatusCode>(status_of_io(f))
                &&& outcome matches Ok(n) ==> (n < supplied ==> r == Err::<AuditRecord, StatusCode>(StatusCode::Eof))
                &&& outcome matches Ok(n) ==> (n >= supplied ==> (r matches Ok(rec) && record_is(
                    rec,
                    self.user(),
                    AuditAction::Write,
                    self@[handle@].0,
                )))
            },
    {
        let p = self.file_path(handle)?;
        match outcome {
            Err(f) => Err(status_from_io(f)),
            Ok(n) => {
                if n < supplied {
                    Err(StatusCode::Eof)
                } else {
                    Ok(self.record(AuditAction::Write, p.as_str()))
                }
            },
        }
    }

    /// `readdir` before listing: the real path of the directory under `handle`, `Eof` once
    /// its entries were delivered, `InvalidHandle` for an unknown handle or a file.
    pub fn readdir_start(&self, handle: &str) -> (r: Result<String, StatusCode>)
        requires
            self.wf(),
        ensures
            r matches Ok(p) ==> readdir_start_spec(self@, handle@) == Ok::<Seq<char>, StatusCode>(p@),
            r matches Err(e) ==> readdir_start_spec(self@, handle@) == Err::<Seq<char>, StatusCode>(e),
    {
        let key = String::from_str(handle);
        match self.find(&key) {
            None => Err(StatusCode::InvalidHandle),
            Some(j) => {
                if !self.handles[j].is_dir {
                    Err(StatusCode::InvalidHandle)
                } else if self.handles[j].drained {
                    Err(StatusCode::Eof)
                } else {
                    Ok(self.handles[j].real_path.clone())
                }
            },
        }
    }

    /// `readdir` once the host has listed the directory: `.` (the directory itself) and
    /// `..` (its parent) followed by `children`, each delivered once; the handle is
    /// drained, so the next `readdir` on it answers `Eof`, and one `ReadDir` record is made.
    pub fn readdir_done(&mut self, handle: &str, here: NameEntry, parent: NameEntry, children: Vec<NameEntry>) -> (r: Result<(Vec<NameEntry>, AuditRecord), StatusCode>)
        requires
            old(self).wf(),
        ensures
            final(self).wf(),
            final(self).state() == old(self).state(),
            final(self).user() == old(self).user(),
            final(self).root() == old(self).root(),
            final(self).cwd() == old(self).cwd(),
            readdir_start_spec(old(self)@, handle@) matches Err(e) ==> r == Err::<(Vec<NameEntry>, AuditRecord), StatusCode>(e)
                && final(self)@ == old(self)@,
            readdir_start_spec(old(self)@, handle@) is Ok ==> (r matches Ok((entries, rec)) && {
                &&& final(self)@ == drained_at(old(self)@, handle@)
                &&& entries@.len() == children@.len() + 2
                &&& entries@[0].filename@ == seq!['.']
                &&& entries@[0].longname == here.longname
                &&& entries@[1].filename@ == seq!['.', '.']
                &&& entries@[1].longname == parent.longname
                &&& entries@.skip(2) == children@
                &&& record_is(rec, old(self).user(), AuditAction::ReadDir, old(self)@[handle@].0)
            }),
    {
        let target = self.readdir_start(handle)?;
        let rec = self.record(AuditAction::ReadDir, target.as_str());
        self.put(HandleEntry { token: String::from_str(handle), real_path: target, is_dir: true, drained: true });
        proof {
            reveal_strlit(".");
            reveal_strlit("..");
        }
        let mut entries: Vec<NameEntry> = Vec::new();
        entries.push(NameEntry { filename: String::from_str("."), longname: here.longname, attrs: here.attrs });
        entries.push(NameEntry { filename: String::from_str(".."), longname: parent.longname, attrs: parent.attrs });
        let mut rest = children;
        let ghost kids = rest@;
        entries.append(&mut rest);
        assert(entries@.skip(2) =~= kids);
        assert("."@ =~= seq!['.']);
        assert(".."@ =~= seq!['.', '.']);
        Ok((entries, rec))
    }
}

/// The virtual path that the request path `p` names from the directory `cwd`.
fn join_to(cwd: &String, p: &str) -> (r: String)
    ensures
        r@ == join_cwd(cwd@, p@),
{
    let cs = crate::path::chars_of(p);
    if cs.len() > 0 && cs[0] == '/' {
        return String::from_str(p);
    }
    let ds = crate::path::chars_of(cwd.as_str());
    let mut out = cwd.clone();
    if !(ds.len() > 0 && ds[ds.len() - 1] == '/') {
        out.append("/");
        proof {
            reveal_strlit("/");
        }
        assert("/"@ =~= seq!['/']);
    }
    out.append(p);
    out
}

/// The token `handle_<id>`.
pub fn handle_token(id: u32) -> (r: String)
    ensures
        r@ == token_text(id),
{
    let mut t = String::from_str("handle_");
    push_decimal(&mut t, id as u64);
    t
}

/// A `readdir` on a directory handle whose entries are not yet delivered answers with a
/// listing, and the next one on the same handle answers `Eof`.
pub proof fn lemma_readdir_then_eof(m: Map<Seq<char>, HandleInfo>, h: Seq<char>)
    requires
        m.contains_key(h),
        m[h].1,
        !m[h].2,
    ensures
        readdir_start_spec(m, h) == Ok::<Seq<char>, StatusCode>(m[h].0),
        readdir_start_spec(drained_at(m, h), h) == Err::<Seq<char>, StatusCode>(StatusCode::Eof),
{
}

/// A directory handle that `opendir` has just made answers its first `readdir` with a
/// listing (which `readdir_done` gives as `.`, `..` and then each child once), and its
/// second with `Eof`.
pub proof fn lemma_opendir_readdir_eof(m: Map<Seq<char>, HandleInfo>, h: Seq<char>, dir: Seq<char>)
    ensures
        readdir_start_spec(m.insert(h, (dir, true, false)), h) == Ok::<Seq<char>, StatusCode>(dir),
        readdir_start_spec(drained_at(m.insert(h, (dir, true, false)), h), h) == Err::<Seq<char>, StatusCode>(
            StatusCode::Eof,
        ),
{
}

/// Once a handle is closed, every operation on it fails with `InvalidHandle`.
pub proof fn lemma_closed_handle_invalid(m: Map<Seq<char>, HandleInfo>, h: Seq<char>)
    ensures
        file_handle_spec(m.remove(h), h) == Err::<Seq<char>, StatusCode>(StatusCode::InvalidHandle),
        readdir_start_spec(m.remove(h), h) == Err::<Seq<char>, StatusCode>(StatusCode::InvalidHandle),
{
}

/// Every real path a request resolves to, and so the target of every record, lies under
/// the virtual root.
pub proof fn lemma_resolved_inside(root: Seq<Seq<char>>, cwd: Seq<char>, p: Seq<char>)
    requires
        crate::path::valid_components(root),
    ensures
        resolve_spec(root, cwd, p) matches Ok(r) ==> crate::path::render(root).is_prefix_of(r)
            && crate::vroot::inside_of(root, r) is Ok,
{
    if let Ok(r) = real_of(root, join_cwd(cwd, p)) {
        let v = join_cwd(cwd, p);
        let c = crate::path::components(v)->0;
        lemma_render_prefix(root, c);
        crate::path::lemma_components_valid(v);
        crate::path::lemma_valid_append(root, c);
        crate::path::lemma_parse_render(root + c);
        crate::path::lemma_render_absolute(root + c);
        assert(root.is_prefix_of(root + c)) by {
            assert((root + c).take(root.len() as int) =~= root);
        }
    }
}

} // verus!
