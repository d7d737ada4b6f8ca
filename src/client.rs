//! The client's userspace-filesystem adapter: what each kernel callback decides, given
//! what the remote SFTP server answered.
use vstd::prelude::*;
use crate::handles::FHandlers;
use crate::inodes::{holds_path, inode_of, path_of, Inodes};
use crate::path::chars_of;
use crate::codes::{
    errno_from, errno_spec, kind_of_mode, kind_spec, FileKind, RemoteError, EBADF, EIO, ENOENT,
};

verus! {

/// The inode of the mounted root, and of the `.` and `..` entries of every listing.
pub const ROOT_INODE: u64 = 1;

/// Seconds for which the kernel may cache an entry or its attributes.
pub const ATTR_TTL_SECS: u64 = 1;

/// Block size reported for every file.
pub const BLOCK_SIZE: u32 = 1024;

/// Attributes of a remote file as the SFTP server reports them; a server may leave
/// any of them out.
#[derive(Debug, Clone, Copy, PartialEq, Eq)]
pub struct RemoteStat {
    pub size: Option<u64>,
    pub uid: Option<u32>,
    pub gid: Option<u32>,
    pub perm: Option<u32>,
    pub atime: Option<u64>,
    pub mtime: Option<u64>,
}

/// Attributes handed to the kernel; times are seconds since the epoch.
#[derive(Debug, Clone, Copy, PartialEq, Eq, Structural)]
pub struct FileAttr {
    pub ino: u64,
    pub size: u64,
    pub blocks: u64,
    pub atime: u64,
    pub mtime: u64,
    pub ctime: u64,
    pub crtime: u64,
    pub kind: FileKind,
    pub perm: u16,
    pub nlink: u32,
    pub uid: u32,
    pub gid: u32,
    pub rdev: u32,
    pub blksize: u32,
    pub flags: u32,
}

pub open spec fn or_zero(v: Option<u64>) -> u64 {
    match v {
        Some(x) => x,
        None => 0,
    }
}

pub open spec fn or_zero32(v: Option<u32>) -> u32 {
    match v {
        Some(x) => x,
        None => 0,
    }
}

/// The permission bits reported when the server gives none.
pub const DEFAULT_PERM: u32 = 0o666;

/// The attributes of inode `ino` whose remote stat is `st`: absent fields count as
/// zero (permissions as `0o666`), one block per started KiB plus one, the
/// modification time standing in for the change and creation times.
pub open spec fn attr_spec(ino: u64, st: RemoteStat) -> FileAttr {
    let perm = match st.perm {
        Some(p) => p,
        None => DEFAULT_PERM,
    };
    FileAttr {
        ino,
        size: or_zero(st.size),
        blocks: (or_zero(st.size) / 1024 + 1) as u64,
        atime: or_zero(st.atime),
        mtime: or_zero(st.mtime),
        ctime: or_zero(st.mtime),
        crtime: or_zero(st.mtime),
        kind: kind_spec(or_zero32(st.perm)),
        perm: perm as u16,
        nlink: 1,
        uid: or_zero32(st.uid),
        gid: or_zero32(st.gid),
        rdev: 1,
        blksize: BLOCK_SIZE,
        flags: 0,
    }
}

/// What follows the last `/` of `p`.
pub open spec fn after_last_slash(p: Seq<char>) -> Seq<char>
    decreases p.len(),
{
    if p.len() == 0 {
        Seq::empty()
    } else if p.last() == '/' {
        Seq::empty()
    } else {
        after_last_slash(p.drop_last()).push(p.last())
    }
}

/// The name under which a listed path appears: its last component, or the whole path
/// when that is empty.
pub open spec fn entry_name(p: Seq<char>) -> Seq<char> {
    if after_last_slash(p).len() > 0 {
        after_last_slash(p)
    } else {
        p
    }
}

/// `name` inside the directory `parent`.
pub open spec fn child_spec(parent: Seq<char>, name: Seq<char>) -> Seq<char> {
    if parent.len() > 0 && parent.last() == '/' {
        parent + name
    } else {
        parent + seq!['/'] + name
    }
}

/// One entry of a remote directory listing: the entry's full path and its mode.
#[derive(Debug, Clone)]
pub struct RemoteEntry {
    pub path: String,
    pub perm: Option<u32>,
}

/// One entry offered to the kernel by `readdir`; `offset` is where the next call resumes.
#[derive(Debug, Clone)]
pub struct DirReply {
    pub ino: u64,
    pub offset: i64,
    pub kind: FileKind,
    pub name: String,
}

/// The name of the entry at index `i` of a listing with the synthetic `..` and `.`
/// in front.
pub open spec fn listed_name(listing: Seq<RemoteEntry>, i: int) -> Seq<char> {
    if i == 0 {
        seq!['.', '.']
    } else if i == 1 {
        seq!['.']
    } else {
        entry_name(listing[i - 2].path@)
    }
}

/// The kind of the entry at index `i` of a listing with `..` and `.` in front.
pub open spec fn listed_kind(listing: Seq<RemoteEntry>, i: int) -> FileKind {
    if i < 2 {
        FileKind::Directory
    } else {
        kind_spec(or_zero32(listing[i - 2].perm))
    }
}

/// Where `readdir` at kernel offset `offset` starts in the listing with `..` and `.`
/// in front: a negative offset is past every entry.
pub open spec fn start_index(offset: i64, n: int) -> int {
    if offset < 0 || offset > n {
        n
    } else {
        offset as int
    }
}

/// `readdir`'s reply for `listing` from kernel offset `offset`, given the inode table
/// `m` after the call: each entry from the start index on, with its index plus one as
/// the next offset; `..` and `.` have the root inode, every other entry the inode of its
/// path.
pub open spec fn readdir_reply_ok(
    listing: Seq<RemoteEntry>,
    offset: i64,
    out: Seq<DirReply>,
    m: Map<u64, Seq<char>>,
) -> bool {
    let n = listing.len() + 2;
    let start = start_index(offset, n as int);
    &&& out.len() == n - start
    &&& forall|k: int|
        0 <= k < out.len() ==> {
            let i = start + k;
            &&& (#[trigger] out[k]).offset == i + 1
            &&& out[k].name@ == listed_name(listing, i)
            &&& out[k].kind == listed_kind(listing, i)
            &&& i < 2 ==> out[k].ino == ROOT_INODE
            &&& i >= 2 ==> m.contains_key(out[k].ino) && m[out[k].ino] == listing[i - 2].path@
        }
}

/// Every binding of `a` is in `b`.
pub open spec fn keeps_bindings(a: Map<u64, Seq<char>>, b: Map<u64, Seq<char>>) -> bool {
    forall|k: u64| #[trigger] a.contains_key(k) ==> b.contains_key(k) && b[k] == a[k]
}

/// The state behind a mount: the inode table and the open files.
pub struct Sshfs<F> {
    root_path: String,
    inodes: Inodes,
    file_handles: FHandlers<F>,
}

impl<F> Sshfs<F> {
    /// The inode table, as a map from inode to remote path.
    pub closed spec fn inode_map(&self) -> Map<u64, Seq<char>> {
        self.inodes@
    }

    /// The open files, by handle.
    pub closed spec fn files(&self) -> Map<u64, F> {
        self.file_handles@
    }

    /// The largest inode handed out so far.
    pub closed spec fn allocated(&self) -> u64 {
        self.inodes.allocated()
    }

    /// The handle that the next `open` hands out.
    pub closed spec fn next_handle(&self) -> u64 {
        self.file_handles.next_handle()
    }

    /// The remote directory that was mounted.
    pub closed spec fn mounted(&self) -> Seq<char> {
        self.root_path@
    }

    /// No two inodes of the mount share a path.
    pub proof fn lemma_inodes_injective(&self)
        requires
            self.wf(),
        ensures
            crate::inodes::injective(self.inode_map()),
    {
    }

    pub closed spec fn wf(&self) -> bool {
        &&& self.inodes.wf()
        &&& self.file_handles.wf()
        &&& crate::inodes::injective(self.inodes@)
    }

    /// A fresh mount of the remote directory `root_path`, which gets the root inode.
    pub fn new(root_path: &str) -> (r: Sshfs<F>)
        ensures
            r.wf(),
            r.inode_map() == Map::<u64, Seq<char>>::empty().insert(ROOT_INODE, root_path@),
            r.files() == Map::<u64, F>::empty(),
            r.next_handle() == 0,
            r.mounted() == root_path@,
            r.allocated() == ROOT_INODE,
    {
        let mut inodes = Inodes::new();
        let _ = inodes.add(root_path);
        Sshfs { root_path: String::from_str(root_path), inodes, file_handles: FHandlers::new() }
    }

    /// The remote directory that was mounted.
    pub fn root_path(&self) -> (r: &str)
        ensures
            r@ == self.mounted(),
    {
        self.root_path.as_str()
    }

    /// The inode table.
    pub fn inodes(&self) -> (r: &Inodes)
        ensures
            r@ == self.inode_map(),
    {
        &self.inodes
    }

    /// The remote path of inode `ino`; `ENOENT` when the inode is unknown.
    pub fn path_of_inode(&self, ino: u64) -> (r: Result<String, i32>)
        requires
            self.wf(),
        ensures
            r matches Ok(p) ==> path_of(self.inode_map(), ino) == Some(p@),
            r matches Err(e) ==> e == ENOENT && path_of(self.inode_map(), ino) is None,
    {
        match self.inodes.get_path(ino) {
            Some(p) => Ok(p),
            None => Err(ENOENT),
        }
    }

    /// The remote path of `name` inside the directory with inode `parent`; `ENOENT`
    /// when `parent` is unknown.
    pub fn child_path(&self, parent: u64, name: &str) -> (r: Result<String, i32>)
        requires
            self.wf(),
        ensures
            r matches Ok(p) ==> path_of(self.inode_map(), parent) matches Some(pp) && p@ == child_spec(pp, name@),
            r matches Err(e) ==> e == ENOENT && path_of(self.inode_map(), parent) is None,
    {
        match self.inodes.get_path(parent) {
            None => Err(ENOENT),
            Some(pp) => {
                let cs = chars_of(pp.as_str());
                let mut out = pp;
                if cs.len() > 0 && cs[cs.len() - 1] == '/' {
                    out.append(name);
                } else {
                    out.append("/");
                    proof {
                        reveal_strlit("/");
                    }
                    assert("/"@ =~= seq!['/']);
                    out.append(name);
                }
                Ok(out)
            },
        }
    }

    /// Interns `path` and builds its attributes from `st`; `EIO` when inode numbers
    /// are spent.
    pub fn get_attr(&mut self, path: &str, st: &RemoteStat) -> (r: Result<FileAttr, i32>)
        requires
            old(self).wf(),
        ensures
            final(self).wf(),
            final(self).files() == old(self).files(),
            keeps_bindings(old(self).inode_map(), final(self).inode_map()),
            r matches Ok(a) ==> a == attr_spec(a.ino, *st) && final(self).inode_map().contains_key(a.ino)
                && final(self).inode_map()[a.ino] == path@,
            r matches Err(e) ==> e == EIO,
            holds_path(old(self).inode_map(), path@) ==> r == Ok::<FileAttr, i32>(
                attr_spec(inode_of(old(self).inode_map(), path@)->0, *st),
            ) && final(self).inode_map() == old(self).inode_map(),
            r is Err ==> !holds_path(old(self).inode_map(), path@) && old(self).allocated() == u64::MAX,
            holds_path(old(self).inode_map(), path@) ==> final(self).allocated() == old(self).allocated(),
            !holds_path(old(self).inode_map(), path@) && old(self).allocated() < u64::MAX ==> {
                &&& r == Ok::<FileAttr, i32>(attr_spec((old(self).allocated() + 1) as u64, *st))
                &&& final(self).inode_map() == old(self).inode_map().insert((old(self).allocated() + 1) as u64, path@)
                &&& final(self).allocated() == old(self).allocated() + 1
            },
            final(self).next_handle() == old(self).next_handle(),
            final(self).mounted() == old(self).mounted(),
            old(self).allocated() <= final(self).allocated(),
    {
        proof {
            self.inodes.lemma_bounded();
        }
        match self.inodes.add(path) {
            None => Err(EIO),
            Some(ino) => Ok(attr_from_stat(ino, st)),
        }
    }

    /// `lookup`: the entry for a path the server has just stat'ed; `ENOENT` when the
    /// stat failed.
    pub fn lookup(&mut self, path: &str, stat: Result<RemoteStat, RemoteError>) -> (r: Result<FileAttr, i32>)
        requires
            old(self).wf(),
        ensures
            final(self).wf(),
            final(self).files() == old(self).files(),
            keeps_bindings(old(self).inode_map(), final(self).inode_map()),
            stat is Err ==> r == Err::<FileAttr, i32>(ENOENT) && final(self).inode_map() == old(self).inode_map(),
            stat matches Ok(st) ==> (r matches Ok(a) ==> a == attr_spec(a.ino, st)
                && final(self).inode_map().contains_key(a.ino) && final(self).inode_map()[a.ino] == path@),
            stat matches Ok(st) ==> (r matches Err(e) ==> e == EIO),
            stat matches Ok(st) ==> (holds_path(old(self).inode_map(), path@) ==> r == Ok::<FileAttr, i32>(
                attr_spec(inode_of(old(self).inode_map(), path@)->0, st),
            )),
            stat matches Ok(st) ==> (!holds_path(old(self).inode_map(), path@) && old(self).allocated() < u64::MAX ==> {
                &&& r == Ok::<FileAttr, i32>(attr_spec((old(self).allocated() + 1) as u64, st))
                &&& final(self).inode_map() == old(self).inode_map().insert((old(self).allocated() + 1) as u64, path@)
                &&& final(self).allocated() == old(self).allocated() + 1
            }),
            stat is Ok ==> (r is Err ==> old(self).allocated() == u64::MAX),
            stat is Err ==> final(self).allocated() == old(self).allocated(),
            final(self).next_handle() == old(self).next_handle(),
            final(self).mounted() == old(self).mounted(),
            old(self).allocated() <= final(self).allocated(),
    {
        match stat {
            Err(_) => Err(ENOENT),
            Ok(st) => self.get_attr(path, &st),
        }
    }

    /// `getattr`, `mknod` and `mkdir`: the attributes of a path the server has just
    /// stat'ed; a failed stat gives its errno value.
    pub fn getattr(&mut self, path: &str, stat: Result<RemoteStat, RemoteError>) -> (r: Result<FileAttr, i32>)
        requires
            old(self).wf(),
        ensures
            final(self).wf(),
            final(self).files() == old(self).files(),
            keeps_bindings(old(self).inode_map(), final(self).inode_map()),
            stat matches Err(e) ==> r == Err::<FileAttr, i32>(errno_spec(e)) && final(self).inode_map()
                == old(self).inode_map(),
            stat matches Ok(st) ==> (r matches Ok(a) ==> a == attr_spec(a.ino, st)
                && final(self).inode_map().contains_key(a.ino) && final(self).inode_map()[a.ino] == path@),
            stat matches Ok(st) ==> (r matches Err(e) ==> e == EIO),
            stat matches Ok(st) ==> (holds_path(old(self).inode_map(), path@) ==> r == Ok::<FileAttr, i32>(
                attr_spec(inode_of(old(self).inode_map(), path@)->0, st),
            )),
            stat matches Ok(st) ==> (!holds_path(old(self).inode_map(), path@) && old(self).allocated() < u64::MAX ==> {
                &&& r == Ok::<FileAttr, i32>(attr_spec((old(self).allocated() + 1) as u64, st))
                &&& final(self).inode_map() == old(self).inode_map().insert((old(self).allocated() + 1) as u64, path@)
                &&& final(self).allocated() == old(self).allocated() + 1
            }),
            stat is Ok ==> (r is Err ==> old(self).allocated() == u64::MAX),
            stat is Err ==> final(self).allocated() == old(self).allocated(),
            final(self).next_handle() == old(self).next_handle(),
            final(self).mounted() == old(self).mounted(),
            old(self).allocated() <= final(self).allocated(),
    {
        match stat {
            Err(e) => Err(errno_from(e)),
            Ok(st) => self.get_attr(path, &st),
        }
    }

    /// `readdir` from kernel offset `offset` over the listing of a remote directory:
    /// `..` and `.` come first, entries before the offset are skipped, and each entry
    /// after it is interned. `EIO` when inode numbers are spent.
    pub fn readdir(&mut self, listing: &Vec<RemoteEntry>, offset: i64) -> (r: Result<Vec<DirReply>, i32>)
        requires
            old(self).wf(),
            listing@.len() + 2 <= i64::MAX,
        ensures
            final(self).wf(),
            final(self).files() == old(self).files(),
            keeps_bindings(old(self).inode_map(), final(self).inode_map()),
            r matches Ok(out) ==> readdir_reply_ok(listing@, offset, out@, final(self).inode_map()),
            r matches Err(e) ==> e == EIO && final(self).allocated() == u64::MAX,
            final(self).allocated() <= old(self).allocated() + listing@.len(),
            final(self).next_handle() == old(self).next_handle(),
            final(self).mounted() == old(self).mounted(),
            old(self).allocated() <= final(self).allocated(),
    {
        let n: u64 = listing.len() as u64 + 2;
        let start: u64 = if offset < 0 || offset as u64 > n {
            n
        } else {
            offset as u64
        };
        let mut out: Vec<DirReply> = Vec::new();
        let mut i: u64 = start;
        let ghost lo: int = if start < 2 { 2 } else { start as int };
        while i < n
            invariant
                n == listing@.len() + 2,
                n <= i64::MAX,
                start == start_index(offset, n as int),
                start <= i <= n,
                out.len() == i - start,
                self.wf(),
                self.files() == old(self).files(),
                self.next_handle() == old(self).next_handle(),
                self.mounted() == old(self).mounted(),
                lo == (if start < 2 { 2 } else { start as int }),
                old(self).allocated() <= self.allocated(),
                self.allocated() <= old(self).allocated() + (if i > lo { i - lo } else { 0 }),
                keeps_bindings(old(self).inode_map(), self.inode_map()),
                forall|k: int|
                    0 <= k < out.len() ==> {
                        let j = start + k;
                        &&& (#[trigger] out@[k]).offset == j + 1
                        &&& out@[k].name@ == listed_name(listing@, j)
                        &&& out@[k].kind == listed_kind(listing@, j)
                        &&& j < 2 ==> out@[k].ino == ROOT_INODE
                        &&& j >= 2 ==> self.inode_map().contains_key(out@[k].ino) && self.inode_map()[out@[k].ino]
                            == listing@[j - 2].path@
                    },
            decreases n - i,
        {
            let ghost before_map = self.inode_map();
            let entry = if i < 2 {
                let name = if i == 0 {
                    String::from_str("..")
                } else {
                    String::from_str(".")
                };
                proof {
                    reveal_strlit("..");
                    reveal_strlit(".");
                }
                assert(".."@ =~= seq!['.', '.']);
                assert("."@ =~= seq!['.']);
                DirReply { ino: ROOT_INODE, offset: (i + 1) as i64, kind: FileKind::Directory, name }
            } else {
                assert(i - 2 < listing.len());
                let idx = (i - 2) as usize;
                assert(idx == i - 2);
                let e = &listing[idx];
                let ghost before = self.inode_map();
                proof {
                    self.inodes.lemma_bounded();
                }
                let ino = match self.inodes.add(e.path.as_str()) {
                    Some(ino) => ino,
                    None => {
                        return Err(EIO);
                    },
                };
                proof {
                    if holds_path(before, e.path@) {
                        let k = choose|k: u64| before.contains_key(k) && before[k] == e.path@;
                    } else {
                        assert(!before.contains_key(ino));
                    }
                    assert(keeps_bindings(before, self.inode_map()));
                    assert(self.inode_map().contains_key(ino) && self.inode_map()[ino] == e.path@);
                }
                let perm = match e.perm {
                    Some(p) => p,
                    None => 0,
                };
                DirReply { ino, offset: (i + 1) as i64, kind: kind_of_mode(perm), name: entry_name_of(e.path.as_str()) }
            };
            assert(keeps_bindings(before_map, self.inode_map()));
            let ghost prev = out@;
            out.push(entry);
            proof {
                assert forall|k: int| 0 <= k < out.len() implies {
                    let j = start + k;
                    &&& (#[trigger] out@[k]).offset == j + 1
                    &&& out@[k].name@ == listed_name(listing@, j)
                    &&& out@[k].kind == listed_kind(listing@, j)
                    &&& j < 2 ==> out@[k].ino == ROOT_INODE
                    &&& j >= 2 ==> self.inode_map().contains_key(out@[k].ino) && self.inode_map()[out@[k].ino]
                        == listing@[j - 2].path@
                } by {
                    if k < prev.len() {
                        assert(out@[k] == prev[k]);
                        let j = start + k;
                        if j >= 2 {
                            assert(before_map.contains_key(prev[k].ino));
                        }
                    }
                }
            }
            i = i + 1;
        }
        Ok(out)
    }

    /// `open`: installs a remote file just opened, under a fresh handle; `EIO` when
    /// handles are spent.
    pub fn open(&mut self, file: F) -> (r: Result<u64, i32>)
        requires
            old(self).wf(),
        ensures
            final(self).wf(),
            final(self).inode_map() == old(self).inode_map(),
            r is Err <==> old(self).next_handle() == u64::MAX,
            r matches Ok(fh) ==> fh == old(self).next_handle() && !old(self).files().contains_key(fh)
                && final(self).files() == old(self).files().insert(fh, file)
                && final(self).next_handle() == fh + 1,
            r matches Err(e) ==> e == EIO && final(self).files() == old(self).files(),
            final(self).allocated() == old(self).allocated(),
            final(self).mounted() == old(self).mounted(),
    {
        let ghost before = self.file_handles;
        match self.file_handles.add(file) {
            Some(fh) => {
                proof {
                    if before@.contains_key(fh) {
                        before.lemma_below_counter(fh);
                    }
                }
                Ok(fh)
            },
            None => Err(EIO),
        }
    }

    /// `release`: drops the handle `fh`; later calls on it fail with `EBADF`.
    pub fn release(&mut self, fh: u64) -> (r: Option<F>)
        requires
            old(self).wf(),
        ensures
            final(self).wf(),
            final(self).inode_map() == old(self).inode_map(),
            final(self).files() == old(self).files().remove(fh),
            final(self).next_handle() == old(self).next_handle(),
            final(self).allocated() == old(self).allocated(),
            r is Some <==> old(self).files().contains_key(fh),
            r matches Some(f) ==> f == old(self).files()[fh],
    {
        self.file_handles.del(fh)
    }

    /// The open file under `fh`, for `read` and `write`; `EBADF` for an unknown or
    /// released handle.
    pub fn file(&mut self, fh: u64) -> (r: Result<&mut F, i32>)
        requires
            old(self).wf(),
        ensures
            final(self).wf(),
            final(self).inode_map() == old(self).inode_map(),
            r is Ok <==> old(self).files().contains_key(fh),
            r matches Ok(f) ==> *f == old(self).files()[fh],
            r matches Ok(f) ==> final(self).files() == old(self).files().insert(fh, *final(f)),
            r matches Err(e) ==> e == EBADF && final(self).files() == old(self).files(),
            final(self).next_handle() == old(self).next_handle(),
            final(self).allocated() == old(self).allocated(),
    {
        match self.file_handles.get(fh) {
            Some(f) => Ok(f),
            None => Err(EBADF),
        }
    }

    /// `unlink` and `rmdir`: once the server has removed `path`, its inode is retired.
    pub fn forget(&mut self, path: &str)
        requires
            old(self).wf(),
        ensures
            final(self).wf(),
            final(self).files() == old(self).files(),
            final(self).inode_map() == crate::inodes::without_path(old(self).inode_map(), path@),
            !holds_path(final(self).inode_map(), path@),
            final(self).allocated() == old(self).allocated(),
            final(self).next_handle() == old(self).next_handle(),
    {
        let ghost m = self.inode_map();
        match self.inodes.get_inode(path) {
            Some(ino) => {
                self.inodes.del_inode(ino);
                proof {
                    assert forall|k: u64| #[trigger] m.contains_key(k) && m[k] == path@ implies k == ino by {
                        crate::inodes::lemma_inode_of_unique(m, path@, k);
                    }
                    assert(self.inode_map() =~= crate::inodes::without_path(m, path@));
                }
            },
            None => {
                assert(self.inode_map() =~= crate::inodes::without_path(m, path@));
            },
        }
    }
}

/// Once a handle is released, `file` answers `EBADF` for it.
pub proof fn lemma_released_handle_invalid<F>(files: Map<u64, F>, fh: u64)
    ensures
        !files.remove(fh).contains_key(fh),
{
}

/// The attributes of inode `ino` from its remote stat.
fn attr_from_stat(ino: u64, st: &RemoteStat) -> (r: FileAttr)
    ensures
        r == attr_spec(ino, *st),
{
    let size = match st.size {
        Some(s) => s,
        None => 0,
    };
    let mtime = match st.mtime {
        Some(t) => t,
        None => 0,
    };
    let perm = match st.perm {
        Some(p) => p,
        None => DEFAULT_PERM,
    };
    FileAttr {
        ino,
        size,
        blocks: size / 1024 + 1,
        atime: match st.atime {
            Some(t) => t,
            None => 0,
        },
        mtime,
        ctime: mtime,
        crtime: mtime,
        kind: kind_of_mode(
            match st.perm {
                Some(p) => p,
                None => 0,
            },
        ),
        perm: perm as u16,
        nlink: 1,
        uid: match st.uid {
            Some(u) => u,
            None => 0,
        },
        gid: match st.gid {
            Some(g) => g,
            None => 0,
        },
        rdev: 1,
        blksize: BLOCK_SIZE,
        flags: 0,
    }
}

proof fn lemma_after_last_slash_step(p: Seq<char>, i: int)
    requires
        0 < i <= p.len(),
        p[i - 1] != '/',
    ensures
        after_last_slash(p.take(i)) == after_last_slash(p.take(i - 1)).push(p[i - 1]),
{
    assert(p.take(i).drop_last() =~= p.take(i - 1));
}

/// The name under which a listed path appears.
pub fn entry_name_of(path: &str) -> (r: String)
    ensures
        r@ == entry_name(path@),
{
    let cs = chars_of(path);
    let n = cs.len();
    let mut i = n;
    assert(path@.take(n as int) =~= path@);
    assert(path@.subrange(n as int, n as int) =~= Seq::<char>::empty());
    while i > 0 && cs[i - 1] != '/'
        invariant
            cs@ == path@,
            n == cs.len(),
            i <= n,
            after_last_slash(path@) == after_last_slash(path@.take(i as int)) + path@.subrange(i as int, n as int),
        decreases i,
    {
        proof {
            lemma_after_last_slash_step(path@, i as int);
            assert(path@.subrange(i - 1, n as int) =~= seq![path@[i - 1]] + path@.subrange(i as int, n as int));
            assert(after_last_slash(path@.take(i - 1)).push(path@[i - 1]) + path@.subrange(i as int, n as int)
                =~= after_last_slash(path@.take(i - 1)) + path@.subrange(i - 1, n as int));
        }
        i = i - 1;
    }
    proof {
        if i > 0 {
            assert(path@.take(i as int).last() == '/');
        } else {
            assert(path@.take(0) =~= Seq::<char>::empty());
        }
        assert(after_last_slash(path@) =~= path@.subrange(i as int, n as int));
    }
    if i < n {
        String::from_str(path.substring_char(i, n))
    } else {
        String::from_str(path)
    }
}

/// Progress of a `read` request: the bytes gathered so far from consecutive remote reads
/// at the requested offset.
pub struct ReadRequest {
    wanted: usize,
    data: Vec<u8>,
    eof: bool,
}

impl ReadRequest {
    pub closed spec fn wanted_len(&self) -> nat {
        self.wanted as nat
    }

    /// The bytes gathered so far.
    pub closed spec fn gathered(&self) -> Seq<u8> {
        self.data@
    }

    /// The remote side has reported the end of the file.
    pub closed spec fn at_eof(&self) -> bool {
        self.eof
    }

    pub closed spec fn wf(&self) -> bool {
        self.data@.len() <= self.wanted
    }

    /// A request for `size` bytes.
    pub fn new(size: u32) -> (r: ReadRequest)
        ensures
            r.wf(),
            r.wanted_len() == size,
            r.gathered() == Seq::<u8>::empty(),
            !r.at_eof(),
    {
        ReadRequest { wanted: size as usize, data: Vec::new(), eof: false }
    }

    /// How many more bytes to ask the remote side for: none once the request is
    /// full or the end of the file was reached.
    pub fn remaining(&self) -> (r: usize)
        requires
            self.wf(),
        ensures
            r == (if self.at_eof() { 0 } else { self.wanted_len() - self.gathered().len() }),
    {
        if self.eof {
            0
        } else {
            self.wanted - self.data.len()
        }
    }

    /// True once the request is full or the end of the file was reached.
    pub fn is_done(&self) -> (r: bool)
        requires
            self.wf(),
        ensures
            r == (self.at_eof() || self.gathered().len() == self.wanted_len()),
    {
        self.eof || self.data.len() == self.wanted
    }

    /// Takes what one remote read returned, at most `remaining()` bytes; an empty chunk
    /// is the end of the file.
    pub fn accept(&mut self, chunk: &[u8])
        requires
            old(self).wf(),
            !old(self).at_eof(),
            chunk@.len() <= old(self).wanted_len() - old(self).gathered().len(),
        ensures
            final(self).wf(),
            final(self).wanted_len() == old(self).wanted_len(),
            final(self).gathered() == old(self).gathered() + chunk@,
            final(self).at_eof() == (chunk@.len() == 0),
    {
        if chunk.len() == 0 {
            self.eof = true;
            assert(self.data@ =~= old(self).data@ + chunk@);
        } else {
            let mut j: usize = 0;
            while j < chunk.len()
                invariant
                    j <= chunk.len(),
                    self.wanted == old(self).wanted,
                    self.eof == old(self).eof,
                    self.data@ == old(self).data@ + chunk@.take(j as int),
                decreases chunk.len() - j,
            {
                self.data.push(chunk[j]);
                assert(chunk@.take(j + 1) =~= chunk@.take(j as int).push(chunk@[j as int]));
                j = j + 1;
            }
            assert(chunk@.take(chunk.len() as int) =~= chunk@);
        }
    }

    /// The bytes to reply with once the request is done: at most the size asked for,
    /// and fewer only when the end of the file was reached.
    pub fn into_data(self) -> (r: Vec<u8>)
        requires
            self.wf(),
            self.at_eof() || self.gathered().len() == self.wanted_len(),
        ensures
            r@ == self.gathered(),
            r@.len() <= self.wanted_len(),
            r@.len() < self.wanted_len() ==> self.at_eof(),
    {
        self.data
    }
}

/// When a done read request at offset `off` took the bytes of the file `f` one chunk
/// after another, an empty chunk coming only at its end, what it gathered is the slice
/// of `f` from `off` of the size asked for, cut short at the end of the file.
pub proof fn lemma_read_is_file_slice(r: ReadRequest, f: Seq<u8>, off: int)
    requires
        r.wf(),
        r.at_eof() || r.gathered().len() == r.wanted_len(),
        0 <= off,
        off + r.gathered().len() <= f.len(),
        r.gathered() == f.subrange(off, off + r.gathered().len()),
        r.at_eof() ==> off + r.gathered().len() == f.len(),
    ensures
        r.gathered() == f.subrange(
            off,
            if off + r.wanted_len() <= f.len() { off + r.wanted_len() } else { f.len() as int },
        ),
        r.gathered().len() < r.wanted_len() ==> off + r.wanted_len() > f.len(),
{
}

/// Progress of a `write` request: how much of the data the remote side has taken.
pub struct WriteRequest {
    total: usize,
    written: usize,
}

impl WriteRequest {
    pub closed spec fn total_len(&self) -> nat {
        self.total as nat
    }

    pub closed spec fn written_len(&self) -> nat {
        self.written as nat
    }

    pub closed spec fn wf(&self) -> bool {
        self.written <= self.total
    }

    /// A request to write `len` bytes.
    pub fn new(len: usize) -> (r: WriteRequest)
        ensures
            r.wf(),
            r.total_len() == len,
            r.written_len() == 0,
    {
        WriteRequest { total: len, written: 0 }
    }

    /// Where the bytes still to be written begin.
    pub fn position(&self) -> (r: usize)
        ensures
            r == self.written_len(),
    {
        self.written
    }

    /// True once every byte has been written.
    pub fn is_done(&self) -> (r: bool)
        ensures
            r == (self.written_len() == self.total_len()),
    {
        self.written == self.total
    }

    /// Records that one remote write took `n` of the pending bytes. False when it took
    /// none though some were pending: the remote side has stalled.
    pub fn advance(&mut self, n: usize) -> (r: bool)
        requires
            old(self).wf(),
            n <= old(self).total_len() - old(self).written_len(),
        ensures
            final(self).wf(),
            final(self).total_len() == old(self).total_len(),
            final(self).written_len() == old(self).written_len() + n,
            r == (n > 0 || old(self).written_len() == old(self).total_len()),
    {
        self.written = self.written + n;
        n > 0 || self.written == self.total
    }

    /// The byte count to reply with once done.
    pub fn reply_len(&self) -> (r: u32)
        requires
            self.wf(),
            self.written_len() == self.total_len(),
            self.total_len() <= u32::MAX,
        ensures
            r == self.total_len(),
    {
        self.total as u32
    }
}

} // verus!
