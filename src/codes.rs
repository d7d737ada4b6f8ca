//! The SFTP protocol's codes and the host's: status codes to
//! errno values, open flags to SFTP open flags, mode bits to file kinds.
use vstd::prelude::*;

verus! {

// Host errno values (Linux).
pub const EPERM: i32 = 1;
pub const ENOENT: i32 = 2;
pub const EIO: i32 = 5;
pub const ENXIO: i32 = 6;
pub const EBADF: i32 = 9;
pub const EACCES: i32 = 13;
pub const EEXIST: i32 = 17;
pub const ENODEV: i32 = 19;
pub const ENOTDIR: i32 = 20;
pub const EINVAL: i32 = 22;
pub const ENOSPC: i32 = 28;
pub const ENAMETOOLONG: i32 = 36;
pub const ENOLCK: i32 = 37;
pub const ENOTEMPTY: i32 = 39;
pub const ELOOP: i32 = 40;
pub const ENOTSUP: i32 = 95;
pub const ENETDOWN: i32 = 100;
pub const EDQUOT: i32 = 122;

// Host open(2) flags (Linux).
pub const O_WRONLY: i32 = 0o1;
pub const O_RDWR: i32 = 0o2;
pub const O_CREAT: i32 = 0o100;
pub const O_EXCL: i32 = 0o200;
pub const O_TRUNC: i32 = 0o1000;
pub const O_APPEND: i32 = 0o2000;

// SFTP open flags.
pub const SFTP_READ: u32 = 0x01;
pub const SFTP_WRITE: u32 = 0x02;
pub const SFTP_APPEND: u32 = 0x04;
pub const SFTP_CREATE: u32 = 0x08;
pub const SFTP_TRUNCATE: u32 = 0x10;
pub const SFTP_EXCLUSIVE: u32 = 0x20;

// File type bits of a mode.
pub const S_IFMT: u32 = 0o170000;
pub const S_IFIFO: u32 = 0o010000;
pub const S_IFCHR: u32 = 0o020000;
pub const S_IFDIR: u32 = 0o040000;
pub const S_IFBLK: u32 = 0o060000;
pub const S_IFREG: u32 = 0o100000;
pub const S_IFLNK: u32 = 0o120000;
pub const S_IFSOCK: u32 = 0o140000;

/// A failure reported by the remote side: by the SSH session itself, or by the SFTP
/// subsystem with its status code.
#[derive(Debug, Clone, Copy, PartialEq, Eq, Structural)]
pub enum RemoteError {
    Session(i32),
    Sftp(i32),
}

/// The errno value for an SFTP status code; codes outside the table give `EIO`.
pub open spec fn errno_of_status(code: i32) -> i32 {
    if code == 2 || code == 10 {
        ENOENT
    } else if code == 3 || code == 12 {
        EACCES
    } else if code == 4 {
        EIO
    } else if code == 5 || code == 16 {
        ENODEV
    } else if code == 6 || code == 13 {
        ENXIO
    } else if code == 7 {
        ENETDOWN
    } else if code == 8 {
        ENOTSUP
    } else if code == 9 {
        EBADF
    } else if code == 11 {
        EEXIST
    } else if code == 14 {
        ENOSPC
    } else if code == 15 {
        EDQUOT
    } else if code == 17 {
        ENOLCK
    } else if code == 18 {
        ENOTEMPTY
    } else if code == 19 {
        ENOTDIR
    } else if code == 20 {
        ENAMETOOLONG
    } else if code == 21 {
        ELOOP
    } else {
        EIO
    }
}

/// The errno value for a remote failure: a transport failure gives `ENXIO`.
pub open spec fn errno_spec(e: RemoteError) -> i32 {
    match e {
        RemoteError::Session(_) => ENXIO,
        RemoteError::Sftp(code) => errno_of_status(code),
    }
}

/// The errno value that the kernel is to see for a remote failure.
pub fn errno_from(e: RemoteError) -> (r: i32)
    ensures
        r == errno_spec(e),
        r != 0,
{
    match e {
        RemoteError::Session(_) => ENXIO,
        RemoteError::Sftp(code) => match code {
            2 | 10 => ENOENT,
            3 | 12 => EACCES,
            4 => EIO,
            5 | 16 => ENODEV,
            6 | 13 => ENXIO,
            7 => ENETDOWN,
            8 => ENOTSUP,
            9 => EBADF,
            11 => EEXIST,
            14 => ENOSPC,
            15 => EDQUOT,
            17 => ENOLCK,
            18 => ENOTEMPTY,
            19 => ENOTDIR,
            20 => ENAMETOOLONG,
            21 => ELOOP,
            _ => EIO,
        },
    }
}

/// The SFTP open flags for host open flags: write-only opens for writing, read-write
/// for both, anything else for reading; append, create, truncate and exclusive carry
/// over, and truncate and exclusive imply create.
pub open spec fn open_flags_spec(flags: i32) -> u32 {
    let access = if flags & O_WRONLY != 0 {
        SFTP_WRITE
    } else if flags & O_RDWR != 0 {
        SFTP_READ | SFTP_WRITE
    } else {
        SFTP_READ
    };
    let append = if flags & O_APPEND != 0 { SFTP_APPEND } else { 0 };
    let create = if flags & O_CREAT != 0 || flags & O_TRUNC != 0 || flags & O_EXCL != 0 {
        SFTP_CREATE
    } else {
        0
    };
    let trunc = if flags & O_TRUNC != 0 { SFTP_TRUNCATE } else { 0 };
    let excl = if flags & O_EXCL != 0 { SFTP_EXCLUSIVE } else { 0 };
    access | append | create | trunc | excl
}

/// Translates host open flags into SFTP open flags.
pub fn open_flags(flags: i32) -> (r: u32)
    ensures
        r == open_flags_spec(flags),
        r & SFTP_READ != 0 <==> flags & O_WRONLY == 0,
        r & SFTP_WRITE != 0 <==> (flags & O_WRONLY != 0 || flags & O_RDWR != 0),
        r & SFTP_APPEND != 0 <==> flags & O_APPEND != 0,
        r & SFTP_TRUNCATE != 0 <==> flags & O_TRUNC != 0,
        r & SFTP_EXCLUSIVE != 0 <==> flags & O_EXCL != 0,
        r & SFTP_CREATE != 0 <==> (flags & O_CREAT != 0 || flags & O_TRUNC != 0 || flags & O_EXCL != 0),
        r & !0x3fu32 == 0,
{
    assert(1u32 | 2u32 == 3u32) by (bit_vector);
    let access: u32 = if flags & O_WRONLY != 0 {
        SFTP_WRITE
    } else if flags & O_RDWR != 0 {
        SFTP_READ | SFTP_WRITE
    } else {
        SFTP_READ
    };
    let append: u32 = if flags & O_APPEND != 0 { SFTP_APPEND } else { 0 };
    let create: u32 = if flags & O_CREAT != 0 || flags & O_TRUNC != 0 || flags & O_EXCL != 0 {
        SFTP_CREATE
    } else {
        0
    };
    let trunc: u32 = if flags & O_TRUNC != 0 { SFTP_TRUNCATE } else { 0 };
    let excl: u32 = if flags & O_EXCL != 0 { SFTP_EXCLUSIVE } else { 0 };
    let r = access | append | create | trunc | excl;
    assert(r & 1 == access & 1 && r & 2 == access & 2 && r & 4 == append && r & 8 == create
        && r & 0x10 == trunc && r & 0x20 == excl && r & !0x3fu32 == 0) by (bit_vector)
        requires
            r == access | append | create | trunc | excl,
            access == 1 || access == 2 || access == 3,
            append == 0 || append == 4,
            create == 0 || create == 8,
            trunc == 0 || trunc == 0x10,
            excl == 0 || excl == 0x20,
    ;
    assert(2u32 & 1 == 0 && 3u32 & 1 == 1 && 1u32 & 1 == 1 && 2u32 & 2 == 2 && 3u32 & 2 == 2
        && 1u32 & 2 == 0) by (bit_vector);
    r
}

/// The kind of a file, from the type bits of its mode.
#[derive(Debug, Clone, Copy, PartialEq, Eq, Structural)]
pub enum FileKind {
    NamedPipe,
    CharDevice,
    BlockDevice,
    Directory,
    RegularFile,
    Symlink,
    Socket,
}

/// The kind that the type bits of `mode` name; bits that name no kind count as a
/// regular file.
pub open spec fn kind_spec(mode: u32) -> FileKind {
    let t = mode & S_IFMT;
    if t == S_IFIFO {
        FileKind::NamedPipe
    } else if t == S_IFCHR {
        FileKind::CharDevice
    } else if t == S_IFDIR {
        FileKind::Directory
    } else if t == S_IFBLK {
        FileKind::BlockDevice
    } else if t == S_IFLNK {
        FileKind::Symlink
    } else if t == S_IFSOCK {
        FileKind::Socket
    } else {
        FileKind::RegularFile
    }
}

/// The kind of a file with mode `mode`.
pub fn kind_of_mode(mode: u32) -> (r: FileKind)
    ensures
        r == kind_spec(mode),
{
    let t = mode & S_IFMT;
    if t == S_IFIFO {
        FileKind::NamedPipe
    } else if t == S_IFCHR {
        FileKind::CharDevice
    } else if t == S_IFDIR {
        FileKind::Directory
    } else if t == S_IFBLK {
        FileKind::BlockDevice
    } else if t == S_IFLNK {
        FileKind::Symlink
    } else if t == S_IFSOCK {
        FileKind::Socket
    } else {
        FileKind::RegularFile
    }
}

/// `mode` with the bits of `umask` cleared, its type bits kept.
pub open spec fn masked_spec(mode: u32, umask: u32) -> u32 {
    mode & (!umask | S_IFMT)
}

/// Applies the caller's umask to a requested mode, keeping the type bits.
pub fn masked_mode(mode: u32, umask: u32) -> (r: u32)
    ensures
        r == masked_spec(mode, umask),
        r & S_IFMT == mode & S_IFMT,
        forall|b: u32| #![trigger (r & b)] b & S_IFMT == 0 ==> (r & b == 0 <== (mode & b == 0 || b & !umask == 0)),
{
    let r = mode & (!umask | S_IFMT);
    assert(r & S_IFMT == mode & S_IFMT) by (bit_vector)
        requires
            r == mode & (!umask | S_IFMT);
    assert forall|b: u32| #![trigger (r & b)] b & S_IFMT == 0 && (mode & b == 0 || b & !umask == 0) implies r & b == 0 by {
        assert(b & S_IFMT == 0 && (mode & b == 0 || b & !umask == 0) ==> r & b == 0) by (bit_vector)
            requires
                r == mode & (!umask | S_IFMT);
    }
    r
}

/// The mode with which `mknod` creates a file: only regular files are accepted
/// (`EPERM` otherwise), and the umask applies.
pub fn mknod_mode(mode: u32, umask: u32) -> (r: Result<u32, i32>)
    ensures
        mode & S_IFMT != S_IFREG ==> r == Err::<u32, i32>(EPERM),
        mode & S_IFMT == S_IFREG ==> r == Ok::<u32, i32>(masked_spec(mode, umask)),
{
    if mode & S_IFMT != S_IFREG {
        Err(EPERM)
    } else {
        Ok(masked_mode(mode, umask))
    }
}

} // verus!
