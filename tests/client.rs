use sftp_bridge::client::{
    entry_name_of, ReadRequest, RemoteEntry, RemoteStat, Sshfs,
    WriteRequest, ROOT_INODE,
};
use sftp_bridge::codes::{
    errno_from, kind_of_mode, masked_mode, mknod_mode, open_flags, FileKind, RemoteError, EACCES, EBADF,
    EDQUOT, EEXIST, EIO, ELOOP, ENAMETOOLONG, ENETDOWN, ENODEV, ENOENT, ENOLCK, ENOSPC,
    ENOTDIR, ENOTEMPTY, ENOTSUP, ENXIO, EPERM, O_APPEND, O_CREAT, O_EXCL, O_RDWR, O_TRUNC,
    O_WRONLY, SFTP_APPEND, SFTP_CREATE, SFTP_EXCLUSIVE, SFTP_READ, SFTP_TRUNCATE, SFTP_WRITE,
    S_IFDIR, S_IFLNK, S_IFREG,
};

fn stat(size: u64, perm: u32) -> RemoteStat {
    RemoteStat { size: Some(size), uid: Some(1000), gid: Some(100), perm: Some(perm), atime: Some(5), mtime: Some(7) }
}

#[test]
fn mount_and_list() {
    let mut fs: Sshfs<u32> = Sshfs::new("/");
    let path = fs.child_path(ROOT_INODE, "a.txt").unwrap();
    assert_eq!(path, "/a.txt");
    let attr = fs.lookup(&path, Ok(stat(10, S_IFREG | 0o644))).unwrap();
    assert_eq!(attr.size, 10);
    assert_eq!(attr.kind, FileKind::RegularFile);
    assert_eq!(attr.perm, 0o644 | (S_IFREG as u16));
    let listing = vec![
        RemoteEntry { path: "/a.txt".to_string(), perm: Some(S_IFREG | 0o644) },
        RemoteEntry { path: "/d".to_string(), perm: Some(S_IFDIR | 0o755) },
    ];
    let out = fs.readdir(&listing, 0).unwrap();
    let names: Vec<&str> = out.iter().map(|e| e.name.as_str()).collect();
    assert_eq!(names, vec!["..", ".", "a.txt", "d"]);
    let mut sorted = names.clone();
    sorted.sort();
    assert_eq!(sorted, vec![".", "..", "a.txt", "d"]);
    assert_eq!(out[0].ino, 1);
    assert_eq!(out[1].ino, 1);
    assert_eq!(out[2].ino, attr.ino);
    assert_eq!(out[2].kind, FileKind::RegularFile);
    assert_eq!(out[3].kind, FileKind::Directory);
    let offsets: Vec<i64> = out.iter().map(|e| e.offset).collect();
    assert_eq!(offsets, vec![1, 2, 3, 4]);
}

#[test]
fn readdir_resumes_at_offset() {
    let mut fs: Sshfs<u32> = Sshfs::new("/r");
    let listing = vec![
        RemoteEntry { path: "/r/x".to_string(), perm: None },
        RemoteEntry { path: "/r/y".to_string(), perm: Some(S_IFLNK | 0o777) },
    ];
    let out = fs.readdir(&listing, 3).unwrap();
    assert_eq!(out.len(), 1);
    assert_eq!(out[0].name, "y");
    assert_eq!(out[0].offset, 4);
    assert_eq!(out[0].kind, FileKind::Symlink);
    assert!(fs.readdir(&listing, 4).unwrap().is_empty());
    assert!(fs.readdir(&listing, -1).unwrap().is_empty());
    let x = fs.readdir(&listing, 2).unwrap();
    assert_eq!(x[0].kind, FileKind::RegularFile);
    assert_eq!(fs.inodes().get_inode("/r/x"), Some(x[0].ino));
}

#[test]
fn write_through() {
    let mut fs: Sshfs<Vec<u8>> = Sshfs::new("/");
    let path = fs.child_path(ROOT_INODE, "new").unwrap();
    let flags = open_flags(O_CREAT | O_WRONLY);
    assert_eq!(flags, SFTP_CREATE | SFTP_WRITE);
    let fh = fs.open(Vec::new()).unwrap();
    let data = b"hello";
    let mut w = WriteRequest::new(data.len());
    {
        let file = fs.file(fh).unwrap();
        while !w.is_done() {
            let chunk = &data[w.position()..];
            file.extend_from_slice(chunk);
            assert!(w.advance(chunk.len()));
        }
    }
    assert_eq!(w.reply_len(), 5);
    let released = fs.release(fh).unwrap();
    assert_eq!(released, b"hello".to_vec());
    let attr = fs.getattr(&path, Ok(stat(released.len() as u64, S_IFREG | 0o600))).unwrap();
    assert_eq!(attr.size, 5);
}

#[test]
fn released_handle_is_bad() {
    let mut fs: Sshfs<u8> = Sshfs::new("/");
    let fh = fs.open(9).unwrap();
    assert_eq!(*fs.file(fh).unwrap(), 9);
    *fs.file(fh).unwrap() = 4;
    assert_eq!(fs.release(fh), Some(4));
    assert_eq!(fs.file(fh).err(), Some(EBADF));
    assert_eq!(fs.release(fh), None);
    let fh2 = fs.open(1).unwrap();
    assert_ne!(fh2, fh);
}

#[test]
fn lookup_and_getattr_errors() {
    let mut fs: Sshfs<u8> = Sshfs::new("/");
    assert_eq!(fs.child_path(42, "x").err(), Some(ENOENT));
    assert_eq!(fs.path_of_inode(42).err(), Some(ENOENT));
    assert_eq!(fs.path_of_inode(1).unwrap(), "/");
    assert_eq!(fs.lookup("/x", Err(RemoteError::Sftp(3))).err(), Some(ENOENT));
    assert_eq!(fs.getattr("/x", Err(RemoteError::Sftp(3))).err(), Some(EACCES));
    assert_eq!(fs.inodes().get_inode("/x"), None);
}

#[test]
fn attributes_defaults() {
    let mut fs: Sshfs<u8> = Sshfs::new("/");
    let st = RemoteStat { size: Some(3000), uid: None, gid: None, perm: None, atime: None, mtime: Some(11) };
    let a = fs.get_attr("/f", &st).unwrap();
    assert_eq!(a.ino, 2);
    assert_eq!(a.blocks, 3000 / 1024 + 1);
    assert_eq!(a.blksize, 1024);
    assert_eq!(a.perm, 0o666);
    assert_eq!(a.uid, 0);
    assert_eq!(a.ctime, 11);
    assert_eq!(a.crtime, 11);
    assert_eq!(a.atime, 0);
    assert_eq!(a.nlink, 1);
    assert_eq!(a.rdev, 1);
    assert_eq!(a.kind, FileKind::RegularFile);
    let again = fs.get_attr("/f", &st).unwrap();
    assert_eq!(again.ino, 2);
}

#[test]
fn forget_retires_inode() {
    let mut fs: Sshfs<u8> = Sshfs::new("/");
    let p = fs.child_path(1, "gone").unwrap();
    let a = fs.lookup(&p, Ok(stat(1, S_IFREG))).unwrap();
    fs.forget(&p);
    assert_eq!(fs.path_of_inode(a.ino).err(), Some(ENOENT));
    fs.forget("/never-seen");
}

#[test]
fn child_path_of_slash_terminated_parent() {
    let fs: Sshfs<u8> = Sshfs::new("/data/");
    assert_eq!(fs.child_path(1, "f").unwrap(), "/data/f");
    let fs2: Sshfs<u8> = Sshfs::new("/data");
    assert_eq!(fs2.child_path(1, "f").unwrap(), "/data/f");
}

#[test]
fn entry_names() {
    assert_eq!(entry_name_of("/a/b.txt"), "b.txt");
    assert_eq!(entry_name_of("plain"), "plain");
    assert_eq!(entry_name_of("/a/"), "/a/");
}

#[test]
fn error_map() {
    let cases = [
        (2, ENOENT), (10, ENOENT), (3, EACCES), (12, EACCES), (4, EIO), (5, ENODEV), (6, ENXIO),
        (7, ENETDOWN), (8, ENOTSUP), (9, EBADF), (11, EEXIST), (13, ENXIO), (14, ENOSPC),
        (15, EDQUOT), (16, ENODEV), (17, ENOLCK), (18, ENOTEMPTY), (19, ENOTDIR),
        (20, ENAMETOOLONG), (21, ELOOP), (0, EIO), (1, EIO), (99, EIO), (-5, EIO),
    ];
    for (code, errno) in cases {
        assert_eq!(errno_from(RemoteError::Sftp(code)), errno, "code {}", code);
    }
    assert_eq!(errno_from(RemoteError::Session(-7)), ENXIO);
}

#[test]
fn open_flag_mapping() {
    assert_eq!(open_flags(0), SFTP_READ);
    assert_eq!(open_flags(O_WRONLY), SFTP_WRITE);
    assert_eq!(open_flags(O_RDWR), SFTP_READ | SFTP_WRITE);
    assert_eq!(open_flags(O_RDWR | O_APPEND), SFTP_READ | SFTP_WRITE | SFTP_APPEND);
    assert_eq!(open_flags(O_WRONLY | O_TRUNC), SFTP_WRITE | SFTP_TRUNCATE | SFTP_CREATE);
    assert_eq!(open_flags(O_WRONLY | O_CREAT | O_EXCL), SFTP_WRITE | SFTP_CREATE | SFTP_EXCLUSIVE);
}

#[test]
fn kinds_and_modes() {
    assert_eq!(kind_of_mode(S_IFDIR | 0o755), FileKind::Directory);
    assert_eq!(kind_of_mode(0o644), FileKind::RegularFile);
    assert_eq!(kind_of_mode(0o010000), FileKind::NamedPipe);
    assert_eq!(kind_of_mode(0o020000), FileKind::CharDevice);
    assert_eq!(kind_of_mode(0o060000), FileKind::BlockDevice);
    assert_eq!(kind_of_mode(0o140000), FileKind::Socket);
    assert_eq!(masked_mode(S_IFREG | 0o666, 0o022), S_IFREG | 0o644);
    assert_eq!(masked_mode(S_IFDIR | 0o777, 0o027), S_IFDIR | 0o750);
    assert_eq!(mknod_mode(S_IFREG | 0o640, 0o002), Ok(S_IFREG | 0o640));
    assert_eq!(mknod_mode(S_IFDIR | 0o755, 0), Err(EPERM));
    assert_eq!(mknod_mode(0o060000 | 0o600, 0), Err(EPERM));
}

#[test]
fn read_request_stops_at_eof() {
    let mut r = ReadRequest::new(10);
    assert_eq!(r.remaining(), 10);
    r.accept(b"abcd");
    assert!(!r.is_done());
    assert_eq!(r.remaining(), 6);
    r.accept(b"");
    assert!(r.is_done());
    assert_eq!(r.remaining(), 0);
    assert_eq!(r.into_data(), b"abcd".to_vec());
}

#[test]
fn read_request_fills_exactly() {
    let file = b"0123456789abcdef";
    let offset = 3;
    let mut r = ReadRequest::new(8);
    let mut pos = offset;
    while !r.is_done() {
        let want = r.remaining().min(3);
        let end = (pos + want).min(file.len());
        r.accept(&file[pos..end]);
        pos = end;
    }
    let data = r.into_data();
    assert_eq!(data.len(), 8);
    assert_eq!(data, file[3..11].to_vec());
}

#[test]
fn write_request_detects_stall() {
    let mut w = WriteRequest::new(4);
    assert!(w.advance(3));
    assert_eq!(w.position(), 3);
    assert!(!w.advance(0));
    assert!(w.advance(1));
    assert!(w.is_done());
    assert_eq!(w.reply_len(), 4);
}

#[test]
fn empty_directory_lists_dots_only() {
    let mut fs: Sshfs<u8> = Sshfs::new("/");
    let out = fs.readdir(&Vec::new(), 0).unwrap();
    let names: Vec<&str> = out.iter().map(|e| e.name.as_str()).collect();
    assert_eq!(names, vec!["..", "."]);
    assert!(out.iter().all(|e| e.ino == ROOT_INODE && e.kind == FileKind::Directory));
}

#[test]
fn zero_sized_read_is_done_at_once() {
    let r = ReadRequest::new(0);
    assert!(r.is_done());
    assert_eq!(r.remaining(), 0);
    assert!(r.into_data().is_empty());
    let w = WriteRequest::new(0);
    assert!(w.is_done());
    assert_eq!(w.reply_len(), 0);
}

#[test]
fn new_paths_get_the_next_inode() {
    let mut fs: Sshfs<u8> = Sshfs::new("/");
    assert_eq!(fs.root_path(), "/");
    let a = fs.lookup("/a", Ok(stat(1, S_IFREG))).unwrap();
    assert_eq!(a.ino, 2);
    let listing = vec![
        RemoteEntry { path: "/a".to_string(), perm: None },
        RemoteEntry { path: "/b".to_string(), perm: None },
    ];
    let out = fs.readdir(&listing, 0).unwrap();
    assert_eq!(out[2].ino, 2);
    assert_eq!(out[3].ino, 3);
    let d = fs.getattr("/d", Ok(stat(0, S_IFDIR | 0o755))).unwrap();
    assert_eq!(d.ino, 4);
    assert_eq!(d.kind, FileKind::Directory);
    fs.forget("/d");
    let again = fs.getattr("/d", Ok(stat(0, S_IFDIR | 0o755))).unwrap();
    assert_eq!(again.ino, 5);
}
