use sftp_bridge::audit::AuditAction;
use sftp_bridge::session::{
    handle_token, Attrs, IoFailure, NameEntry, SftpSession, StatusCode, SFTP_VERSION,
};
use sftp_bridge::vroot::VirtualRoot;

fn session() -> SftpSession {
    SftpSession::new_with_username("alice".to_string(), VirtualRoot::new("/srv/share").unwrap())
}

fn entry(name: &str) -> NameEntry {
    NameEntry {
        filename: name.to_string(),
        longname: format!("rw-r--r-- 1 user group 0 Jan 01 00:00 {}", name),
        attrs: Attrs { size: Some(0), uid: None, user: None, gid: None, group: None, permissions: None, atime: None, mtime: None },
    }
}

#[test]
fn version_exchange_is_one_shot() {
    let mut s = session();
    assert_eq!(s.init(3), Ok(SFTP_VERSION));
    assert_eq!(s.init(3), Err(StatusCode::ConnectionLost));
    assert_eq!(s.unimplemented(), StatusCode::OpUnsupported);
}

#[test]
fn sandbox() {
    let mut s = session();
    assert_eq!(s.resolve("../etc/passwd"), Err(StatusCode::PermissionDenied));
    assert_eq!(s.open(1, "../etc/passwd", Ok(())).err(), Some(StatusCode::PermissionDenied));
    assert_eq!(s.file_path("handle_1"), Err(StatusCode::InvalidHandle));
    assert_eq!(s.finish_path_op(AuditAction::Remove, "/../../x", Ok(())).err(), Some(StatusCode::PermissionDenied));
    assert_eq!(s.resolve("a/b").unwrap(), "/srv/share/a/b");
    assert_eq!(s.resolve("/a/../c").unwrap(), "/srv/share/c");
}

#[test]
fn readdir_eof() {
    let mut s = session();
    let (h, rec) = s.opendir(5, "/").unwrap();
    assert_eq!(h, "handle_5");
    assert_eq!(rec.action, AuditAction::OpenDir);
    assert_eq!(rec.target, "/srv/share");
    let dir = s.readdir_start(&h).unwrap();
    assert_eq!(dir, "/srv/share");
    let children = vec![entry("a.txt"), entry("d")];
    let (entries, rec) = s.readdir_done(&h, entry("share"), entry("srv"), children).unwrap();
    let names: Vec<&str> = entries.iter().map(|e| e.filename.as_str()).collect();
    assert_eq!(names, vec![".", "..", "a.txt", "d"]);
    assert_eq!(rec.action, AuditAction::ReadDir);
    assert_eq!(s.readdir_start(&h), Err(StatusCode::Eof));
    assert_eq!(s.readdir_done(&h, entry("."), entry(".."), vec![]).err(), Some(StatusCode::Eof));
}

#[test]
fn drained_flag_is_per_handle() {
    let mut s = session();
    let (h1, _) = s.opendir(1, "/").unwrap();
    let (h2, _) = s.opendir(2, "/sub").unwrap();
    s.readdir_done(&h1, entry("."), entry(".."), vec![]).unwrap();
    assert_eq!(s.readdir_start(&h1), Err(StatusCode::Eof));
    assert_eq!(s.readdir_start(&h2).unwrap(), "/srv/share/sub");
}

#[test]
fn closed_handles_are_invalid() {
    let mut s = session();
    let (h, rec) = s.open(7, "notes.txt", Ok(())).unwrap();
    assert_eq!(h, "handle_7");
    assert_eq!(rec.action, AuditAction::Open);
    assert_eq!(rec.target, "/srv/share/notes.txt");
    assert_eq!(rec.username, "alice");
    assert_eq!(s.file_path(&h).unwrap(), "/srv/share/notes.txt");
    let rec = s.close(&h).unwrap();
    assert_eq!(rec.action, AuditAction::Close);
    assert_eq!(rec.target, "/srv/share/notes.txt");
    assert_eq!(s.file_path(&h), Err(StatusCode::InvalidHandle));
    assert_eq!(s.read_start(&h, 0, 10), Err(StatusCode::InvalidHandle));
    assert_eq!(s.write_done(&h, 1, Ok(1)).err(), Some(StatusCode::InvalidHandle));
    assert_eq!(s.close(&h).err(), Some(StatusCode::InvalidHandle));
}

#[test]
fn read_and_write_outcomes() {
    let mut s = session();
    let (h, _) = s.open(1, "/f", Ok(())).unwrap();
    assert_eq!(s.read_start(&h, 10, 10), Err(StatusCode::Eof));
    assert_eq!(s.read_start(&h, 9, 10).unwrap(), "/srv/share/f");
    let (data, rec) = s.read_done(&h, 3, b"abcdef".to_vec()).unwrap();
    assert_eq!(data, b"abc".to_vec());
    assert_eq!(rec.action, AuditAction::Read);
    assert_eq!(rec.target, "/srv/share/f");
    let (data, _) = s.read_done(&h, 30, b"xy".to_vec()).unwrap();
    assert_eq!(data, b"xy".to_vec());
    assert_eq!(s.write_done(&h, 5, Ok(4)).err(), Some(StatusCode::Eof));
    assert_eq!(s.write_done(&h, 5, Err(IoFailure::Other)).err(), Some(StatusCode::Failure));
    let rec = s.write_done(&h, 5, Ok(5)).unwrap();
    assert_eq!(rec.action, AuditAction::Write);
    let (d, _) = s.opendir(2, "/").unwrap();
    assert_eq!(s.file_path(&d), Err(StatusCode::InvalidHandle));
    assert_eq!(s.readdir_start(&h), Err(StatusCode::InvalidHandle));
}

#[test]
fn audit_records_only_on_success() {
    let s = session();
    assert_eq!(s.finish_path_op(AuditAction::MakeDir, "/d", Err(IoFailure::PermissionDenied)).err(), Some(StatusCode::PermissionDenied));
    assert_eq!(s.finish_path_op(AuditAction::RealPath, "/nope", Err(IoFailure::NotFound)).err(), Some(StatusCode::NoSuchFile));
    let rec = s.finish_path_op(AuditAction::Rename, "/old", Ok(())).unwrap();
    assert_eq!(rec.action, AuditAction::Rename);
    assert_eq!(rec.target, "/srv/share/old");
    assert_eq!(rec.username, "alice");
    let mut s = session();
    assert_eq!(s.open(3, "/f", Err(IoFailure::NotFound)).err(), Some(StatusCode::NoSuchFile));
    assert_eq!(s.file_path("handle_3"), Err(StatusCode::InvalidHandle));
}

#[test]
fn tokens() {
    assert_eq!(handle_token(0), "handle_0");
    assert_eq!(handle_token(4294967295), "handle_4294967295");
}

#[test]
fn virtual_names() {
    let s = session();
    assert_eq!(s.virtual_name("/srv/share/a/b").unwrap(), "/a/b");
    assert_eq!(s.virtual_name("/srv/share").unwrap(), "/");
    assert_eq!(s.virtual_name("/etc/passwd"), Err(StatusCode::PermissionDenied));
}

#[test]
fn open_failures_are_not_found_or_denied() {
    let mut s = session();
    assert_eq!(s.open(1, "/f", Err(IoFailure::Other)).err(), Some(StatusCode::NoSuchFile));
    assert_eq!(s.open(2, "/f", Err(IoFailure::PermissionDenied)).err(), Some(StatusCode::PermissionDenied));
    assert_eq!(s.open(3, "/f", Err(IoFailure::NotFound)).err(), Some(StatusCode::NoSuchFile));
    assert_eq!(s.file_path("handle_1"), Err(StatusCode::InvalidHandle));
}
