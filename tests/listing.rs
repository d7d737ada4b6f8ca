use sftp_bridge::audit::{AuditAction, LogVisitor};
use sftp_bridge::config::{mount_options, MountOpt, SshFsConfig};
use sftp_bridge::listing::{format_longname, mode_to_rwx, push_decimal};

#[test]
fn rwx_strings() {
    assert_eq!(mode_to_rwx(0o755), "rwxr-xr-x");
    assert_eq!(mode_to_rwx(0o100644), "rw-r--r--");
    assert_eq!(mode_to_rwx(0), "---------");
    assert_eq!(mode_to_rwx(0o777), "rwxrwxrwx");
}

#[test]
fn longnames_and_decimals() {
    assert_eq!(format_longname(0o640, 1234, "Sep 13 13:12", "a.txt"), "rw-r----- 1 user group 1234 Sep 13 13:12 a.txt");
    let mut s = String::from("n=");
    push_decimal(&mut s, 0);
    assert_eq!(s, "n=0");
    let mut s = String::new();
    push_decimal(&mut s, u64::MAX);
    assert_eq!(s, u64::MAX.to_string());
}

#[test]
fn visitor_collects_fields() {
    let mut v = LogVisitor::new();
    assert!(!v.is_valid());
    v.record_str("username", "admin");
    v.record_str("action", "Read");
    v.record_str("message", "ignored");
    assert_eq!(v.get_val(), None);
    v.record_debug("target", "file.txt");
    assert!(v.is_valid());
    assert_eq!(v.get_val(), Some(("admin".to_string(), "Read".to_string(), "file.txt".to_string())));
    v.record_debug("username", "other");
    assert_eq!(v.username.as_deref(), Some("admin"));
}

#[test]
fn action_names() {
    assert_eq!(AuditAction::OpenDir.as_str(), "OpenDir");
    assert_eq!(AuditAction::RemoveDir.as_str(), "RemoveDir");
    assert_eq!(AuditAction::RealPath.as_str(), "RealPath");
}

#[test]
fn mount_option_choice() {
    let mut c = SshFsConfig {
        addr: "127.0.0.1:22".to_string(),
        username: "u".to_string(),
        password: "p".to_string(),
        path: "/".to_string(),
        mountpoint: "/mnt".to_string(),
        auto_unmount: false,
        allow_root: false,
    };
    assert_eq!(mount_options(&c), vec![MountOpt::ReadWrite, MountOpt::FsName]);
    c.auto_unmount = true;
    c.allow_root = true;
    assert_eq!(mount_options(&c), vec![MountOpt::ReadWrite, MountOpt::FsName, MountOpt::AutoUnmount, MountOpt::AllowRoot]);
}
