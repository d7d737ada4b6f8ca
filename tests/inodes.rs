use sftp_bridge::inodes::Inodes;

#[test]
fn test_inodes() {
    let mut inodes = Inodes::default();
    let path = "/test";
    let inode = inodes.add(path).unwrap();
    assert_eq!(inodes.get_inode(path), Some(inode));
    assert_eq!(inodes.get_path(inode), Some(path.to_string()));
    assert_eq!(inodes.del_inode(inode), Some(inode));
    assert_eq!(inodes.get_inode(path), None);
    assert_eq!(inodes.get_path(inode), None);
    assert_eq!(inodes.del_inode(inode), None);
    let path = "/test";
    let inode = inodes.add(path).unwrap();
    let new_path = "/new_test";
    assert!(inodes._rename(path, new_path));
    assert_eq!(inodes.get_inode(path), None);
    assert_eq!(inodes.get_inode(new_path), Some(inode));
    assert_eq!(inodes.get_path(inode), Some(new_path.to_string()));
}

#[test]
fn intern_is_idempotent_and_monotonic() {
    let mut inodes = Inodes::new();
    assert_eq!(inodes.add("/"), Some(1));
    assert_eq!(inodes.add("/a"), Some(2));
    assert_eq!(inodes.add("/a"), Some(2));
    assert_eq!(inodes.add("/b"), Some(3));
}

#[test]
fn retired_inodes_are_not_reused() {
    let mut inodes = Inodes::new();
    let a = inodes.add("/a").unwrap();
    assert_eq!(inodes.del_inode(a), Some(a));
    let again = inodes.add("/a").unwrap();
    assert_ne!(again, a);
    assert!(again > a);
}

#[test]
fn path_of_inode_of_round_trip() {
    let mut inodes = Inodes::new();
    for p in ["/x", "/y", "/x/z"] {
        inodes.add(p).unwrap();
    }
    inodes.del_inode(2);
    for p in ["/x", "/y", "/x/z"] {
        if let Some(i) = inodes.get_inode(p) {
            assert_eq!(inodes.get_path(i), Some(p.to_string()));
        }
    }
    assert_eq!(inodes.get_inode("/y"), None);
}

#[test]
fn rename_onto_bound_path_keeps_one_inode_per_path() {
    let mut inodes = Inodes::new();
    let a = inodes.add("/a").unwrap();
    let b = inodes.add("/b").unwrap();
    assert!(inodes._rename("/a", "/b"));
    assert_eq!(inodes.get_inode("/b"), Some(a));
    assert_eq!(inodes.get_path(b), None);
    assert_eq!(inodes.get_inode("/a"), None);
}

#[test]
fn rename_of_unknown_path_fails() {
    let mut inodes = Inodes::new();
    inodes.add("/a").unwrap();
    assert!(!inodes._rename("/missing", "/b"));
    assert_eq!(inodes.get_inode("/b"), None);
}

#[test]
fn rename_inode_stability() {
    let mut inodes = Inodes::new();
    for p in ["/", "/one", "/two", "/three", "/four", "/five"] {
        inodes.add(p).unwrap();
    }
    let ino = inodes.add("/a").unwrap();
    assert_eq!(ino, 7);
    assert!(inodes._rename("/a", "/b"));
    assert_eq!(inodes.get_inode("/b"), Some(7));
}
