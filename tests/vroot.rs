use sftp_bridge::vroot::{PathError, VirtualRoot};

#[test]
fn test_virtual_root() {
    let temp_dir = "/home/user/project";
    let virtual_root = VirtualRoot::new(temp_dir).unwrap();
    assert_eq!(virtual_root.get_root(), temp_dir);
    let virtual_path = virtual_root.to_virtual_path(temp_dir).unwrap();
    assert_eq!(virtual_path, "/");

    let real_path = virtual_root.to_real_path("/").unwrap();
    assert_eq!(real_path, temp_dir);

    let file_path = virtual_root
        .to_virtual_path(&format!("{}/file.txt", temp_dir))
        .unwrap();
    assert_eq!(file_path, "/file.txt");

    let real_file_path = virtual_root.to_real_path("/file.txt").unwrap();
    assert_eq!(real_file_path, format!("{}/file.txt", temp_dir));

    let file_path = virtual_root
        .to_virtual_path(&format!("{}/file.txt", temp_dir))
        .unwrap();
    assert_eq!(file_path, "/file.txt");

    let real_file_path = virtual_root.to_real_path("/file.txt").unwrap();
    assert_eq!(real_file_path, format!("{}/file.txt", temp_dir));
}

#[test]
fn sandbox_refuses_escapes_and_relative_paths() {
    let root = VirtualRoot::new("/srv/share").unwrap();
    assert_eq!(root.to_real_path("/.."), Err(PathError::Escapes));
    assert_eq!(root.to_real_path("/../etc/passwd"), Err(PathError::Escapes));
    assert_eq!(root.to_real_path("foo"), Err(PathError::NotAbsolute));
    assert_eq!(root.to_real_path(""), Err(PathError::NotAbsolute));
}

#[test]
fn real_paths_begin_with_root() {
    let root = VirtualRoot::new("/srv/share").unwrap();
    for v in ["/", "/a", "/a/../b", "/./c//d/", "/x/y/.."] {
        let r = root.to_real_path(v).unwrap();
        assert!(r == "/srv/share" || r.starts_with("/srv/share/"), "{}", r);
        assert!(root.verify_real_path(&r).is_ok());
    }
    assert_eq!(root.to_real_path("/a/../b").unwrap(), "/srv/share/b");
    assert_eq!(root.to_real_path("/./c//d/").unwrap(), "/srv/share/c/d");
    assert_eq!(root.to_real_path("/x/y/..").unwrap(), "/srv/share/x");
}

#[test]
fn virtual_of_paths_outside_root_fails() {
    let root = VirtualRoot::new("/srv/share").unwrap();
    assert_eq!(root.to_virtual_path("/srv/shared/x"), Err(PathError::OutsideRoot));
    assert_eq!(root.to_virtual_path("/srv"), Err(PathError::OutsideRoot));
    assert_eq!(root.to_virtual_path("srv/share"), Err(PathError::NotAbsolute));
    assert_eq!(root.verify_real_path("/etc/passwd"), Err(PathError::OutsideRoot));
    assert_eq!(root.verify_real_path("/srv/share/../../etc"), Err(PathError::OutsideRoot));
    assert_eq!(root.verify_real_path("/.."), Err(PathError::Escapes));
}

#[test]
fn round_trips() {
    let root = VirtualRoot::new("/srv/share/").unwrap();
    assert_eq!(root.get_root(), "/srv/share");
    let r = root.to_real_path("/docs/a.txt").unwrap();
    let v = root.to_virtual_path(&r).unwrap();
    assert_eq!(v, "/docs/a.txt");
    assert_eq!(root.to_real_path(&v).unwrap(), r);
}

#[test]
fn root_at_slash() {
    let root = VirtualRoot::new("/").unwrap();
    assert_eq!(root.get_root(), "/");
    assert_eq!(root.to_real_path("/etc").unwrap(), "/etc");
    assert_eq!(root.to_virtual_path("/etc").unwrap(), "/etc");
    assert_eq!(VirtualRoot::new("relative").err(), Some(PathError::NotAbsolute));
}
