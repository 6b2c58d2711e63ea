use resolvsync::writer::Resolvconf;
use resolvsync::writer::UnsafeHelper;
use resolvsync::writer::check_permissions;

#[test]
fn group_writable_helper_is_rejected() {
    // 0o100775: a regular file writable by its group.
    match check_permissions(0o100775, 0, 0) {
        Err(UnsafeHelper::WritableByOthers { mode }) => assert_eq!(mode, 0o100775),
        _ => panic!("a group-writable helper must be refused"),
    }
}

#[test]
fn world_writable_helper_is_rejected() {
    match check_permissions(0o100757, 0, 0) {
        Err(UnsafeHelper::WritableByOthers { mode }) => assert_eq!(mode, 0o100757),
        _ => panic!("a world-writable helper must be refused"),
    }
}

#[test]
fn helper_owned_by_stranger_is_rejected() {
    match check_permissions(0o100755, 1000, 1001) {
        Err(UnsafeHelper::NotOwned { file_uid, current_uid }) => {
            assert_eq!(file_uid, 1000);
            assert_eq!(current_uid, 1001);
        },
        _ => panic!("a helper owned by a stranger must be refused"),
    }
}

#[test]
fn root_owned_helper_is_accepted() {
    assert!(check_permissions(0o100755, 0, 1000).is_ok());
}

#[test]
fn self_owned_helper_is_accepted() {
    assert!(check_permissions(0o100744, 1000, 1000).is_ok());
}

#[test]
fn writer_keeps_the_given_helper_path() {
    let w = Resolvconf::with_path("/usr/sbin/resolvconf".to_string());
    assert_eq!(w.path, "/usr/sbin/resolvconf");
}
