use fs_undo::mode::{Mode, Owner, Permission};

#[test]
fn perms() {
    let mut mode = Mode(0);
    mode.add_permission(Owner::User, Permission::Read);
    mode.add_permission(Owner::User, Permission::Execute);
    mode.add_permission(Owner::Group, Permission::Read);
    mode.add_permission(Owner::Other, Permission::Write);

    assert_eq!(mode.0, 0o542);
}

const PAIRS: [(u32, &'static str); 4] = [
    (0o755, "rwxr-xr-x"),
    (0o636, "rw--wxrw-"),
    (0o542, "r-xr---w-"),
    (0o000, "---------"),
];

#[test]
fn perms_str() {
    for (mode, s) in PAIRS {
        assert_eq!(s, Mode(mode).perms_str());
    }
}

#[test]
fn parse() {
    for (mode, s) in PAIRS {
        assert_eq!(s.parse(), Ok(Mode(mode)));
    }
}

#[test]
fn parse_rejects_bad_input() {
    assert_eq!(Mode::from_rwx_str(""), None);
    assert_eq!(Mode::from_rwx_str("rwxrwxrw"), None);
    assert_eq!(Mode::from_rwx_str("rwxrwxrwxr"), None);
    assert_eq!(Mode::from_rwx_str("rwxrwxrwz"), None);
    assert_eq!(Mode::from_rwx_str("wrxrwxrwx"), None);
}

#[test]
fn remove_permission_undoes_add() {
    let mut mode = Mode(0o542);
    mode.add_permission(Owner::Other, Permission::Execute);
    assert_eq!(mode.0, 0o543);
    mode.remove_permission(Owner::Other, Permission::Execute);
    assert_eq!(mode.0, 0o542);
}

#[test]
fn owner_perms_are_octal_digits() {
    let mode = Mode(0o754);
    assert_eq!(mode.get_owner_perms(Owner::User) % 8, 7);
    assert_eq!(mode.get_owner_perms(Owner::Group) % 8, 5);
    assert_eq!(mode.get_owner_perms(Owner::Other) % 8, 4);
}

#[test]
fn rwx_rendering() {
    assert_eq!(fs_undo::mode::u32_to_rwx(0), "---");
    assert_eq!(fs_undo::mode::u32_to_rwx(5), "r-x");
    assert_eq!(fs_undo::mode::u32_to_rwx(7), "rwx");
    assert_eq!(fs_undo::mode::u32_to_rwx(15), "rwx");
}
