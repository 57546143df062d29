use aquascope::permissions::{
    BoolStep, Mutability, PermissionsData, PermissionsDomain, Permissions,
};

fn data(
    type_droppable: bool,
    type_writeable: bool,
    type_copyable: bool,
    is_live: bool,
    path_moved: bool,
) -> PermissionsData {
    PermissionsData {
        type_droppable,
        type_writeable,
        type_copyable,
        is_live,
        path_moved,
        loan_read_refined: None,
        loan_write_refined: None,
        loan_drop_refined: None,
    }
}

#[test]
fn bottom_is_all_false() {
    let b = Permissions::bottom();
    assert!(!b.read);
    assert!(!b.write);
    assert!(!b.drop);
}

#[test]
fn expected_permissions_by_ref_mutability() {
    let owned = Permissions::from(None);
    assert_eq!(owned, Permissions { read: true, write: false, drop: true });
    let shared = Permissions::from(Some(Mutability::Not));
    assert_eq!(shared, Permissions { read: true, write: false, drop: false });
    let unique = Permissions::from(Some(Mutability::Mut));
    assert_eq!(unique, Permissions { read: true, write: true, drop: false });
}

#[test]
fn debug_string_renders_present_bits() {
    let tag = |read: bool, write: bool, drop: bool| {
        Permissions { read, write, drop }.debug_string()
    };
    assert_eq!(tag(false, false, false), "∅");
    assert_eq!(tag(true, false, false), "R");
    assert_eq!(tag(false, true, false), "W");
    assert_eq!(tag(false, false, true), "D");
    assert_eq!(tag(true, true, false), "RW");
    assert_eq!(tag(true, false, true), "RD");
    assert_eq!(tag(false, true, true), "WD");
    assert_eq!(tag(true, true, true), "RWD");
}

#[test]
fn full_owner_has_all_permissions() {
    let d = data(true, true, false, true, false);
    let p = d.permissions();
    assert_eq!(p, Permissions { read: true, write: true, drop: true });
}

#[test]
fn moved_noncopyable_place_loses_everything() {
    let d = data(true, true, false, true, true);
    assert_eq!(d.permissions(), Permissions::bottom());
}

#[test]
fn moved_copyable_place_keeps_drop_only_when_type_allows() {
    let d = data(true, true, true, true, true);
    let p = d.permissions();
    assert!(!p.read);
    assert!(!p.write);
    assert!(p.drop);
}

#[test]
fn permissions_never_exceed_type_capabilities() {
    let not_writeable = data(true, false, false, true, false);
    assert!(!not_writeable.permissions().write);
    assert!(not_writeable.permissions().read);
    let not_droppable = data(false, true, false, true, false);
    assert!(!not_droppable.permissions().drop);
    assert!(not_droppable.permissions().write);
}

#[test]
fn loans_block_exactly_the_refined_capability() {
    let mut d = data(true, true, false, true, false);
    d.loan_write_refined = Some(7);
    d.loan_drop_refined = Some(7);
    let p = d.permissions();
    assert!(p.read);
    assert!(!p.write);
    assert!(!p.drop);
}

#[test]
fn dead_place_has_no_permissions() {
    let d = data(true, true, false, false, false);
    assert_eq!(d.permissions(), Permissions::bottom());
}

#[test]
fn step_reports_gained_and_lost_bits() {
    let before = data(true, true, false, true, false);
    let after = data(true, true, false, true, true);
    let diff = before.step(&after);
    assert_eq!(diff.read, BoolStep::Lost);
    assert_eq!(diff.write, BoolStep::Lost);
    assert_eq!(diff.drop, BoolStep::Lost);
    assert!(!diff.is_empty());
    let back = after.step(&before);
    assert_eq!(back.read, BoolStep::Gained);
    assert_eq!(back.write, BoolStep::Gained);
    assert_eq!(back.drop, BoolStep::Gained);
}

#[test]
fn step_against_identical_snapshot_is_empty() {
    let d = data(true, true, false, true, false);
    let diff = d.step(&d);
    assert_eq!(diff.read, BoolStep::Unchanged);
    assert_eq!(diff.write, BoolStep::Unchanged);
    assert_eq!(diff.drop, BoolStep::Unchanged);
    assert!(diff.is_empty());
}

#[test]
fn shift_keys_rebases_every_loan() {
    let mut d = data(true, true, false, true, false);
    d.loan_read_refined = Some(1);
    d.loan_drop_refined = Some(4);
    let shifted = d.shift_keys(10);
    assert_eq!(shifted.loan_read_refined, Some(11));
    assert_eq!(shifted.loan_write_refined, None);
    assert_eq!(shifted.loan_drop_refined, Some(14));
    assert_eq!(shifted.is_live, d.is_live);
    assert_eq!(shifted.path_moved, d.path_moved);
}

#[test]
fn domain_join_is_pointwise_and_of_bits() {
    let mut a0 = data(true, true, false, true, false);
    a0.loan_write_refined = Some(3);
    let b0 = data(true, true, false, true, false);
    let a1 = data(true, true, false, true, false);
    let b1 = data(true, true, false, true, true);
    let mut joined = PermissionsDomain::from(vec![a0, a1]);
    let other = PermissionsDomain::from(vec![b0, b1]);
    joined.join(&other);
    let p0 = joined.get(0).permissions();
    assert!(p0.read);
    assert!(!p0.write);
    assert!(p0.drop);
    let p1 = joined.get(1).permissions();
    assert_eq!(p1, Permissions::bottom());
}

#[test]
fn domain_join_with_itself_changes_nothing() {
    let mut d0 = data(true, true, false, true, false);
    d0.loan_read_refined = Some(2);
    let d1 = data(false, true, true, true, true);
    let mut joined = PermissionsDomain::from(vec![d0, d1]);
    let same = PermissionsDomain::from(vec![d0, d1]);
    joined.join(&same);
    assert_eq!(*joined.get(0), d0);
    assert_eq!(*joined.get(1), d1);
}
