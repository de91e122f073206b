use shift_exchange::permissions::{
    can_access_diary, can_edit_rota, can_edit_staff, can_edit_templates, can_view_staff_details,
    can_work_shifts, has_any_permission, has_permission, Permission, UserRoleRow,
};

fn row(rota: bool, diary: bool, shifts: bool, templates: bool, staff: bool, details: bool) -> UserRoleRow {
    UserRoleRow {
        id: 1,
        role_id: 1,
        user_profile_id: 5,
        can_edit_rota: rota,
        can_access_diary: diary,
        can_work_shifts: shifts,
        can_edit_templates: templates,
        can_edit_staff: staff,
        can_view_staff_details: details,
    }
}

#[test]
fn flag_accessors_read_their_flag() {
    let r = row(true, false, true, false, true, false);
    assert!(can_edit_rota(&r));
    assert!(!can_access_diary(&r));
    assert!(can_work_shifts(&r));
    assert!(!can_edit_templates(&r));
    assert!(can_edit_staff(&r));
    assert!(!can_view_staff_details(&r));
}

#[test]
fn permission_is_granted_by_any_assignment() {
    let roles = vec![
        row(false, false, false, false, false, false),
        row(false, true, false, false, false, false),
    ];
    assert!(has_permission(&roles, false, Permission::AccessDiary));
    assert!(!has_permission(&roles, false, Permission::EditRota));
    assert!(!has_permission(&vec![], false, Permission::EditRota));
}

#[test]
fn super_admin_bypasses_flags() {
    assert!(has_permission(&vec![], true, Permission::EditRota));
    assert!(has_any_permission(&vec![], true, &vec![]));
}

#[test]
fn any_permission_needs_only_one_grant() {
    let roles = vec![row(false, false, false, true, false, false)];
    assert!(has_any_permission(
        &roles,
        false,
        &vec![Permission::EditStaff, Permission::EditTemplates],
    ));
    assert!(!has_any_permission(
        &roles,
        false,
        &vec![Permission::EditStaff, Permission::EditRota],
    ));
    assert!(!has_any_permission(&roles, false, &vec![]));
}
