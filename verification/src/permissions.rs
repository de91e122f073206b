//! Role-based permission flags and the checks the handlers gate on.
//!
//! A staff member holds zero or more role assignments, each carrying a set
//! of boolean capability flags; a permission is granted when any
//! assignment grants it, and super administrators bypass every check.

use vstd::prelude::*;

verus! {

/// One role assignment of a staff member, with its capability flags.
#[derive(Clone, Copy, Debug, PartialEq, Eq, Structural)]
pub struct UserRoleRow {
    pub id: i32,
    pub role_id: i32,
    pub user_profile_id: i32,
    pub can_edit_rota: bool,
    pub can_access_diary: bool,
    pub can_work_shifts: bool,
    pub can_edit_templates: bool,
    pub can_edit_staff: bool,
    pub can_view_staff_details: bool,
}

/// The capabilities a role assignment can grant.
#[derive(Clone, Copy, Debug, PartialEq, Eq, Structural)]
pub enum Permission {
    EditRota,
    AccessDiary,
    WorkShifts,
    EditTemplates,
    EditStaff,
    ViewStaffDetails,
}

/// Which flag of a role assignment a permission reads.
pub open spec fn spec_grants(role: UserRoleRow, perm: Permission) -> bool {
    match perm {
        Permission::EditRota => role.can_edit_rota,
        Permission::AccessDiary => role.can_access_diary,
        Permission::WorkShifts => role.can_work_shifts,
        Permission::EditTemplates => role.can_edit_templates,
        Permission::EditStaff => role.can_edit_staff,
        Permission::ViewStaffDetails => role.can_view_staff_details,
    }
}

/// A caller holds a permission when they are a super administrator or some
/// role assignment of theirs grants it.
pub open spec fn spec_has_permission(
    roles: Seq<UserRoleRow>,
    is_super_admin: bool,
    perm: Permission,
) -> bool {
    is_super_admin || exists|i: int| 0 <= i < roles.len() && spec_grants(roles[i], perm)
}

pub fn can_edit_rota(role: &UserRoleRow) -> (r: bool)
    ensures
        r == role.can_edit_rota,
{
    role.can_edit_rota
}

pub fn can_access_diary(role: &UserRoleRow) -> (r: bool)
    ensures
        r == role.can_access_diary,
{
    role.can_access_diary
}

pub fn can_work_shifts(role: &UserRoleRow) -> (r: bool)
    ensures
        r == role.can_work_shifts,
{
    role.can_work_shifts
}

pub fn can_edit_templates(role: &UserRoleRow) -> (r: bool)
    ensures
        r == role.can_edit_templates,
{
    role.can_edit_templates
}

pub fn can_edit_staff(role: &UserRoleRow) -> (r: bool)
    ensures
        r == role.can_edit_staff,
{
    role.can_edit_staff
}

pub fn can_view_staff_details(role: &UserRoleRow) -> (r: bool)
    ensures
        r == role.can_view_staff_details,
{
    role.can_view_staff_details
}

fn grants(role: &UserRoleRow, perm: Permission) -> (r: bool)
    ensures
        r == spec_grants(*role, perm),
{
    match perm {
        Permission::EditRota => can_edit_rota(role),
        Permission::AccessDiary => can_access_diary(role),
        Permission::WorkShifts => can_work_shifts(role),
        Permission::EditTemplates => can_edit_templates(role),
        Permission::EditStaff => can_edit_staff(role),
        Permission::ViewStaffDetails => can_view_staff_details(role),
    }
}

/// Whether the caller holds `perm`, given their role assignments; super
/// administrators bypass the flags.
pub fn has_permission(roles: &Vec<UserRoleRow>, is_super_admin: bool, perm: Permission) -> (r:
    bool)
    ensures
        r == spec_has_permission(roles@, is_super_admin, perm),
{
    if is_super_admin {
        return true;
    }
    let mut i: usize = 0;
    while i < roles.len()
        invariant
            i <= roles@.len(),
            forall|j: int| 0 <= j < i ==> !spec_grants(roles@[j], perm),
        decreases roles@.len() - i,
    {
        if grants(&roles[i], perm) {
            return true;
        }
        i = i + 1;
    }
    false
}

/// Whether the caller holds any of the listed permissions.
pub fn has_any_permission(
    roles: &Vec<UserRoleRow>,
    is_super_admin: bool,
    perms: &Vec<Permission>,
) -> (r: bool)
    ensures
        r == (is_super_admin || exists|k: int|
            0 <= k < perms@.len() && spec_has_permission(roles@, false, perms@[k])),
{
    if is_super_admin {
        return true;
    }
    let mut k: usize = 0;
    while k < perms.len()
        invariant
            k <= perms@.len(),
            forall|j: int| 0 <= j < k ==> !spec_has_permission(roles@, false, perms@[j]),
        decreases perms@.len() - k,
    {
        if has_permission(roles, false, perms[k]) {
            return true;
        }
        k = k + 1;
    }
    false
}

} // verus!
