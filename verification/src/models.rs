//! The plain request, response and query shapes of the service's API
//! surface.  They carry data between the transport layer and the library;
//! the rules the engine enforces over them live in the other modules.

use vstd::prelude::*;

verus! {

/// The resolved identity of a caller.
#[derive(Clone, Debug)]
pub struct AuthenticatedUser {
    pub clerk_user_id: String,
    pub email: String,
    pub profile_id: i32,
    pub is_super_admin: bool,
}

/// A per-request correlation identifier.
#[derive(Clone, Debug)]
pub struct RequestId(pub String);

/// Filters of the audit view.
#[derive(Clone, Debug)]
pub struct GetAuditQuery {
    pub role_id: Option<i32>,
    pub year: Option<i32>,
    pub month: Option<i32>,
}

/// A PIN check against one staff profile.
#[derive(Clone, Debug)]
pub struct VerifyPinRequest {
    pub user_profile_id: i32,
    pub pin: String,
}

/// The outcome of a PIN check.
#[derive(Clone, Copy, Debug, PartialEq, Eq, Structural)]
pub struct VerifyPinResponse {
    pub valid: bool,
}

/// Filters of the comments view.
#[derive(Clone, Debug)]
pub struct GetCommentsQuery {
    pub year: Option<i32>,
    pub month: Option<i32>,
    pub role_id: Option<i32>,
}

/// A snapshot of the running service, for the debugging endpoint.
#[derive(Clone, Debug)]
pub struct DebugInfo {
    pub version: String,
    pub git_sha: String,
    pub environment: String,
    pub uptime_seconds: u64,
    pub database_status: String,
    pub database_connections: u32,
    pub timestamp: u64,
}

/// Filters of the diary view.
#[derive(Clone, Debug)]
pub struct GetDiaryQuery {
    pub role_id: Option<i32>,
    pub start: Option<String>,
    pub end: Option<String>,
}

/// Confirmation carried by a diary deletion.
#[derive(Clone, Copy, Debug, PartialEq, Eq, Structural)]
pub struct DeleteDiaryQuery {
    pub confirmed_user_id: Option<i32>,
}

/// The service's liveness report.
#[derive(Clone, Debug)]
pub struct HealthResponse {
    pub status: String,
    pub database: String,
}

/// Filters of the job-plan view.
#[derive(Clone, Copy, Debug, PartialEq, Eq, Structural)]
pub struct GetJobPlansQuery {
    pub user_profile_id: Option<i32>,
    pub role_id: Option<i32>,
}

/// Filters of the marketplace views.
#[derive(Clone, Copy, Debug, PartialEq, Eq, Structural)]
pub struct GetMarketplaceQuery {
    pub role_id: Option<i32>,
    pub user_id: Option<i32>,
    pub month: Option<i32>,
    pub year: Option<i32>,
}

/// Filters of the roles view.
#[derive(Clone, Debug)]
pub struct GetRolesQuery {
    pub hospital: Option<String>,
    pub ward: Option<String>,
}

/// Filters of the month shifts view.
#[derive(Clone, Copy, Debug, PartialEq, Eq, Structural)]
pub struct GetShiftsQuery {
    pub year: Option<i32>,
    pub month: Option<i32>,
    pub role_id: Option<i32>,
}

/// Filters of the single-day shifts view.
#[derive(Clone, Debug)]
pub struct GetShiftsByDateQuery {
    pub date: String,
    pub role_id: Option<i32>,
}

/// Filters of the date-range shifts view.
#[derive(Clone, Debug)]
pub struct GetShiftsRangeQuery {
    pub start: String,
    pub end: String,
    pub role_id: Option<i32>,
}

/// Filters of the templates view.
#[derive(Clone, Copy, Debug, PartialEq, Eq, Structural)]
pub struct GetTemplatesQuery {
    pub role_id: Option<i32>,
}

/// Filters of the user-roles view.
#[derive(Clone, Copy, Debug, PartialEq, Eq, Structural)]
pub struct GetUserRolesQuery {
    pub user_profile_id: Option<i32>,
}

/// Filters of the users view.
#[derive(Clone, Debug)]
pub struct GetUsersQuery {
    pub hospital: Option<String>,
    pub ward: Option<String>,
    pub role_id: Option<i32>,
}

/// Filters of the substantive-staff view.
#[derive(Clone, Copy, Debug, PartialEq, Eq, Structural)]
pub struct SubstantiveUsersQuery {
    pub role_id: Option<i32>,
    pub year: Option<i32>,
    pub month: Option<i32>,
}

/// Selection of locum staff for a role.
#[derive(Clone, Debug)]
pub struct LocumUsersRequest {
    pub role_id: i32,
    pub year: Option<i32>,
    pub month: Option<i32>,
    pub exclude_user_ids: Option<Vec<i32>>,
}

/// Filters of the staff-list view.
#[derive(Clone, Copy, Debug, PartialEq, Eq, Structural)]
pub struct StaffListQuery {
    pub role_id: Option<i32>,
}

/// Outcome of a diary mutation.
#[derive(Clone, Debug)]
pub struct DiaryMutationResponse {
    pub success: bool,
    pub message: Option<String>,
}

/// Outcome of a job-plan mutation.
#[derive(Clone, Debug)]
pub struct JobPlanMutationResponse {
    pub success: bool,
    pub message: Option<String>,
}

/// A shift offered on the marketplace, as shown to a browsing peer.
#[derive(Clone, Debug)]
pub struct SwappableShift {
    pub uuid: String,
    pub date: String,
    pub start_time: String,
    pub end_time: String,
    pub label: String,
    pub is_time_off: bool,
}

/// A peer and the shifts of theirs that can be asked for in a swap.
#[derive(Clone, Debug)]
pub struct UserWithSwappableShifts {
    pub user_id: i32,
    pub user_name: String,
    pub shifts: Vec<SwappableShift>,
}

/// A target peer's answer to a swap proposal.
#[derive(Clone, Copy, Debug, PartialEq, Eq, Structural)]
pub struct RespondToProposalInput {
    pub accept: bool,
    pub confirmed_responder_id: Option<i32>,
}

/// An administrator's decision on a pending request.
#[derive(Clone, Debug)]
pub struct AdminDecisionInput {
    pub approve: bool,
    pub notes: Option<String>,
}

/// Outcome of a marketplace mutation.
#[derive(Clone, Debug)]
pub struct MarketplaceMutationResponse {
    pub success: bool,
    pub message: Option<String>,
}

/// A workplace: a hospital ward (or similar unit) roles belong to.
#[derive(Clone, Debug)]
pub struct Workplace {
    pub id: i32,
    pub hospital: Option<String>,
    pub ward: Option<String>,
    pub address: Option<String>,
    pub code: Option<String>,
}

/// A role: a staffing position within a workplace, carrying the
/// marketplace auto-approval policy.
#[derive(Clone, Debug)]
pub struct Role {
    pub id: i32,
    pub workplace: i32,
    pub role_name: String,
    pub marketplace_auto_approve: Option<bool>,
    pub workplaces: Option<Workplace>,
}

/// Fields of a new role.
#[derive(Clone, Debug)]
pub struct CreateRoleInput {
    pub workplace_id: i32,
    pub role_name: String,
    pub marketplace_auto_approve: Option<bool>,
}

/// Fields of a role update; absent fields keep their value.
#[derive(Clone, Debug)]
pub struct UpdateRoleInput {
    pub workplace_id: Option<i32>,
    pub role_name: Option<String>,
    pub marketplace_auto_approve: Option<bool>,
}

/// Outcome of a role mutation.
#[derive(Clone, Debug)]
pub struct RoleMutationResponse {
    pub success: bool,
    pub message: Option<String>,
}

/// Fields of a new workplace.
#[derive(Clone, Debug)]
pub struct CreateWorkplaceInput {
    pub hospital: String,
    pub ward: Option<String>,
    pub address: Option<String>,
    pub code: Option<String>,
}

/// Fields of a workplace update; absent fields keep their value.
#[derive(Clone, Debug)]
pub struct UpdateWorkplaceInput {
    pub hospital: Option<String>,
    pub ward: Option<String>,
    pub address: Option<String>,
    pub code: Option<String>,
}

/// Outcome of a workplace mutation.
#[derive(Clone, Debug)]
pub struct WorkplaceMutationResponse {
    pub success: bool,
    pub message: Option<String>,
}

/// What depends on a role or workplace, shown before a cascading delete.
#[derive(Clone, Copy, Debug, PartialEq, Eq, Structural)]
pub struct DependencyCount {
    pub roles: i32,
    pub user_roles: i32,
    pub job_plans: i32,
    pub shifts: i32,
    pub shift_requests: i32,
    pub templates: i32,
    pub diary_entries: i32,
    pub audit_entries: i32,
    pub cod_entries: i32,
    pub unique_staff: i32,
}

/// Outcome of a template mutation.
#[derive(Clone, Debug)]
pub struct TemplateMutationResponse {
    pub success: bool,
    pub message: Option<String>,
}

/// A category of time off, with its display colours.
#[derive(Clone, Debug)]
pub struct TimeOffCategory {
    pub id: i32,
    pub label: String,
    pub short_name: String,
    pub font_color: String,
    pub bk_color: String,
}

/// One staff member as shown in filter drop-downs.
#[derive(Clone, Debug)]
pub struct StaffFilterOption {
    pub user_profile_id: i32,
    pub short_name: String,
    pub full_name: String,
    pub color: Option<String>,
}

/// Self-service profile update.
#[derive(Clone, Debug)]
pub struct UpdateOwnProfileInput {
    pub short_name: String,
    pub tel: Option<Vec<String>>,
    pub color: Option<String>,
}

/// Self-service PIN change.
#[derive(Clone, Debug)]
pub struct ChangeOwnPinInput {
    pub current_pin: String,
    pub new_pin: String,
    pub confirm_new_pin: String,
}

/// Administrator's update of a staff profile; absent fields keep their
/// value.
#[derive(Clone, Debug)]
pub struct UpdateUserProfileInput {
    pub full_name: Option<String>,
    pub short_name: Option<String>,
    pub gmc: Option<i32>,
    pub primary_email: Option<String>,
    pub secondary_emails: Option<Vec<String>>,
    pub tel: Option<Vec<String>>,
    pub comment: Option<String>,
    pub auth_pin: Option<String>,
    pub color: Option<String>,
}

/// Outcome of a PIN operation; carries the new PIN only for an
/// administrator's reset.
#[derive(Clone, Debug)]
pub struct PinResponse {
    pub success: bool,
    pub new_pin: Option<String>,
    pub message: Option<String>,
}

/// A staff search by name or email.
#[derive(Clone, Debug)]
pub struct SearchUsersRequest {
    pub query: String,
    pub role_id: Option<i32>,
}

/// Fields of a new staff profile without a login.
#[derive(Clone, Debug)]
pub struct CreateUserProfileRequest {
    pub full_name: String,
    pub short_name: String,
    pub gmc: Option<i32>,
    pub primary_email: Option<String>,
    pub secondary_emails: Option<Vec<String>>,
    pub tel: Option<Vec<String>>,
    pub comment: Option<String>,
    pub auth_pin: Option<String>,
    pub color: Option<String>,
}

/// An email-availability question.
#[derive(Clone, Debug)]
pub struct CheckEmailRequest {
    pub email: String,
}

/// Where an email is already in use.
#[derive(Clone, Copy, Debug, PartialEq, Eq, Structural)]
pub struct CheckEmailResponse {
    pub used_for_login: bool,
    pub used_by_profile: bool,
    pub user_id: Option<i32>,
}

/// First step of a PIN change on a shared device: prove identity by PIN.
#[derive(Clone, Debug)]
pub struct VerifyIdentityRequest {
    pub user_profile_id: i32,
    pub pin: String,
}

/// The verification token handed out after a successful identity check.
#[derive(Clone, Debug)]
pub struct VerifyIdentityResponse {
    pub success: bool,
    pub token: Option<String>,
}

/// Second step of a PIN change on a shared device: redeem the token.
#[derive(Clone, Debug)]
pub struct ChangeProfilePinRequest {
    pub verification_token: String,
    pub new_pin: String,
    pub confirm_pin: String,
}

/// A bare success flag.
#[derive(Clone, Copy, Debug, PartialEq, Eq, Structural)]
pub struct SuccessResponse {
    pub success: bool,
}

/// Fields for creating a login for an existing staff profile.
#[derive(Clone, Debug)]
pub struct CreateLoginInput {
    pub email: String,
    pub temp_password: String,
    pub user_profile_id: i32,
    pub is_generic_login: bool,
    pub pin: Option<String>,
}

/// The link between the new login and the staff profile.
#[derive(Clone, Debug)]
pub struct CreateLoginResponse {
    pub auth_id: String,
    pub user_id: i32,
    pub is_generic_login: bool,
}

/// Self-service password change.
#[derive(Clone, Debug)]
pub struct ChangePasswordInput {
    pub current_password: String,
    pub new_password: String,
    pub confirm_new_password: String,
}

} // verus!
