use shift_exchange::engine::EngineState;
use shift_exchange::permissions::UserRoleRow;
use shift_exchange::workflow::{RequestKind, RequestStatus, WorkflowError};

const ALICE: i32 = 1;
const BOB: i32 = 2;
const CAROL: i32 = 3;
const ADMIN: i32 = 9;

const S1: u128 = 11;
const S2: u128 = 22;

fn admin_roles() -> Vec<UserRoleRow> {
    vec![UserRoleRow {
        id: 1,
        role_id: 1,
        user_profile_id: ADMIN,
        can_edit_rota: true,
        can_access_diary: false,
        can_work_shifts: false,
        can_edit_templates: false,
        can_edit_staff: false,
        can_view_staff_details: false,
    }]
}

fn powerless_roles() -> Vec<UserRoleRow> {
    vec![UserRoleRow {
        id: 2,
        role_id: 1,
        user_profile_id: CAROL,
        can_edit_rota: false,
        can_access_diary: true,
        can_work_shifts: true,
        can_edit_templates: false,
        can_edit_staff: false,
        can_view_staff_details: false,
    }]
}

fn setup(auto_approve: bool) -> EngineState {
    let mut s = EngineState::new();
    s.add_policy(1, auto_approve);
    assert!(s.add_shift(S1, Some(ALICE), 1, true));
    assert!(s.add_shift(S2, Some(BOB), 1, true));
    s
}

#[test]
fn giveaway_claim_waits_for_admin_then_settles() {
    // Role without auto-approval: a claim parks the request for review,
    // and only the administrator's approval moves the shift.
    let mut s = setup(false);
    let id = s
        .create_request(ALICE, S1, RequestKind::GiveAway, None, None, 100)
        .unwrap();
    assert_eq!(s.get_request(id).unwrap().status, RequestStatus::Open);

    let st = s.accept_open_request(BOB, id, None, 200).unwrap();
    assert_eq!(st, RequestStatus::PendingApproval);
    let r = s.get_request(id).unwrap();
    assert_eq!(r.candidate_id, Some(BOB));
    assert_eq!(s.shift_record(S1).unwrap().owner, Some(ALICE));

    let st = s
        .admin_decide(ADMIN, &admin_roles(), false, id, true, None, 300)
        .unwrap();
    assert_eq!(st, RequestStatus::Approved);
    assert_eq!(s.shift_record(S1).unwrap().owner, Some(BOB));
    let r = s.get_request(id).unwrap();
    assert_eq!(r.status, RequestStatus::Approved);
    assert_eq!(r.resolved_by, Some(ADMIN));
    assert_eq!(r.resolved_at, Some(300));
}

#[test]
fn auto_approved_swap_settles_immediately() {
    // Role with auto-approval: the target's acceptance settles both
    // shifts at once.
    let mut s = setup(true);
    let id = s
        .create_request(ALICE, S1, RequestKind::Swap, Some(BOB), None, 100)
        .unwrap();
    assert_eq!(s.get_request(id).unwrap().status, RequestStatus::Proposed);

    let st = s.respond_to_proposal(BOB, id, true, Some(S2), 200).unwrap();
    assert_eq!(st, RequestStatus::Approved);
    assert_eq!(s.shift_record(S1).unwrap().owner, Some(BOB));
    assert_eq!(s.shift_record(S2).unwrap().owner, Some(ALICE));
    let r = s.get_request(id).unwrap();
    assert_eq!(r.status, RequestStatus::Approved);
    assert_eq!(r.candidate_id, Some(BOB));
    assert_eq!(r.target_shift_id, Some(S2));
    assert_eq!(r.resolved_by, Some(BOB));
}

#[test]
fn cancel_leaves_shift_untouched() {
    let mut s = setup(false);
    let id = s
        .create_request(ALICE, S1, RequestKind::GiveAway, None, None, 100)
        .unwrap();
    let st = s.cancel_request(ALICE, id, 150).unwrap();
    assert_eq!(st, RequestStatus::Cancelled);
    let r = s.get_request(id).unwrap();
    assert_eq!(r.status, RequestStatus::Cancelled);
    assert_eq!(r.resolved_by, Some(ALICE));
    assert_eq!(s.shift_record(S1).unwrap().owner, Some(ALICE));
}

#[test]
fn second_claim_loses_with_a_conflict() {
    let mut s = setup(false);
    let id = s
        .create_request(ALICE, S1, RequestKind::GiveAway, None, None, 100)
        .unwrap();
    assert!(s.accept_open_request(BOB, id, None, 200).is_ok());
    // The racing second claim is refused and changes nothing.
    assert_eq!(
        s.accept_open_request(CAROL, id, None, 201),
        Err(WorkflowError::Conflict)
    );
    assert_eq!(s.get_request(id).unwrap().candidate_id, Some(BOB));
    // Retrying the losing call still cannot double-claim.
    assert_eq!(
        s.accept_open_request(CAROL, id, None, 202),
        Err(WorkflowError::Conflict)
    );
    assert_eq!(s.get_request(id).unwrap().candidate_id, Some(BOB));
}

#[test]
fn self_dealing_is_rejected_everywhere() {
    let mut s = setup(true);
    // At creation: a swap may not address its own requester.
    assert_eq!(
        s.create_request(ALICE, S1, RequestKind::Swap, Some(ALICE), None, 100),
        Err(WorkflowError::SelfDeal)
    );
    // At claim time: the requester may not claim their own request.
    let id = s
        .create_request(ALICE, S1, RequestKind::GiveAway, None, None, 100)
        .unwrap();
    assert_eq!(
        s.accept_open_request(ALICE, id, None, 200),
        Err(WorkflowError::SelfDeal)
    );
}

#[test]
fn offering_the_claimed_shift_back_is_refused() {
    // A counter-offer of the very shift being claimed would hand it
    // straight back to the requester; both claim paths refuse it.
    let mut s = setup(true);
    let open_id = s
        .create_request(ALICE, S1, RequestKind::GiveAway, None, None, 100)
        .unwrap();
    assert_eq!(
        s.accept_open_request(BOB, open_id, Some(S1), 200),
        Err(WorkflowError::SelfDeal)
    );
    assert_eq!(s.shift_record(S1).unwrap().owner, Some(ALICE));

    let swap_id = s
        .create_request(BOB, S2, RequestKind::Swap, Some(ALICE), None, 300)
        .unwrap();
    assert_eq!(
        s.respond_to_proposal(ALICE, swap_id, true, Some(S2), 400),
        Err(WorkflowError::SelfDeal)
    );
    assert_eq!(s.shift_record(S2).unwrap().owner, Some(BOB));
}

#[test]
fn admin_decision_replaces_notes() {
    // The decision's notes supersede the requester's; deciding without
    // notes clears them.
    let mut s = setup(false);
    let id = s
        .create_request(
            ALICE,
            S1,
            RequestKind::GiveAway,
            None,
            Some(String::from("taking leave")),
            100,
        )
        .unwrap();
    assert!(s.accept_open_request(BOB, id, None, 200).is_ok());
    assert!(s
        .admin_decide(ADMIN, &admin_roles(), false, id, true, None, 300)
        .is_ok());
    assert_eq!(s.get_request(id).unwrap().notes, None);
}

#[test]
fn cancel_refused_on_terminal_states() {
    let mut s = setup(true);
    let id = s
        .create_request(ALICE, S1, RequestKind::GiveAway, None, None, 100)
        .unwrap();
    assert!(s.accept_open_request(BOB, id, None, 200).is_ok());
    // Auto-approved, hence terminal.
    assert_eq!(
        s.cancel_request(ALICE, id, 300),
        Err(WorkflowError::AlreadyTerminal)
    );

    let id2 = s
        .create_request(BOB, S2, RequestKind::GiveAway, None, None, 400)
        .unwrap();
    assert!(s.cancel_request(BOB, id2, 500).is_ok());
    assert_eq!(
        s.cancel_request(BOB, id2, 600),
        Err(WorkflowError::AlreadyTerminal)
    );
}

#[test]
fn rejected_proposal_ends_without_settlement() {
    let mut s = setup(true);
    let id = s
        .create_request(ALICE, S1, RequestKind::Swap, Some(BOB), None, 100)
        .unwrap();
    let st = s.respond_to_proposal(BOB, id, false, None, 200).unwrap();
    assert_eq!(st, RequestStatus::Rejected);
    let r = s.get_request(id).unwrap();
    assert_eq!(r.resolved_by, Some(BOB));
    assert_eq!(r.candidate_id, None);
    assert_eq!(s.shift_record(S1).unwrap().owner, Some(ALICE));
}

#[test]
fn admin_rejection_keeps_ownership() {
    let mut s = setup(false);
    let id = s
        .create_request(ALICE, S1, RequestKind::GiveAway, None, None, 100)
        .unwrap();
    assert!(s.accept_open_request(BOB, id, None, 200).is_ok());
    let notes = Some(String::from("not this week"));
    let st = s
        .admin_decide(ADMIN, &admin_roles(), false, id, false, notes, 300)
        .unwrap();
    assert_eq!(st, RequestStatus::Rejected);
    let r = s.get_request(id).unwrap();
    assert_eq!(r.notes, Some(String::from("not this week")));
    assert_eq!(s.shift_record(S1).unwrap().owner, Some(ALICE));
}

#[test]
fn error_variants_cover_the_surface() {
    let mut s = setup(false);

    // NotFound: no such request.
    assert_eq!(
        s.accept_open_request(BOB, 99, None, 1),
        Err(WorkflowError::NotFound)
    );
    // NotOwner: the caller does not own the shift (or it does not exist).
    assert_eq!(
        s.create_request(BOB, S1, RequestKind::GiveAway, None, None, 1),
        Err(WorkflowError::NotOwner)
    );
    assert_eq!(
        s.create_request(BOB, 777, RequestKind::GiveAway, None, None, 1),
        Err(WorkflowError::NotOwner)
    );
    // InvalidKind: swap without a target, give-away with one.
    assert_eq!(
        s.create_request(ALICE, S1, RequestKind::Swap, None, None, 1),
        Err(WorkflowError::InvalidKind)
    );
    assert_eq!(
        s.create_request(ALICE, S1, RequestKind::GiveAway, Some(BOB), None, 1),
        Err(WorkflowError::InvalidKind)
    );

    let open_id = s
        .create_request(ALICE, S1, RequestKind::GiveAway, None, None, 2)
        .unwrap();
    let proposed_id = s
        .create_request(BOB, S2, RequestKind::Swap, Some(ALICE), None, 3)
        .unwrap();

    // NotOpen: claiming a directed proposal.
    assert_eq!(
        s.accept_open_request(CAROL, proposed_id, None, 4),
        Err(WorkflowError::NotOpen)
    );
    // NotProposed: responding to an open give-away.
    assert_eq!(
        s.respond_to_proposal(BOB, open_id, true, None, 5),
        Err(WorkflowError::NotProposed)
    );
    // NotTarget: responding to someone else's proposal.
    assert_eq!(
        s.respond_to_proposal(CAROL, proposed_id, true, None, 6),
        Err(WorkflowError::NotTarget)
    );
    // NotFound again: offering a shift the directory does not hold.
    assert_eq!(
        s.accept_open_request(BOB, open_id, Some(404), 7),
        Err(WorkflowError::NotFound)
    );
    // Forbidden: deciding without the rota-editing permission.
    assert_eq!(
        s.admin_decide(CAROL, &powerless_roles(), false, open_id, true, None, 8),
        Err(WorkflowError::Forbidden)
    );
    // NotPendingApproval: deciding a request nobody has claimed.
    assert_eq!(
        s.admin_decide(ADMIN, &admin_roles(), false, open_id, true, None, 9),
        Err(WorkflowError::NotPendingApproval)
    );
    // NotRequester: cancelling someone else's request.
    assert_eq!(
        s.cancel_request(BOB, open_id, 10),
        Err(WorkflowError::NotRequester)
    );

    // Conflict: deciding an already-resolved request.
    assert!(s.accept_open_request(BOB, open_id, None, 11).is_ok());
    assert!(s
        .admin_decide(ADMIN, &admin_roles(), false, open_id, true, None, 12)
        .is_ok());
    assert_eq!(
        s.admin_decide(ADMIN, &admin_roles(), false, open_id, true, None, 13),
        Err(WorkflowError::Conflict)
    );
    assert_eq!(
        s.respond_to_proposal(ALICE, open_id, true, None, 14),
        Err(WorkflowError::Conflict)
    );
}

#[test]
fn super_admin_bypasses_role_flags() {
    let mut s = setup(false);
    let id = s
        .create_request(ALICE, S1, RequestKind::GiveAway, None, None, 1)
        .unwrap();
    assert!(s.accept_open_request(BOB, id, None, 2).is_ok());
    let no_roles: Vec<UserRoleRow> = vec![];
    let st = s
        .admin_decide(ADMIN, &no_roles, true, id, true, None, 3)
        .unwrap();
    assert_eq!(st, RequestStatus::Approved);
}

#[test]
fn status_only_moves_forward_through_a_lifecycle() {
    let mut s = setup(false);
    let id = s
        .create_request(ALICE, S1, RequestKind::GiveAway, None, None, 1)
        .unwrap();
    let mut seen = vec![s.get_request(id).unwrap().status];
    s.accept_open_request(BOB, id, None, 2).unwrap();
    seen.push(s.get_request(id).unwrap().status);
    s.admin_decide(ADMIN, &admin_roles(), false, id, true, None, 3)
        .unwrap();
    seen.push(s.get_request(id).unwrap().status);
    assert_eq!(
        seen,
        vec![
            RequestStatus::Open,
            RequestStatus::PendingApproval,
            RequestStatus::Approved
        ]
    );
    // Nothing moves it again.
    assert!(s.cancel_request(ALICE, id, 4).is_err());
    assert!(s.respond_to_proposal(BOB, id, false, None, 5).is_err());
    assert_eq!(s.get_request(id).unwrap().status, RequestStatus::Approved);
}

#[test]
fn settlement_touches_only_the_named_shifts() {
    let mut s = setup(true);
    assert!(s.add_shift(33, Some(CAROL), 1, true));
    let id = s
        .create_request(ALICE, S1, RequestKind::Swap, Some(BOB), None, 1)
        .unwrap();
    s.respond_to_proposal(BOB, id, true, Some(S2), 2).unwrap();
    assert_eq!(s.shift_record(S1).unwrap().owner, Some(BOB));
    assert_eq!(s.shift_record(S2).unwrap().owner, Some(ALICE));
    assert_eq!(s.shift_record(33).unwrap().owner, Some(CAROL));
}
