use shift_exchange::engine::EngineState;
use shift_exchange::permissions::UserRoleRow;
use shift_exchange::workflow::{RequestKind, WorkflowError};

const ALICE: i32 = 1;
const BOB: i32 = 2;
const CAROL: i32 = 3;

fn rota_editor(admin: i32) -> Vec<UserRoleRow> {
    vec![UserRoleRow {
        id: 0,
        role_id: 0,
        user_profile_id: admin,
        can_edit_rota: true,
        can_access_diary: false,
        can_work_shifts: false,
        can_edit_templates: false,
        can_edit_staff: false,
        can_view_staff_details: false,
    }]
}

fn setup() -> EngineState {
    let mut s = EngineState::new();
    s.add_policy(1, false);
    s.add_policy(2, false);
    assert!(s.add_shift(11, Some(ALICE), 1, true));
    assert!(s.add_shift(12, Some(ALICE), 2, true));
    assert!(s.add_shift(21, Some(BOB), 1, true));
    s
}

#[test]
fn open_view_is_newest_first_and_filterable() {
    let mut s = setup();
    let a = s
        .create_request(ALICE, 11, RequestKind::GiveAway, None, None, 10)
        .unwrap();
    let b = s
        .create_request(ALICE, 12, RequestKind::GiveAway, None, None, 20)
        .unwrap();
    let c = s
        .create_request(BOB, 21, RequestKind::GiveAway, None, None, 30)
        .unwrap();
    assert_eq!(s.list_open(None), vec![c, b, a]);
    assert_eq!(s.list_open(Some(1)), vec![c, a]);
    assert_eq!(s.list_open(Some(2)), vec![b]);
    // A cancelled request leaves the open view.
    s.cancel_request(BOB, c, 40).unwrap();
    assert_eq!(s.list_open(Some(1)), vec![a]);
}

#[test]
fn mine_view_lists_all_my_requests() {
    let mut s = setup();
    let a = s
        .create_request(ALICE, 11, RequestKind::GiveAway, None, None, 10)
        .unwrap();
    let b = s
        .create_request(BOB, 21, RequestKind::Swap, Some(ALICE), None, 20)
        .unwrap();
    let c = s
        .create_request(ALICE, 12, RequestKind::GiveAway, None, None, 30)
        .unwrap();
    s.cancel_request(ALICE, a, 40).unwrap();
    // Cancelled or not, they are mine, newest first.
    assert_eq!(s.list_mine(ALICE), vec![c, a]);
    assert_eq!(s.list_mine(BOB), vec![b]);
    assert_eq!(s.list_mine(CAROL), Vec::<u64>::new());
}

#[test]
fn incoming_view_lists_open_proposals_to_me() {
    let mut s = setup();
    let a = s
        .create_request(ALICE, 11, RequestKind::Swap, Some(BOB), None, 10)
        .unwrap();
    let b = s
        .create_request(ALICE, 12, RequestKind::Swap, Some(BOB), None, 20)
        .unwrap();
    assert_eq!(s.list_incoming(BOB), vec![b, a]);
    // Once answered, a proposal is no longer incoming.
    s.respond_to_proposal(BOB, a, false, None, 30).unwrap();
    assert_eq!(s.list_incoming(BOB), vec![b]);
    assert_eq!(s.list_incoming(CAROL), Vec::<u64>::new());
}

#[test]
fn approval_queue_is_oldest_first() {
    let mut s = setup();
    let a = s
        .create_request(ALICE, 11, RequestKind::GiveAway, None, None, 10)
        .unwrap();
    let b = s
        .create_request(ALICE, 12, RequestKind::GiveAway, None, None, 20)
        .unwrap();
    s.accept_open_request(BOB, b, None, 30).unwrap();
    s.accept_open_request(CAROL, a, None, 40).unwrap();
    // Review order follows creation order, not claim order.
    let admin = rota_editor(9);
    assert_eq!(s.list_pending_approval(&admin, false, None), Ok(vec![a, b]));
    assert_eq!(s.list_pending_approval(&admin, false, Some(2)), Ok(vec![b]));
    // A super administrator needs no role flag.
    assert_eq!(s.list_pending_approval(&vec![], true, None), Ok(vec![a, b]));
}

#[test]
fn approval_queue_is_gated_on_rota_permission() {
    let mut s = setup();
    let a = s
        .create_request(ALICE, 11, RequestKind::GiveAway, None, None, 10)
        .unwrap();
    s.accept_open_request(BOB, a, None, 20).unwrap();
    // Without the rota-editing permission, nothing of the queue is shown.
    assert_eq!(
        s.list_pending_approval(&vec![], false, None),
        Err(WorkflowError::Forbidden)
    );
}

#[test]
fn swappable_shifts_are_owned_published_and_of_the_role() {
    let mut s = setup();
    // Unowned and unpublished shifts of role 1, and a shift of role 2.
    assert!(s.add_shift(31, None, 1, true));
    assert!(s.add_shift(32, Some(CAROL), 1, false));
    assert!(s.add_shift(33, Some(CAROL), 2, true));
    assert_eq!(s.list_swappable(1), vec![11, 21]);
    assert_eq!(s.list_swappable(2), vec![12, 33]);
    assert_eq!(s.list_swappable(3), Vec::<u128>::new());
}

#[test]
fn dashboard_counts_reflect_the_store() {
    let mut s = setup();
    s.create_request(ALICE, 11, RequestKind::GiveAway, None, None, 10)
        .unwrap();
    s.create_request(ALICE, 12, RequestKind::Swap, Some(BOB), None, 20)
        .unwrap();
    s.create_request(BOB, 21, RequestKind::GiveAway, None, None, 30)
        .unwrap();
    let c = s.dashboard_counts(BOB);
    assert_eq!(c.open_count, 2);
    assert_eq!(c.mine_count, 1);
    assert_eq!(c.incoming_count, 1);
    let c = s.dashboard_counts(CAROL);
    assert_eq!(c.open_count, 2);
    assert_eq!(c.mine_count, 0);
    assert_eq!(c.incoming_count, 0);
}
