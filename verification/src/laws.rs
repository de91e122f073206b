//! The guarantees of the workflow engine, stated and proved once and for
//! all.  Each law is phrased over the spec functions that the engine's own
//! contracts use, so together with those contracts it holds of every run.

use vstd::prelude::*;

use crate::engine::{
    has_shift, lemma_shift_at_index, settled_shifts, shift_at, shift_ids_unique, EngineState,
    ShiftRec,
};
use crate::permissions::UserRoleRow;
use crate::workflow::{
    claimed, transition_allowed, RequestKind, RequestStatus, WorkflowError,
};

verus! {

/// Status only ever moves forward.  Every transition of the table strictly
/// increases the lifecycle rank, and none leaves a terminal state; since
/// each engine operation ensures that the request it touches moves along
/// `transition_allowed` (and touches no other), no run of the engine can
/// move a status backwards or produce a transition outside the table.
pub proof fn lemma_status_moves_forward(from: RequestStatus, to: RequestStatus)
    requires
        transition_allowed(from, to),
    ensures
        from.rank() < to.rank(),
        !from.is_terminal(),
{
}

/// What one settlement does, and all it does: the claimed shift now
/// belongs to the candidate; the shift offered in return, when there is
/// one, now belongs to the requester; and every other shift record is
/// untouched.  The premises — both shifts present, and the offered shift
/// distinct from the claimed one — hold of every settlement the engine
/// performs: the operations validate the offer, and the store invariant
/// carries the distinctness to the admin path
/// ([`lemma_request_settlement`]).  Together with the engine contracts —
/// the directory changes only in the step that moves a request into
/// `Approved`, and `lemma_terminal_requests_frozen` shows that step
/// happens at most once per request — this is the "exactly one settlement
/// per approval" guarantee.
pub proof fn lemma_settlement_effect(
    shifts: Seq<ShiftRec>,
    shift_id: u128,
    candidate: i32,
    offered: Option<u128>,
    requester: i32,
)
    requires
        shift_ids_unique(shifts),
        has_shift(shifts, shift_id),
        offered matches Some(t) ==> has_shift(shifts, t) && t != shift_id,
    ensures
        ({
            let s2 = settled_shifts(shifts, shift_id, candidate, offered, requester);
            &&& s2.len() == shifts.len()
            &&& shift_ids_unique(s2)
            &&& shift_at(s2, shift_id).owner == Some(candidate)
            &&& shift_at(s2, shift_id).id == shift_id
            &&& (offered matches Some(t) ==> shift_at(s2, t).owner == Some(requester)
                && shift_at(s2, t).id == t)
            &&& forall|i: int|
                0 <= i < shifts.len() && (#[trigger] shifts[i]).id != shift_id && Some(
                    shifts[i].id,
                ) != offered ==> s2[i] == shifts[i]
        }),
{
    let s2 = settled_shifts(shifts, shift_id, candidate, offered, requester);
    crate::engine::lemma_settled_preserves(shifts, shift_id, candidate, offered, requester);
    let w = choose|i: int| 0 <= i < shifts.len() && shifts[i].id == shift_id;
    assert(s2[w].id == shift_id && s2[w].owner == Some(candidate));
    lemma_shift_at_index(s2, w);
    match offered {
        Some(t) => {
            let v = choose|i: int| 0 <= i < shifts.len() && shifts[i].id == t;
            assert(s2[v].id == t && s2[v].owner == Some(requester));
            lemma_shift_at_index(s2, v);
        },
        None => (),
    }
}

/// Settlement of a stored request, with every premise discharged by the
/// store invariant: approving a well-formed request hands its shift to the
/// candidate, hands the recorded counter-offer (if any) back to the
/// requester, and touches no other shift.
pub proof fn lemma_request_settlement(s: &EngineState, request_id: u64, candidate: i32)
    requires
        s.wf(),
        s.has_req(request_id),
    ensures
        ({
            let r = s.req(request_id);
            let s2 = settled_shifts(
                s.shift_dir(),
                r.shift_id,
                candidate,
                r.target_shift_id,
                r.requester_id,
            );
            &&& s2.len() == s.shift_dir().len()
            &&& shift_ids_unique(s2)
            &&& shift_at(s2, r.shift_id).owner == Some(candidate)
            &&& (r.target_shift_id matches Some(t) ==> shift_at(s2, t).owner == Some(
                r.requester_id,
            ))
            &&& forall|i: int|
                0 <= i < s.shift_dir().len() && (#[trigger] s.shift_dir()[i]).id
                    != r.shift_id && Some(s.shift_dir()[i].id) != r.target_shift_id ==> s2[i]
                    == s.shift_dir()[i]
        }),
{
    assert(s.reqs()[request_id - 1] == s.req(request_id));
    lemma_settlement_effect(
        s.shift_dir(),
        s.req(request_id).shift_id,
        candidate,
        s.req(request_id).target_shift_id,
        s.req(request_id).requester_id,
    );
}

/// A counter-offer of the very shift being claimed is refused on both
/// claim paths, so no settlement ever reassigns one shift twice: the
/// claimed shift always ends with the candidate.
pub proof fn lemma_degenerate_offer_refused(
    s: &EngineState,
    caller: i32,
    request_id: u64,
)
    requires
        s.wf(),
        s.has_req(request_id),
    ensures
        s.accept_error(caller, request_id, Some(s.req(request_id).shift_id)) is Some,
        s.respond_error(caller, request_id, true, Some(s.req(request_id).shift_id)) is Some,
{
}

/// A terminal request is frozen: every engine action against it is
/// refused, and by the engine contracts a refused action leaves the store
/// untouched.  In particular a request that has settled can never settle
/// again, and an approved, rejected or cancelled request never changes
/// hands, status or fields.
pub proof fn lemma_terminal_requests_frozen(
    s: &EngineState,
    caller: i32,
    caller_roles: Seq<UserRoleRow>,
    is_super_admin: bool,
    request_id: u64,
    accept: bool,
    offered: Option<u128>,
)
    requires
        s.wf(),
        s.has_req(request_id),
        s.req(request_id).status.is_terminal(),
    ensures
        s.accept_error(caller, request_id, offered) is Some,
        s.respond_error(caller, request_id, accept, offered) is Some,
        s.admin_error(caller, caller_roles, is_super_admin, request_id) is Some,
        s.cancel_error(caller, request_id) is Some,
        s.req(request_id).requester_id == caller ==> s.cancel_error(caller, request_id) == Some(
            WorkflowError::AlreadyTerminal,
        ),
{
}

/// Two racing claims on the same open request have exactly one winner.
/// After one claim succeeds (its effect on the store is the `claimed`
/// update the engine contract states), any further claim on the same
/// request — by anyone, with any offer, however often it is retried —
/// is refused as a state conflict, and a refused claim leaves the store
/// untouched, so the loser can never double-claim.
pub proof fn lemma_race_single_winner(
    s: &EngineState,
    s2: &EngineState,
    winner: i32,
    loser: i32,
    request_id: u64,
    offered_winner: Option<u128>,
    offered_loser: Option<u128>,
    now: i64,
)
    requires
        s.wf(),
        s.accept_error(winner, request_id, offered_winner) is None,
        s2.reqs() == s.reqs().update(
            request_id - 1,
            claimed(s.req(request_id), winner, offered_winner, s.auto_for(request_id), now),
        ),
    ensures
        s2.accept_error(loser, request_id, offered_loser) == Some(WorkflowError::Conflict),
        s2.req(request_id).candidate_id == Some(winner),
{
}

/// Self-dealing is rejected at every transition that would set or use a
/// candidate, not only at creation: a requester cannot claim their own
/// open request, cannot be accepted as the target of their own proposal,
/// and an administrator cannot approve a request whose candidate is its
/// requester.  Creation itself refuses a swap addressed to the requester.
pub proof fn lemma_no_self_dealing(
    s: &EngineState,
    caller: i32,
    caller_roles: Seq<UserRoleRow>,
    is_super_admin: bool,
    request_id: u64,
    accept: bool,
    offered: Option<u128>,
    shift_id: u128,
    kind: RequestKind,
    target_user_id: Option<i32>,
)
    requires
        s.wf(),
    ensures
        s.has_req(request_id) && caller == s.req(request_id).requester_id ==> s.accept_error(
            caller,
            request_id,
            offered,
        ) is Some,
        s.has_req(request_id) && caller == s.req(request_id).requester_id ==> s.respond_error(
            caller,
            request_id,
            accept,
            offered,
        ) is Some,
        s.has_req(request_id) && s.req(request_id).candidate_id == Some(
            s.req(request_id).requester_id,
        ) ==> s.admin_error(caller, caller_roles, is_super_admin, request_id) is Some,
        target_user_id == Some(caller) ==> s.create_error(caller, shift_id, kind, target_user_id)
            is Some,
        forall|i: int|
            0 <= i < s.reqs().len() ==> ((#[trigger] s.reqs()[i]).candidate_id matches Some(c)
                ==> c != s.reqs()[i].requester_id),
{
    assert forall|i: int|
        0 <= i < s.reqs().len() implies ((#[trigger] s.reqs()[i]).candidate_id matches Some(c)
        ==> c != s.reqs()[i].requester_id) by {
        assert(crate::workflow::wf_request(s.reqs()[i]));
    };
}

/// Cancellation is refused once a request is approved, rejected or
/// already cancelled; for the requester themselves the refusal is
/// precisely `AlreadyTerminal`.
pub proof fn lemma_cancel_refused_when_terminal(s: &EngineState, caller: i32, request_id: u64)
    requires
        s.wf(),
        s.has_req(request_id),
        s.req(request_id).status.is_terminal(),
    ensures
        s.cancel_error(caller, request_id) is Some,
        s.req(request_id).requester_id == caller ==> s.cancel_error(caller, request_id) == Some(
            WorkflowError::AlreadyTerminal,
        ),
{
}

} // verus!
