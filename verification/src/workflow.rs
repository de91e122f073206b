//! Core data model of the exchange workflow: request records, their
//! lifecycle states, the transition table, and the per-transition effects.

use vstd::prelude::*;

verus! {

/// Lifecycle state of an exchange request.
///
/// `Approved`, `Rejected` and `Cancelled` are terminal: no operation of the
/// engine modifies a request once it carries one of them.
#[derive(Clone, Copy, Debug, PartialEq, Eq, Structural)]
pub enum RequestStatus {
    Open,
    Proposed,
    PendingApproval,
    Approved,
    Rejected,
    Cancelled,
}

impl RequestStatus {
    /// A terminal status admits no further transition.
    pub open spec fn is_terminal(self) -> bool {
        self == RequestStatus::Approved || self == RequestStatus::Rejected
            || self == RequestStatus::Cancelled
    }

    /// How far along its lifecycle a request has moved; every allowed
    /// transition strictly increases this rank.
    pub open spec fn rank(self) -> int {
        match self {
            RequestStatus::Open => 0,
            RequestStatus::Proposed => 0,
            RequestStatus::PendingApproval => 1,
            RequestStatus::Approved => 2,
            RequestStatus::Rejected => 2,
            RequestStatus::Cancelled => 2,
        }
    }
}

/// The transition table of the workflow.  A pair `(from, to)` is allowed
/// exactly when some engine action may move a request from `from` to `to`:
/// a claim on an open request or an affirmative response to a proposal
/// moves it to `PendingApproval` (or straight to `Approved` under an
/// auto-approving role policy), a negative response or an administrator
/// rejection moves it to `Rejected`, an administrator approval moves it to
/// `Approved`, and the requester may cancel anything not yet terminal.
pub open spec fn transition_allowed(from: RequestStatus, to: RequestStatus) -> bool {
    match from {
        RequestStatus::Open => to == RequestStatus::PendingApproval
            || to == RequestStatus::Approved || to == RequestStatus::Cancelled,
        RequestStatus::Proposed => to == RequestStatus::PendingApproval
            || to == RequestStatus::Approved || to == RequestStatus::Rejected
            || to == RequestStatus::Cancelled,
        RequestStatus::PendingApproval => to == RequestStatus::Approved
            || to == RequestStatus::Rejected || to == RequestStatus::Cancelled,
        RequestStatus::Approved => false,
        RequestStatus::Rejected => false,
        RequestStatus::Cancelled => false,
    }
}

/// Kind of exchange a request asks for: a one-way give-away open to any
/// peer, or a swap addressed to one specific peer.
#[derive(Clone, Copy, Debug, PartialEq, Eq, Structural)]
pub enum RequestKind {
    GiveAway,
    Swap,
}

/// Why an engine action was refused.  Validation and authorization
/// failures are distinguished from state conflicts so that callers racing
/// one another can recognise that a request has simply moved on and
/// re-fetch instead of treating the refusal as final.
#[derive(Clone, Copy, Debug, PartialEq, Eq, Structural)]
pub enum WorkflowError {
    /// The request (or a shift named by the action) does not exist.
    NotFound,
    /// The caller does not own the shift being offered.
    NotOwner,
    /// The kind and the target peer of a new request do not fit together.
    InvalidKind,
    /// A claim was attempted on a request that is not part of the open
    /// give-away flow.
    NotOpen,
    /// A response was attempted on a request that is not part of the
    /// directed swap flow.
    NotProposed,
    /// The responding caller is not the peer the proposal addresses.
    NotTarget,
    /// An administrator decision was attempted before any peer claimed.
    NotPendingApproval,
    /// The request awaits approval but carries no candidate.
    NoCandidate,
    /// The action would make the requester their own counterparty: they
    /// address or claim their own request, or the shift offered in return
    /// is the very shift being claimed.
    SelfDeal,
    /// The caller lacks the rota-editing permission.
    Forbidden,
    /// Only the requester may cancel a request.
    NotRequester,
    /// The request is already in a terminal state and cannot be cancelled.
    AlreadyTerminal,
    /// The precondition read by the caller no longer holds: the request
    /// has been claimed, resolved or cancelled in the meantime.
    Conflict,
}

/// One exchange request.  `id`, `shift_id`, `requester_id` and `kind` are
/// fixed at creation; `status` moves only along `transition_allowed`;
/// `candidate_id` is set at most once, when a peer claims or accepts;
/// `resolved_by` and `resolved_at` are set exactly when the request
/// reaches a terminal state.
pub struct ExchangeRequest {
    pub id: u64,
    pub shift_id: u128,
    pub requester_id: i32,
    pub kind: RequestKind,
    pub status: RequestStatus,
    pub target_user_id: Option<i32>,
    pub target_shift_id: Option<u128>,
    pub candidate_id: Option<i32>,
    pub resolved_by: Option<i32>,
    pub resolved_at: Option<i64>,
    pub notes: Option<String>,
    pub created_at: i64,
    pub updated_at: i64,
}

/// Field coherence of a single request record, independent of the store
/// around it.
pub open spec fn wf_request(r: ExchangeRequest) -> bool {
    &&& (r.kind == RequestKind::Swap <==> r.target_user_id is Some)
    &&& (r.target_user_id matches Some(t) ==> t != r.requester_id)
    &&& (r.target_shift_id matches Some(t) ==> t != r.shift_id)
    &&& (r.candidate_id matches Some(c) ==> c != r.requester_id)
    &&& (r.status == RequestStatus::PendingApproval || r.status == RequestStatus::Approved
        ==> r.candidate_id is Some)
    &&& (r.status == RequestStatus::Open || r.status == RequestStatus::Proposed
        ==> r.candidate_id is None && r.target_shift_id is None)
    &&& (r.status == RequestStatus::Open ==> r.kind == RequestKind::GiveAway)
    &&& (r.status == RequestStatus::Proposed ==> r.kind == RequestKind::Swap)
    &&& (r.resolved_by is Some <==> r.status.is_terminal())
    &&& (r.resolved_at is Some <==> r.status.is_terminal())
}

/// The record a freshly created request holds.
pub open spec fn new_request(
    id: u64,
    caller: i32,
    shift_id: u128,
    kind: RequestKind,
    target_user_id: Option<i32>,
    notes: Option<String>,
    now: i64,
) -> ExchangeRequest {
    ExchangeRequest {
        id,
        shift_id,
        requester_id: caller,
        kind,
        status: if kind == RequestKind::Swap {
            RequestStatus::Proposed
        } else {
            RequestStatus::Open
        },
        target_user_id,
        target_shift_id: None,
        candidate_id: None,
        resolved_by: None,
        resolved_at: None,
        notes,
        created_at: now,
        updated_at: now,
    }
}

/// Effect of a peer claiming an open request or accepting a proposal:
/// the candidate attaches, the shift they offer in return (if any) is
/// recorded, and the request either settles at once (`auto`) or waits for
/// an administrator.
pub open spec fn claimed(
    r: ExchangeRequest,
    candidate: i32,
    offered: Option<u128>,
    auto: bool,
    now: i64,
) -> ExchangeRequest {
    ExchangeRequest {
        status: if auto {
            RequestStatus::Approved
        } else {
            RequestStatus::PendingApproval
        },
        candidate_id: Some(candidate),
        target_shift_id: offered,
        resolved_by: if auto {
            Some(candidate)
        } else {
            None
        },
        resolved_at: if auto {
            Some(now)
        } else {
            None
        },
        updated_at: now,
        ..r
    }
}

/// Effect of the addressed peer turning a proposal down.
pub open spec fn rejected_by_target(r: ExchangeRequest, target: i32, now: i64) -> ExchangeRequest {
    ExchangeRequest {
        status: RequestStatus::Rejected,
        resolved_by: Some(target),
        resolved_at: Some(now),
        updated_at: now,
        ..r
    }
}

/// Effect of an administrator decision.  An approval settles; either way
/// the administrator becomes the resolver, and the decision's notes
/// replace the request's — a decision without notes clears them.
pub open spec fn admin_resolved(
    r: ExchangeRequest,
    admin: i32,
    approve: bool,
    notes: Option<String>,
    now: i64,
) -> ExchangeRequest {
    ExchangeRequest {
        status: if approve {
            RequestStatus::Approved
        } else {
            RequestStatus::Rejected
        },
        resolved_by: Some(admin),
        resolved_at: Some(now),
        notes,
        updated_at: now,
        ..r
    }
}

/// Effect of the requester cancelling their own request.
pub open spec fn cancelled(r: ExchangeRequest, requester: i32, now: i64) -> ExchangeRequest {
    ExchangeRequest {
        status: RequestStatus::Cancelled,
        resolved_by: Some(requester),
        resolved_at: Some(now),
        updated_at: now,
        ..r
    }
}

} // verus!
