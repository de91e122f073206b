//! Read-side projections over the request store.  They never mutate state
//! and reflect it exactly: each view lists the identifiers of precisely
//! the matching requests, newest first (or oldest first for the approval
//! queue, which administrators review in arrival order).

use vstd::prelude::*;

use crate::engine::{has_shift, shift_at, shift_ids_unique, EngineState, ShiftRec};
use crate::permissions::{has_permission, spec_has_permission, Permission, UserRoleRow};
use crate::workflow::{ExchangeRequest, RequestStatus, WorkflowError};

verus! {

/// The identifiers of the requests among the first `k` that satisfy
/// `pred`, listed from the newest (highest index) down to the oldest.
pub open spec fn desc_ids(
    reqs: Seq<ExchangeRequest>,
    k: int,
    pred: spec_fn(ExchangeRequest) -> bool,
) -> Seq<u64>
    decreases k,
{
    if k <= 0 {
        Seq::empty()
    } else {
        (if pred(reqs[k - 1]) {
            seq![reqs[k - 1].id]
        } else {
            Seq::empty()
        }) + desc_ids(reqs, k - 1, pred)
    }
}

/// The identifiers of the requests among the first `k` that satisfy
/// `pred`, listed from the oldest (lowest index) up.
pub open spec fn asc_ids(
    reqs: Seq<ExchangeRequest>,
    k: int,
    pred: spec_fn(ExchangeRequest) -> bool,
) -> Seq<u64>
    decreases k,
{
    if k <= 0 {
        Seq::empty()
    } else {
        asc_ids(reqs, k - 1, pred) + (if pred(reqs[k - 1]) {
            seq![reqs[k - 1].id]
        } else {
            Seq::empty()
        })
    }
}

/// Whether a request's shift belongs to the role a view filters by (no
/// filter matches everything).
pub open spec fn spec_role_matches(
    s: &EngineState,
    r: ExchangeRequest,
    role_filter: Option<i32>,
) -> bool {
    match role_filter {
        None => true,
        Some(rid) => shift_at(s.shift_dir(), r.shift_id).role_id == rid,
    }
}

/// The predicate of the open-marketplace view: open requests, optionally
/// of one role.
pub open spec fn open_pred(s: &EngineState, role_filter: Option<i32>) -> spec_fn(
    ExchangeRequest,
) -> bool {
    |r: ExchangeRequest| r.status == RequestStatus::Open && spec_role_matches(s, r, role_filter)
}

/// The predicate of the caller's-own view: everything they requested.
pub open spec fn mine_pred(caller: i32) -> spec_fn(ExchangeRequest) -> bool {
    |r: ExchangeRequest| r.requester_id == caller
}

/// The predicate of the incoming view: proposals addressed to the caller
/// that still await their response.
pub open spec fn incoming_pred(caller: i32) -> spec_fn(ExchangeRequest) -> bool {
    |r: ExchangeRequest| r.target_user_id == Some(caller) && r.status == RequestStatus::Proposed
}

/// The predicate of the approval queue: claims waiting on an
/// administrator, optionally of one role.
pub open spec fn pending_pred(s: &EngineState, role_filter: Option<i32>) -> spec_fn(
    ExchangeRequest,
) -> bool {
    |r: ExchangeRequest| r.status == RequestStatus::PendingApproval && spec_role_matches(
        s,
        r,
        role_filter,
    )
}

/// Whether a shift may be offered on the marketplace: it must belong to
/// the requested role, have an owner to take it from, and be published on
/// the rota.
pub open spec fn spec_swappable(rec: ShiftRec, role_id: i32) -> bool {
    rec.role_id == role_id && rec.owner is Some && rec.published
}

/// The identities of the swap-eligible shifts among the first `k` of the
/// directory, in directory order.
pub open spec fn swappable_ids(shifts: Seq<ShiftRec>, k: int, role_id: i32) -> Seq<u128>
    decreases k,
{
    if k <= 0 {
        Seq::empty()
    } else {
        swappable_ids(shifts, k - 1, role_id) + (if spec_swappable(shifts[k - 1], role_id) {
            seq![shifts[k - 1].id]
        } else {
            Seq::empty()
        })
    }
}

/// Counts shown on the marketplace dashboard.
#[derive(Clone, Copy, Debug, PartialEq, Eq, Structural)]
pub struct DashboardCounts {
    pub open_count: usize,
    pub mine_count: usize,
    pub incoming_count: usize,
}

impl EngineState {
    /// Whether one request's shift passes a role filter.
    fn role_matches(&self, idx: usize, role_filter: Option<i32>) -> (m: bool)
        requires
            self.wf(),
            idx < self.reqs().len(),
        ensures
            m == spec_role_matches(self, self.reqs()[idx as int], role_filter),
    {
        match role_filter {
            None => true,
            Some(rid) => {
                let shift_id = self.requests_ref(idx).shift_id;
                match self.shift_record(shift_id) {
                    Some(rec) => rec.role_id == rid,
                    None => {
                        proof {
                            assert(has_shift(self.shift_dir(), self.reqs()[idx as int].shift_id));
                        }
                        false
                    },
                }
            },
        }
    }

    /// The open marketplace: open requests, optionally of one role,
    /// newest first.
    pub fn list_open(&self, role_filter: Option<i32>) -> (ids: Vec<u64>)
        requires
            self.wf(),
        ensures
            ids@ == desc_ids(
                self.reqs(),
                self.reqs().len() as int,
                open_pred(self, role_filter),
            ),
    {
        let ghost pred = open_pred(self, role_filter);
        let mut ids: Vec<u64> = Vec::new();
        let mut i: usize = self.request_count();
        while i > 0
            invariant
                self.wf(),
                i <= self.reqs().len(),
                ids@ + desc_ids(self.reqs(), i as int, pred) == desc_ids(
                    self.reqs(),
                    self.reqs().len() as int,
                    pred,
                ),
                pred == open_pred(self, role_filter),
            decreases i,
        {
            i = i - 1;
            let matched = matches!(self.requests_ref(i).status, RequestStatus::Open)
                && self.role_matches(i, role_filter);
            if matched {
                ids.push(self.requests_ref(i).id);
            }
            proof {
                assert(ids@ + desc_ids(self.reqs(), i as int, pred) =~= desc_ids(
                    self.reqs(),
                    self.reqs().len() as int,
                    pred,
                ));
            }
        }
        proof {
            assert(ids@ =~= desc_ids(self.reqs(), self.reqs().len() as int, pred));
        }
        ids
    }

    /// Everything the caller has requested, newest first.
    pub fn list_mine(&self, caller: i32) -> (ids: Vec<u64>)
        requires
            self.wf(),
        ensures
            ids@ == desc_ids(self.reqs(), self.reqs().len() as int, mine_pred(caller)),
    {
        let ghost pred = mine_pred(caller);
        let mut ids: Vec<u64> = Vec::new();
        let mut i: usize = self.request_count();
        while i > 0
            invariant
                self.wf(),
                i <= self.reqs().len(),
                ids@ + desc_ids(self.reqs(), i as int, pred) == desc_ids(
                    self.reqs(),
                    self.reqs().len() as int,
                    pred,
                ),
                pred == mine_pred(caller),
            decreases i,
        {
            i = i - 1;
            if self.requests_ref(i).requester_id == caller {
                ids.push(self.requests_ref(i).id);
            }
            proof {
                assert(ids@ + desc_ids(self.reqs(), i as int, pred) =~= desc_ids(
                    self.reqs(),
                    self.reqs().len() as int,
                    pred,
                ));
            }
        }
        proof {
            assert(ids@ =~= desc_ids(self.reqs(), self.reqs().len() as int, pred));
        }
        ids
    }

    /// Proposals addressed to the caller that await their response,
    /// newest first.
    pub fn list_incoming(&self, caller: i32) -> (ids: Vec<u64>)
        requires
            self.wf(),
        ensures
            ids@ == desc_ids(self.reqs(), self.reqs().len() as int, incoming_pred(caller)),
    {
        let ghost pred = incoming_pred(caller);
        let mut ids: Vec<u64> = Vec::new();
        let mut i: usize = self.request_count();
        while i > 0
            invariant
                self.wf(),
                i <= self.reqs().len(),
                ids@ + desc_ids(self.reqs(), i as int, pred) == desc_ids(
                    self.reqs(),
                    self.reqs().len() as int,
                    pred,
                ),
                pred == incoming_pred(caller),
            decreases i,
        {
            i = i - 1;
            let target_ok = match self.requests_ref(i).target_user_id {
                Some(t) => t == caller,
                None => false,
            };
            if target_ok && matches!(self.requests_ref(i).status, RequestStatus::Proposed) {
                ids.push(self.requests_ref(i).id);
            }
            proof {
                assert(ids@ + desc_ids(self.reqs(), i as int, pred) =~= desc_ids(
                    self.reqs(),
                    self.reqs().len() as int,
                    pred,
                ));
            }
        }
        proof {
            assert(ids@ =~= desc_ids(self.reqs(), self.reqs().len() as int, pred));
        }
        ids
    }

    /// The administrator review queue: claims awaiting a decision,
    /// optionally of one role, oldest first.  Gated on the rota-editing
    /// permission: a caller without it learns nothing of the queue.
    pub fn list_pending_approval(
        &self,
        caller_roles: &Vec<UserRoleRow>,
        is_super_admin: bool,
        role_filter: Option<i32>,
    ) -> (r: Result<Vec<u64>, WorkflowError>)
        requires
            self.wf(),
        ensures
            match r {
                Err(e) => e == WorkflowError::Forbidden && !spec_has_permission(
                    caller_roles@,
                    is_super_admin,
                    Permission::EditRota,
                ),
                Ok(ids) => spec_has_permission(caller_roles@, is_super_admin, Permission::EditRota)
                    && ids@ == asc_ids(
                    self.reqs(),
                    self.reqs().len() as int,
                    pending_pred(self, role_filter),
                ),
            },
    {
        if !has_permission(caller_roles, is_super_admin, Permission::EditRota) {
            return Err(WorkflowError::Forbidden);
        }
        Ok(self.pending_ids(role_filter))
    }

    /// The projection behind the review queue, ungated.
    fn pending_ids(&self, role_filter: Option<i32>) -> (ids: Vec<u64>)
        requires
            self.wf(),
        ensures
            ids@ == asc_ids(
                self.reqs(),
                self.reqs().len() as int,
                pending_pred(self, role_filter),
            ),
    {
        let ghost pred = pending_pred(self, role_filter);
        let mut ids: Vec<u64> = Vec::new();
        let n = self.request_count();
        let mut i: usize = 0;
        while i < n
            invariant
                self.wf(),
                n == self.reqs().len(),
                i <= n,
                ids@ == asc_ids(self.reqs(), i as int, pred),
                pred == pending_pred(self, role_filter),
            decreases n - i,
        {
            let matched = matches!(self.requests_ref(i).status, RequestStatus::PendingApproval)
                && self.role_matches(i, role_filter);
            if matched {
                ids.push(self.requests_ref(i).id);
            }
            proof {
                assert(ids@ =~= asc_ids(self.reqs(), i as int + 1, pred));
            }
            i = i + 1;
        }
        ids
    }

    /// The shifts of a role that can be offered in an exchange: owned and
    /// published, in directory order.  Date and time attributes are
    /// display concerns of the caller; eligibility is decided here.
    pub fn list_swappable(&self, role_id: i32) -> (ids: Vec<u128>)
        ensures
            ids@ == swappable_ids(self.shift_dir(), self.shift_dir().len() as int, role_id),
    {
        let mut ids: Vec<u128> = Vec::new();
        let n = self.shift_count();
        let mut i: usize = 0;
        while i < n
            invariant
                n == self.shift_dir().len(),
                i <= n,
                ids@ == swappable_ids(self.shift_dir(), i as int, role_id),
            decreases n - i,
        {
            let rec = self.shift_by_index(i);
            if rec.role_id == role_id && rec.owner.is_some() && rec.published {
                ids.push(rec.id);
            }
            proof {
                assert(ids@ =~= swappable_ids(self.shift_dir(), i as int + 1, role_id));
            }
            i = i + 1;
        }
        ids
    }

    /// The dashboard counters: how many requests are open to claim, how
    /// many the caller created, and how many proposals await their
    /// response.
    pub fn dashboard_counts(&self, caller: i32) -> (c: DashboardCounts)
        requires
            self.wf(),
        ensures
            c.open_count == desc_ids(
                self.reqs(),
                self.reqs().len() as int,
                open_pred(self, None),
            ).len(),
            c.mine_count == desc_ids(
                self.reqs(),
                self.reqs().len() as int,
                mine_pred(caller),
            ).len(),
            c.incoming_count == desc_ids(
                self.reqs(),
                self.reqs().len() as int,
                incoming_pred(caller),
            ).len(),
    {
        let open_ids = self.list_open(None);
        let mine_ids = self.list_mine(caller);
        let incoming_ids = self.list_incoming(caller);
        DashboardCounts {
            open_count: open_ids.len(),
            mine_count: mine_ids.len(),
            incoming_count: incoming_ids.len(),
        }
    }
}

} // verus!
