//! The exchange workflow engine: a request store and shift directory with
//! the five actions of the workflow, each performed as one atomic step.
//!
//! Every action validates against the current state and either applies its
//! full effect — the status move, the field updates and, on approval, the
//! settlement of shift ownership — or leaves the state untouched and
//! reports why.  Because validation and write are one step, a caller that
//! raced another and lost observes a state-conflict error rather than a
//! partial effect.

use vstd::prelude::*;
use vstd::pervasive::VecAdditionalExecFns;

use crate::permissions::{has_permission, spec_has_permission, Permission, UserRoleRow};
use crate::workflow::{
    admin_resolved, cancelled, claimed, new_request, rejected_by_target, transition_allowed,
    wf_request, ExchangeRequest, RequestKind, RequestStatus, WorkflowError,
};

verus! {

/// One shift of the directory: its identity, current owner, role, and
/// whether it is published on the rota.
#[derive(Clone, Copy, Debug, PartialEq, Eq, Structural)]
pub struct ShiftRec {
    pub id: u128,
    pub owner: Option<i32>,
    pub role_id: i32,
    pub published: bool,
}

/// The auto-approval policy of one role: when set, a peer claim on a shift
/// of this role settles immediately, without administrator review.
#[derive(Clone, Copy, Debug, PartialEq, Eq, Structural)]
pub struct RolePolicy {
    pub role_id: i32,
    pub auto_approve: bool,
}

/// No two shifts share an identity.
pub open spec fn shift_ids_unique(shifts: Seq<ShiftRec>) -> bool {
    forall|i: int, j: int|
        0 <= i < j < shifts.len() ==> shifts[i].id != shifts[j].id
}

/// Whether the directory holds a shift with this identity.
pub open spec fn has_shift(shifts: Seq<ShiftRec>, id: u128) -> bool {
    exists|i: int| 0 <= i < shifts.len() && shifts[i].id == id
}

/// The shift with this identity (meaningful only when `has_shift` holds).
pub open spec fn shift_at(shifts: Seq<ShiftRec>, id: u128) -> ShiftRec {
    shifts[choose|i: int| 0 <= i < shifts.len() && shifts[i].id == id]
}

/// The auto-approval flag of a role: the first policy entry for it, or
/// `false` when no policy was recorded.
pub open spec fn auto_of(policies: Seq<RolePolicy>, role_id: i32) -> bool
    decreases policies.len(),
{
    if policies.len() == 0 {
        false
    } else if policies[0].role_id == role_id {
        policies[0].auto_approve
    } else {
        auto_of(policies.drop_first(), role_id)
    }
}

/// The directory after the shift `id` is reassigned to `owner`; every
/// other shift keeps its record.
pub open spec fn reassigned(shifts: Seq<ShiftRec>, id: u128, owner: i32) -> Seq<ShiftRec> {
    Seq::new(
        shifts.len(),
        |i: int|
            if shifts[i].id == id {
                ShiftRec { owner: Some(owner), ..shifts[i] }
            } else {
                shifts[i]
            },
    )
}

/// Settlement: the claimed shift goes to the candidate and, when a shift
/// was offered in return, that shift goes back to the requester.  The two
/// reassignments are applied in this order, as one step.
pub open spec fn settled_shifts(
    shifts: Seq<ShiftRec>,
    shift_id: u128,
    candidate: i32,
    offered: Option<u128>,
    requester: i32,
) -> Seq<ShiftRec> {
    match offered {
        Some(t) => reassigned(reassigned(shifts, shift_id, candidate), t, requester),
        None => reassigned(shifts, shift_id, candidate),
    }
}

/// With unique identities, the shift `shift_at` selects is the one at the
/// witnessing index.
pub proof fn lemma_shift_at_index(shifts: Seq<ShiftRec>, w: int)
    requires
        shift_ids_unique(shifts),
        0 <= w < shifts.len(),
    ensures
        has_shift(shifts, shifts[w].id),
        shift_at(shifts, shifts[w].id) == shifts[w],
{
    let id = shifts[w].id;
    assert(has_shift(shifts, id));
    let c = choose|i: int| 0 <= i < shifts.len() && shifts[i].id == id;
    if c != w {
        assert(shifts[c].id != shifts[w].id);
    }
}

/// Reassignment changes nothing about the directory but the owner of the
/// named shift: length, identities, roles and published flags all stay,
/// and so does uniqueness of identities.
pub proof fn lemma_reassigned_preserves(shifts: Seq<ShiftRec>, id: u128, owner: i32)
    ensures
        reassigned(shifts, id, owner).len() == shifts.len(),
        forall|i: int|
            0 <= i < shifts.len() ==> (#[trigger] reassigned(shifts, id, owner)[i]).id
                == shifts[i].id && reassigned(shifts, id, owner)[i].role_id == shifts[i].role_id
                && reassigned(shifts, id, owner)[i].published == shifts[i].published,
        forall|x: u128| has_shift(reassigned(shifts, id, owner), x) == has_shift(shifts, x),
        shift_ids_unique(shifts) ==> shift_ids_unique(reassigned(shifts, id, owner)),
{
    let rs = reassigned(shifts, id, owner);
    assert forall|x: u128| has_shift(rs, x) == has_shift(shifts, x) by {
        if has_shift(shifts, x) {
            let w = choose|w: int| 0 <= w < shifts.len() && shifts[w].id == x;
            assert(rs[w].id == x);
        }
        if has_shift(rs, x) {
            let w = choose|w: int| 0 <= w < rs.len() && rs[w].id == x;
            assert(shifts[w].id == x);
        }
    };
}

/// [`lemma_reassigned_preserves`], lifted to a whole settlement.
pub proof fn lemma_settled_preserves(
    shifts: Seq<ShiftRec>,
    shift_id: u128,
    candidate: i32,
    offered: Option<u128>,
    requester: i32,
)
    ensures
        settled_shifts(shifts, shift_id, candidate, offered, requester).len() == shifts.len(),
        forall|x: u128|
            has_shift(settled_shifts(shifts, shift_id, candidate, offered, requester), x)
                == has_shift(shifts, x),
        shift_ids_unique(shifts) ==> shift_ids_unique(
            settled_shifts(shifts, shift_id, candidate, offered, requester),
        ),
{
    lemma_reassigned_preserves(shifts, shift_id, candidate);
    match offered {
        Some(t) => lemma_reassigned_preserves(
            reassigned(shifts, shift_id, candidate),
            t,
            requester,
        ),
        None => (),
    }
}

/// Set the owner of every shift whose identity matches (at most one, when
/// identities are unique).
fn reassign_all(shifts: &mut Vec<ShiftRec>, id: u128, owner: i32)
    ensures
        final(shifts)@ == reassigned(old(shifts)@, id, owner),
{
    let ghost orig = shifts@;
    let n = shifts.len();
    let mut i: usize = 0;
    while i < n
        invariant
            n == shifts@.len(),
            orig.len() == n,
            i <= n,
            forall|j: int| 0 <= j < i ==> shifts@[j] == reassigned(orig, id, owner)[j],
            forall|j: int| i <= j < n ==> shifts@[j] == orig[j],
        decreases n - i,
    {
        if shifts[i].id == id {
            let rec = shifts[i];
            shifts.set(i, ShiftRec { owner: Some(owner), ..rec });
        }
        i = i + 1;
    }
    proof {
        assert(shifts@ =~= reassigned(orig, id, owner));
    }
}

/// The request store and shift directory the engine acts on.  The engine
/// is the sole writer of request records; shifts enter the directory
/// through [`EngineState::add_shift`] and change owner only through
/// settlement.
pub struct EngineState {
    requests: Vec<ExchangeRequest>,
    shifts: Vec<ShiftRec>,
    policies: Vec<RolePolicy>,
}

impl EngineState {
    /// The stored requests, in creation order.
    pub closed spec fn reqs(&self) -> Seq<ExchangeRequest> {
        self.requests@
    }

    /// The shift directory.
    pub closed spec fn shift_dir(&self) -> Seq<ShiftRec> {
        self.shifts@
    }

    /// The recorded role policies.
    pub closed spec fn role_policies(&self) -> Seq<RolePolicy> {
        self.policies@
    }

    /// Whether a request with this identifier exists.  Identifiers are
    /// handed out densely, starting at 1, and requests are never deleted.
    pub open spec fn has_req(&self, id: u64) -> bool {
        1 <= id <= self.reqs().len()
    }

    /// The request with this identifier (meaningful only when `has_req`).
    pub open spec fn req(&self, id: u64) -> ExchangeRequest {
        self.reqs()[id - 1]
    }

    /// Well-formedness of the whole store: dense identifiers, coherent
    /// request records, and every shift a request names present in the
    /// directory.
    pub open spec fn wf(&self) -> bool {
        &&& self.reqs().len() < u64::MAX
        &&& forall|i: int|
            0 <= i < self.reqs().len() ==> (#[trigger] self.reqs()[i]).id == i + 1
        &&& forall|i: int| 0 <= i < self.reqs().len() ==> wf_request(#[trigger] self.reqs()[i])
        &&& forall|i: int|
            0 <= i < self.reqs().len() ==> has_shift(
                self.shift_dir(),
                (#[trigger] self.reqs()[i]).shift_id,
            )
        &&& forall|i: int|
            0 <= i < self.reqs().len() ==> ((#[trigger] self.reqs()[i]).target_shift_id matches Some(
                t,
            ) ==> has_shift(self.shift_dir(), t))
        &&& shift_ids_unique(self.shift_dir())
    }

    /// An empty store.
    pub fn new() -> (s: EngineState)
        ensures
            s.wf(),
            s.reqs().len() == 0,
            s.shift_dir().len() == 0,
            s.role_policies().len() == 0,
    {
        EngineState { requests: Vec::new(), shifts: Vec::new(), policies: Vec::new() }
    }

    /// How many requests the store holds.
    pub fn request_count(&self) -> (n: usize)
        ensures
            n == self.reqs().len(),
    {
        self.requests.len()
    }

    /// Read access to one request by its position in creation order.
    pub fn requests_ref(&self, idx: usize) -> (r: &ExchangeRequest)
        requires
            idx < self.reqs().len(),
        ensures
            *r == self.reqs()[idx as int],
    {
        &self.requests[idx]
    }

    /// Read access to one request.
    pub fn get_request(&self, id: u64) -> (r: Option<&ExchangeRequest>)
        ensures
            match r {
                Some(req) => self.has_req(id) && *req == self.req(id),
                None => !self.has_req(id),
            },
    {
        if id >= 1 && id <= self.requests.len() as u64 {
            let idx = (id - 1) as usize;
            Some(&self.requests[idx])
        } else {
            None
        }
    }

    /// How many shifts the directory holds.
    pub fn shift_count(&self) -> (n: usize)
        ensures
            n == self.shift_dir().len(),
    {
        self.shifts.len()
    }

    /// Read access to one shift by its position in the directory.
    pub fn shift_by_index(&self, idx: usize) -> (r: ShiftRec)
        requires
            idx < self.shift_dir().len(),
        ensures
            r == self.shift_dir()[idx as int],
    {
        self.shifts[idx]
    }

    /// Read access to one shift of the directory.
    pub fn shift_record(&self, id: u128) -> (r: Option<ShiftRec>)
        requires
            shift_ids_unique(self.shift_dir()),
        ensures
            match r {
                Some(rec) => has_shift(self.shift_dir(), id) && rec == shift_at(
                    self.shift_dir(),
                    id,
                ),
                None => !has_shift(self.shift_dir(), id),
            },
    {
        let mut i: usize = 0;
        while i < self.shifts.len()
            invariant
                i <= self.shift_dir().len(),
                shift_ids_unique(self.shift_dir()),
                forall|j: int| 0 <= j < i ==> (#[trigger] self.shift_dir()[j]).id != id,
            decreases self.shift_dir().len() - i,
        {
            if self.shifts[i].id == id {
                return Some(self.shifts[i]);
            }
            i = i + 1;
        }
        None
    }

    /// The auto-approval flag recorded for a role (`false` when none is).
    pub fn auto_approve(&self, role_id: i32) -> (r: bool)
        ensures
            r == auto_of(self.role_policies(), role_id),
    {
        proof {
            assert(self.role_policies().skip(0) =~= self.role_policies());
        }
        let mut i: usize = 0;
        while i < self.policies.len()
            invariant
                i <= self.role_policies().len(),
                auto_of(self.role_policies(), role_id) == auto_of(
                    self.role_policies().skip(i as int),
                    role_id,
                ),
            decreases self.role_policies().len() - i,
        {
            if self.policies[i].role_id == role_id {
                assert(self.role_policies().skip(i as int)[0] == self.role_policies()[i as int]);
                return self.policies[i].auto_approve;
            }
            proof {
                assert(self.role_policies().skip(i as int).drop_first() =~= self.role_policies()
                    .skip(i as int + 1));
            }
            i = i + 1;
        }
        proof {
            assert(self.role_policies().skip(i as int).len() == 0);
        }
        false
    }

    /// Record a shift in the directory.  Returns `false`, leaving the
    /// directory unchanged, when the identity is already present.
    pub fn add_shift(&mut self, id: u128, owner: Option<i32>, role_id: i32, published: bool) -> (r:
        bool)
        requires
            old(self).wf(),
        ensures
            final(self).wf(),
            final(self).reqs() == old(self).reqs(),
            final(self).role_policies() == old(self).role_policies(),
            if has_shift(old(self).shift_dir(), id) {
                r == false && final(self).shift_dir() == old(self).shift_dir()
            } else {
                r == true && final(self).shift_dir() == old(self).shift_dir().push(
                    ShiftRec { id, owner, role_id, published },
                ) && has_shift(final(self).shift_dir(), id) && shift_at(
                    final(self).shift_dir(),
                    id,
                ) == (ShiftRec { id, owner, role_id, published }) && (forall|x: u128|
                    has_shift(old(self).shift_dir(), x) ==> has_shift(final(self).shift_dir(), x)
                        && shift_at(final(self).shift_dir(), x) == shift_at(
                        old(self).shift_dir(),
                        x,
                    ))
            },
    {
        if self.shift_record(id).is_some() {
            return false;
        }
        self.shifts.push(ShiftRec { id, owner, role_id, published });
        proof {
            let olddir = old(self).shift_dir();
            let newdir = self.shift_dir();
            assert forall|i: int, j: int|
                0 <= i < j < newdir.len() implies newdir[i].id != newdir[j].id by {
                if j == newdir.len() - 1 {
                    assert(newdir[i] == olddir[i]);
                    if newdir[i].id == id {
                        assert(has_shift(olddir, id));
                    }
                }
            };
            lemma_shift_at_index(newdir, newdir.len() - 1);
            assert forall|x: u128| has_shift(olddir, x) implies has_shift(newdir, x) && shift_at(
                newdir,
                x,
            ) == shift_at(olddir, x) by {
                let w = choose|w: int| 0 <= w < olddir.len() && olddir[w].id == x;
                lemma_shift_at_index(olddir, w);
                assert(newdir[w] == olddir[w]);
                lemma_shift_at_index(newdir, w);
            };
        }
        true
    }

    /// Record the auto-approval policy of a role.  An earlier entry for
    /// the same role keeps precedence, so policies are effectively fixed
    /// at first recording.
    pub fn add_policy(&mut self, role_id: i32, auto_approve: bool)
        requires
            old(self).wf(),
        ensures
            final(self).wf(),
            final(self).reqs() == old(self).reqs(),
            final(self).shift_dir() == old(self).shift_dir(),
            final(self).role_policies() == old(self).role_policies().push(
                RolePolicy { role_id, auto_approve },
            ),
    {
        self.policies.push(RolePolicy { role_id, auto_approve });
    }

    /// When creation must be refused, and why: the caller must own the
    /// shift, the kind must fit the target (a swap names one peer, a
    /// give-away names none), and the requester may not address
    /// themselves.
    pub open spec fn create_error(
        &self,
        caller: i32,
        shift_id: u128,
        kind: RequestKind,
        target_user_id: Option<i32>,
    ) -> Option<WorkflowError> {
        if !has_shift(self.shift_dir(), shift_id) || shift_at(self.shift_dir(), shift_id).owner
            != Some(caller) {
            Some(WorkflowError::NotOwner)
        } else if (kind == RequestKind::Swap && target_user_id is None) || (kind
            == RequestKind::GiveAway && target_user_id is Some) {
            Some(WorkflowError::InvalidKind)
        } else if target_user_id == Some(caller) {
            Some(WorkflowError::SelfDeal)
        } else {
            None
        }
    }

    /// Create a new exchange request.
    ///
    /// A give-away starts `Open` for any peer to claim; a swap starts
    /// `Proposed`, addressed to its target peer.  A shift offered in
    /// return is recorded only when the counterparty later claims or
    /// accepts, never at creation, so `target_shift_id` of the new record
    /// is empty.  On success the new request's identifier is returned; on
    /// refusal the store is untouched.
    pub fn create_request(
        &mut self,
        caller: i32,
        shift_id: u128,
        kind: RequestKind,
        target_user_id: Option<i32>,
        notes: Option<String>,
        now: i64,
    ) -> (r: Result<u64, WorkflowError>)
        requires
            old(self).wf(),
            old(self).reqs().len() + 1 < u64::MAX,
        ensures
            final(self).wf(),
            final(self).shift_dir() == old(self).shift_dir(),
            final(self).role_policies() == old(self).role_policies(),
            match r {
                Err(e) => Some(e) == old(self).create_error(caller, shift_id, kind, target_user_id)
                    && final(self).reqs() == old(self).reqs(),
                Ok(id) => old(self).create_error(caller, shift_id, kind, target_user_id) is None
                    && id == old(self).reqs().len() + 1 && final(self).reqs() == old(self).reqs().push(
                    new_request(id, caller, shift_id, kind, target_user_id, notes, now),
                ),
            },
    {
        let shift = match self.shift_record(shift_id) {
            Some(rec) => rec,
            None => {
                return Err(WorkflowError::NotOwner);
            },
        };
        let owner_ok = match shift.owner {
            Some(o) => o == caller,
            None => false,
        };
        if !owner_ok {
            return Err(WorkflowError::NotOwner);
        }
        let swap = matches!(kind, RequestKind::Swap);
        if swap && target_user_id.is_none() {
            return Err(WorkflowError::InvalidKind);
        }
        if !swap && target_user_id.is_some() {
            return Err(WorkflowError::InvalidKind);
        }
        if let Some(t) = target_user_id {
            if t == caller {
                return Err(WorkflowError::SelfDeal);
            }
        }
        let id = self.requests.len() as u64 + 1;
        let status = if swap {
            RequestStatus::Proposed
        } else {
            RequestStatus::Open
        };
        self.requests.push(
            ExchangeRequest {
                id,
                shift_id,
                requester_id: caller,
                kind,
                status,
                target_user_id,
                target_shift_id: None,
                candidate_id: None,
                resolved_by: None,
                resolved_at: None,
                notes,
                created_at: now,
                updated_at: now,
            },
        );
        Ok(id)
    }

    /// Apply both reassignments of a settlement as one step.
    fn settle(&mut self, shift_id: u128, candidate: i32, offered: Option<u128>, requester: i32)
        ensures
            final(self).shift_dir() == settled_shifts(
                old(self).shift_dir(),
                shift_id,
                candidate,
                offered,
                requester,
            ),
            final(self).reqs() == old(self).reqs(),
            final(self).role_policies() == old(self).role_policies(),
    {
        reassign_all(&mut self.shifts, shift_id, candidate);
        if let Some(t) = offered {
            reassign_all(&mut self.shifts, t, requester);
        }
    }

    /// The auto-approval flag governing a request: the policy of the role
    /// of the shift it exchanges, read at the moment a claim or response
    /// is made.
    pub open spec fn auto_for(&self, request_id: u64) -> bool {
        auto_of(
            self.role_policies(),
            shift_at(self.shift_dir(), self.req(request_id).shift_id).role_id,
        )
    }

    /// When a claim on an open request must be refused, and why.  A
    /// request that is `Proposed` belongs to the directed swap flow
    /// (`NotOpen`); one that has already been claimed, resolved or
    /// cancelled has moved on, which a racing caller observes as a state
    /// conflict.  The requester may not claim their own request; a shift
    /// offered in return must exist and must not be the claimed shift
    /// itself, which would hand it straight back to the requester.
    pub open spec fn accept_error(
        &self,
        caller: i32,
        request_id: u64,
        offered: Option<u128>,
    ) -> Option<WorkflowError> {
        if !self.has_req(request_id) {
            Some(WorkflowError::NotFound)
        } else if self.req(request_id).status == RequestStatus::Proposed {
            Some(WorkflowError::NotOpen)
        } else if self.req(request_id).status != RequestStatus::Open {
            Some(WorkflowError::Conflict)
        } else if caller == self.req(request_id).requester_id {
            Some(WorkflowError::SelfDeal)
        } else if offered matches Some(t) && !has_shift(self.shift_dir(), t) {
            Some(WorkflowError::NotFound)
        } else if offered == Some(self.req(request_id).shift_id) {
            Some(WorkflowError::SelfDeal)
        } else {
            None
        }
    }

    /// Claim an open give-away request.
    ///
    /// The caller becomes the candidate and may offer a shift in return;
    /// under an auto-approving role policy the request settles at once,
    /// otherwise it waits for an administrator.  Validation and write are
    /// one atomic step: on any refusal the store is untouched, and a
    /// caller who read `Open` but lost a race observes `Conflict`.
    pub fn accept_open_request(
        &mut self,
        caller: i32,
        request_id: u64,
        offered_shift_id: Option<u128>,
        now: i64,
    ) -> (r: Result<RequestStatus, WorkflowError>)
        requires
            old(self).wf(),
        ensures
            final(self).wf(),
            final(self).role_policies() == old(self).role_policies(),
            match r {
                Err(e) => Some(e) == old(self).accept_error(caller, request_id, offered_shift_id)
                    && final(self).reqs() == old(self).reqs() && final(self).shift_dir() == old(
                    self,
                ).shift_dir(),
                Ok(st) => {
                    &&& old(self).accept_error(caller, request_id, offered_shift_id) is None
                    &&& st == if old(self).auto_for(request_id) {
                        RequestStatus::Approved
                    } else {
                        RequestStatus::PendingApproval
                    }
                    &&& final(self).reqs() == old(self).reqs().update(
                        request_id - 1,
                        claimed(
                            old(self).req(request_id),
                            caller,
                            offered_shift_id,
                            old(self).auto_for(request_id),
                            now,
                        ),
                    )
                    &&& final(self).shift_dir() == if old(self).auto_for(request_id) {
                        settled_shifts(
                            old(self).shift_dir(),
                            old(self).req(request_id).shift_id,
                            caller,
                            offered_shift_id,
                            old(self).req(request_id).requester_id,
                        )
                    } else {
                        old(self).shift_dir()
                    }
                    &&& transition_allowed(old(self).req(request_id).status, st)
                },
            },
    {
        if request_id < 1 || request_id > self.requests.len() as u64 {
            return Err(WorkflowError::NotFound);
        }
        let idx = (request_id - 1) as usize;
        let status = self.requests[idx].status;
        if matches!(status, RequestStatus::Proposed) {
            return Err(WorkflowError::NotOpen);
        }
        if !matches!(status, RequestStatus::Open) {
            return Err(WorkflowError::Conflict);
        }
        let requester = self.requests[idx].requester_id;
        if caller == requester {
            return Err(WorkflowError::SelfDeal);
        }
        if let Some(t) = offered_shift_id {
            if self.shift_record(t).is_none() {
                return Err(WorkflowError::NotFound);
            }
        }
        let shift_id = self.requests[idx].shift_id;
        if offered_shift_id == Some(shift_id) {
            return Err(WorkflowError::SelfDeal);
        }
        let srec = match self.shift_record(shift_id) {
            Some(s) => s,
            None => {
                proof {
                    assert(has_shift(self.shift_dir(), self.reqs()[idx as int].shift_id));
                }
                return Err(WorkflowError::NotFound);
            },
        };
        let auto = self.auto_approve(srec.role_id);
        {
            let req = &mut self.requests[idx];
            req.status = if auto {
                RequestStatus::Approved
            } else {
                RequestStatus::PendingApproval
            };
            req.candidate_id = Some(caller);
            req.target_shift_id = offered_shift_id;
            if auto {
                req.resolved_by = Some(caller);
                req.resolved_at = Some(now);
            }
            req.updated_at = now;
        }
        if auto {
            self.settle(shift_id, caller, offered_shift_id, requester);
        }
        proof {
            let pre = old(self);
            assert(self.reqs() =~= pre.reqs().update(
                request_id - 1,
                claimed(pre.req(request_id), caller, offered_shift_id, auto, now),
            ));
            if auto {
                lemma_settled_preserves(
                    pre.shift_dir(),
                    shift_id,
                    caller,
                    offered_shift_id,
                    requester,
                );
            }
            assert forall|i: int| 0 <= i < self.reqs().len() implies has_shift(
                self.shift_dir(),
                (#[trigger] self.reqs()[i]).shift_id,
            ) && (self.reqs()[i].target_shift_id matches Some(t) ==> has_shift(
                self.shift_dir(),
                t,
            )) by {
                assert(has_shift(pre.shift_dir(), pre.reqs()[i].shift_id));
            };
        }
        if auto {
            Ok(RequestStatus::Approved)
        } else {
            Ok(RequestStatus::PendingApproval)
        }
    }

    /// When a response to a proposal must be refused, and why.  An `Open`
    /// request belongs to the give-away flow (`NotProposed`); one already
    /// claimed, resolved or cancelled has moved on (`Conflict`).  Only the
    /// addressed peer may respond, never the requester themselves; a shift
    /// offered in return must exist and must not be the proposed shift
    /// itself.
    pub open spec fn respond_error(
        &self,
        caller: i32,
        request_id: u64,
        accept: bool,
        offered: Option<u128>,
    ) -> Option<WorkflowError> {
        if !self.has_req(request_id) {
            Some(WorkflowError::NotFound)
        } else if self.req(request_id).status == RequestStatus::Open {
            Some(WorkflowError::NotProposed)
        } else if self.req(request_id).status != RequestStatus::Proposed {
            Some(WorkflowError::Conflict)
        } else if self.req(request_id).target_user_id != Some(caller) {
            Some(WorkflowError::NotTarget)
        } else if caller == self.req(request_id).requester_id {
            Some(WorkflowError::SelfDeal)
        } else if accept && (offered matches Some(t) && !has_shift(self.shift_dir(), t)) {
            Some(WorkflowError::NotFound)
        } else if accept && offered == Some(self.req(request_id).shift_id) {
            Some(WorkflowError::SelfDeal)
        } else {
            None
        }
    }

    /// Answer a proposal addressed to the caller.
    ///
    /// An affirmative response makes the target the candidate, records the
    /// shift they offer in return, and settles at once or waits for an
    /// administrator, exactly as a claim does; a negative response ends
    /// the request as `Rejected`.  Validation and write are one atomic
    /// step.
    pub fn respond_to_proposal(
        &mut self,
        caller: i32,
        request_id: u64,
        accept: bool,
        offered_shift_id: Option<u128>,
        now: i64,
    ) -> (r: Result<RequestStatus, WorkflowError>)
        requires
            old(self).wf(),
        ensures
            final(self).wf(),
            final(self).role_policies() == old(self).role_policies(),
            match r {
                Err(e) => Some(e) == old(self).respond_error(
                    caller,
                    request_id,
                    accept,
                    offered_shift_id,
                ) && final(self).reqs() == old(self).reqs() && final(self).shift_dir() == old(
                    self,
                ).shift_dir(),
                Ok(st) => {
                    &&& old(self).respond_error(caller, request_id, accept, offered_shift_id)
                        is None
                    &&& if accept {
                        &&& st == if old(self).auto_for(request_id) {
                            RequestStatus::Approved
                        } else {
                            RequestStatus::PendingApproval
                        }
                        &&& final(self).reqs() == old(self).reqs().update(
                            request_id - 1,
                            claimed(
                                old(self).req(request_id),
                                caller,
                                offered_shift_id,
                                old(self).auto_for(request_id),
                                now,
                            ),
                        )
                        &&& final(self).shift_dir() == if old(self).auto_for(request_id) {
                            settled_shifts(
                                old(self).shift_dir(),
                                old(self).req(request_id).shift_id,
                                caller,
                                offered_shift_id,
                                old(self).req(request_id).requester_id,
                            )
                        } else {
                            old(self).shift_dir()
                        }
                    } else {
                        &&& st == RequestStatus::Rejected
                        &&& final(self).reqs() == old(self).reqs().update(
                            request_id - 1,
                            rejected_by_target(old(self).req(request_id), caller, now),
                        )
                        &&& final(self).shift_dir() == old(self).shift_dir()
                    }
                    &&& transition_allowed(old(self).req(request_id).status, st)
                },
            },
    {
        if request_id < 1 || request_id > self.requests.len() as u64 {
            return Err(WorkflowError::NotFound);
        }
        let idx = (request_id - 1) as usize;
        let status = self.requests[idx].status;
        if matches!(status, RequestStatus::Open) {
            return Err(WorkflowError::NotProposed);
        }
        if !matches!(status, RequestStatus::Proposed) {
            return Err(WorkflowError::Conflict);
        }
        let target_ok = match self.requests[idx].target_user_id {
            Some(t) => t == caller,
            None => false,
        };
        if !target_ok {
            return Err(WorkflowError::NotTarget);
        }
        let requester = self.requests[idx].requester_id;
        if caller == requester {
            return Err(WorkflowError::SelfDeal);
        }
        if accept {
            if let Some(t) = offered_shift_id {
                if self.shift_record(t).is_none() {
                    return Err(WorkflowError::NotFound);
                }
            }
            let shift_id = self.requests[idx].shift_id;
            if offered_shift_id == Some(shift_id) {
                return Err(WorkflowError::SelfDeal);
            }
            let srec = match self.shift_record(shift_id) {
                Some(s) => s,
                None => {
                    proof {
                        assert(has_shift(self.shift_dir(), self.reqs()[idx as int].shift_id));
                    }
                    return Err(WorkflowError::NotFound);
                },
            };
            let auto = self.auto_approve(srec.role_id);
            {
                let req = &mut self.requests[idx];
                req.status = if auto {
                    RequestStatus::Approved
                } else {
                    RequestStatus::PendingApproval
                };
                req.candidate_id = Some(caller);
                req.target_shift_id = offered_shift_id;
                if auto {
                    req.resolved_by = Some(caller);
                    req.resolved_at = Some(now);
                }
                req.updated_at = now;
            }
            if auto {
                self.settle(shift_id, caller, offered_shift_id, requester);
            }
            proof {
                let pre = old(self);
                assert(self.reqs() =~= pre.reqs().update(
                    request_id - 1,
                    claimed(pre.req(request_id), caller, offered_shift_id, auto, now),
                ));
                if auto {
                    lemma_settled_preserves(
                        pre.shift_dir(),
                        shift_id,
                        caller,
                        offered_shift_id,
                        requester,
                    );
                }
                assert forall|i: int| 0 <= i < self.reqs().len() implies has_shift(
                    self.shift_dir(),
                    (#[trigger] self.reqs()[i]).shift_id,
                ) && (self.reqs()[i].target_shift_id matches Some(t) ==> has_shift(
                    self.shift_dir(),
                    t,
                )) by {
                    assert(has_shift(pre.shift_dir(), pre.reqs()[i].shift_id));
                };
            }
            if auto {
                Ok(RequestStatus::Approved)
            } else {
                Ok(RequestStatus::PendingApproval)
            }
        } else {
            {
                let req = &mut self.requests[idx];
                req.status = RequestStatus::Rejected;
                req.resolved_by = Some(caller);
                req.resolved_at = Some(now);
                req.updated_at = now;
            }
            proof {
                let pre = old(self);
                assert(self.reqs() =~= pre.reqs().update(
                    request_id - 1,
                    rejected_by_target(pre.req(request_id), caller, now),
                ));
            }
            Ok(RequestStatus::Rejected)
        }
    }

    /// When an administrator decision must be refused, and why.  The
    /// caller must hold the rota-editing permission; a request not yet
    /// claimed is `NotPendingApproval`, one already resolved is a state
    /// conflict; a claimed request must carry a candidate who is not the
    /// requester.
    pub open spec fn admin_error(
        &self,
        caller: i32,
        caller_roles: Seq<UserRoleRow>,
        is_super_admin: bool,
        request_id: u64,
    ) -> Option<WorkflowError> {
        if !spec_has_permission(caller_roles, is_super_admin, Permission::EditRota) {
            Some(WorkflowError::Forbidden)
        } else if !self.has_req(request_id) {
            Some(WorkflowError::NotFound)
        } else if self.req(request_id).status == RequestStatus::Open || self.req(
            request_id,
        ).status == RequestStatus::Proposed {
            Some(WorkflowError::NotPendingApproval)
        } else if self.req(request_id).status != RequestStatus::PendingApproval {
            Some(WorkflowError::Conflict)
        } else if self.req(request_id).candidate_id is None {
            Some(WorkflowError::NoCandidate)
        } else if self.req(request_id).candidate_id == Some(self.req(request_id).requester_id) {
            Some(WorkflowError::SelfDeal)
        } else {
            None
        }
    }

    /// Decide a request that awaits administrator review.
    ///
    /// Approval performs the settlement — the claimed shift goes to the
    /// candidate, a shift offered in return goes back to the requester —
    /// in the same atomic step as the status move; rejection only ends the
    /// request.  Either way the administrator becomes the resolver and
    /// their notes replace the request's (clearing them when none are
    /// given).
    pub fn admin_decide(
        &mut self,
        caller: i32,
        caller_roles: &Vec<UserRoleRow>,
        is_super_admin: bool,
        request_id: u64,
        approve: bool,
        notes: Option<String>,
        now: i64,
    ) -> (r: Result<RequestStatus, WorkflowError>)
        requires
            old(self).wf(),
        ensures
            final(self).wf(),
            final(self).role_policies() == old(self).role_policies(),
            match r {
                Err(e) => Some(e) == old(self).admin_error(
                    caller,
                    caller_roles@,
                    is_super_admin,
                    request_id,
                ) && final(self).reqs() == old(self).reqs() && final(self).shift_dir() == old(
                    self,
                ).shift_dir(),
                Ok(st) => {
                    &&& old(self).admin_error(caller, caller_roles@, is_super_admin, request_id)
                        is None
                    &&& st == if approve {
                        RequestStatus::Approved
                    } else {
                        RequestStatus::Rejected
                    }
                    &&& final(self).reqs() == old(self).reqs().update(
                        request_id - 1,
                        admin_resolved(old(self).req(request_id), caller, approve, notes, now),
                    )
                    &&& final(self).shift_dir() == if approve {
                        settled_shifts(
                            old(self).shift_dir(),
                            old(self).req(request_id).shift_id,
                            old(self).req(request_id).candidate_id->Some_0,
                            old(self).req(request_id).target_shift_id,
                            old(self).req(request_id).requester_id,
                        )
                    } else {
                        old(self).shift_dir()
                    }
                    &&& transition_allowed(old(self).req(request_id).status, st)
                },
            },
    {
        if !has_permission(caller_roles, is_super_admin, Permission::EditRota) {
            return Err(WorkflowError::Forbidden);
        }
        if request_id < 1 || request_id > self.requests.len() as u64 {
            return Err(WorkflowError::NotFound);
        }
        let idx = (request_id - 1) as usize;
        let status = self.requests[idx].status;
        if matches!(status, RequestStatus::Open) || matches!(status, RequestStatus::Proposed) {
            return Err(WorkflowError::NotPendingApproval);
        }
        if !matches!(status, RequestStatus::PendingApproval) {
            return Err(WorkflowError::Conflict);
        }
        let requester = self.requests[idx].requester_id;
        let candidate = match self.requests[idx].candidate_id {
            Some(c) => c,
            None => {
                return Err(WorkflowError::NoCandidate);
            },
        };
        if candidate == requester {
            return Err(WorkflowError::SelfDeal);
        }
        let shift_id = self.requests[idx].shift_id;
        let offered = self.requests[idx].target_shift_id;
        {
            let req = &mut self.requests[idx];
            req.status = if approve {
                RequestStatus::Approved
            } else {
                RequestStatus::Rejected
            };
            req.resolved_by = Some(caller);
            req.resolved_at = Some(now);
            req.notes = notes;
            req.updated_at = now;
        }
        if approve {
            self.settle(shift_id, candidate, offered, requester);
        }
        proof {
            let pre = old(self);
            assert(self.reqs() =~= pre.reqs().update(
                request_id - 1,
                admin_resolved(pre.req(request_id), caller, approve, notes, now),
            ));
            if approve {
                lemma_settled_preserves(pre.shift_dir(), shift_id, candidate, offered, requester);
            }
            assert forall|i: int| 0 <= i < self.reqs().len() implies has_shift(
                self.shift_dir(),
                (#[trigger] self.reqs()[i]).shift_id,
            ) && (self.reqs()[i].target_shift_id matches Some(t) ==> has_shift(
                self.shift_dir(),
                t,
            )) by {
                assert(has_shift(pre.shift_dir(), pre.reqs()[i].shift_id));
            };
        }
        if approve {
            Ok(RequestStatus::Approved)
        } else {
            Ok(RequestStatus::Rejected)
        }
    }

    /// When a cancellation must be refused, and why: only the requester
    /// may cancel, and only while the request has not reached a terminal
    /// state.
    pub open spec fn cancel_error(&self, caller: i32, request_id: u64) -> Option<WorkflowError> {
        if !self.has_req(request_id) {
            Some(WorkflowError::NotFound)
        } else if self.req(request_id).requester_id != caller {
            Some(WorkflowError::NotRequester)
        } else if self.req(request_id).status.is_terminal() {
            Some(WorkflowError::AlreadyTerminal)
        } else {
            None
        }
    }

    /// Withdraw one's own request.  Allowed from `Open`, `Proposed` and
    /// `PendingApproval`; a request already approved, rejected or
    /// cancelled stays exactly as it is.
    pub fn cancel_request(&mut self, caller: i32, request_id: u64, now: i64) -> (r: Result<
        RequestStatus,
        WorkflowError,
    >)
        requires
            old(self).wf(),
        ensures
            final(self).wf(),
            final(self).role_policies() == old(self).role_policies(),
            final(self).shift_dir() == old(self).shift_dir(),
            match r {
                Err(e) => Some(e) == old(self).cancel_error(caller, request_id) && final(self).reqs() == old(self).reqs(),
                Ok(st) => {
                    &&& old(self).cancel_error(caller, request_id) is None
                    &&& st == RequestStatus::Cancelled
                    &&& final(self).reqs() == old(self).reqs().update(
                        request_id - 1,
                        cancelled(old(self).req(request_id), caller, now),
                    )
                    &&& transition_allowed(old(self).req(request_id).status, st)
                },
            },
    {
        if request_id < 1 || request_id > self.requests.len() as u64 {
            return Err(WorkflowError::NotFound);
        }
        let idx = (request_id - 1) as usize;
        if self.requests[idx].requester_id != caller {
            return Err(WorkflowError::NotRequester);
        }
        let status = self.requests[idx].status;
        if matches!(status, RequestStatus::Approved) || matches!(status, RequestStatus::Rejected)
            || matches!(status, RequestStatus::Cancelled) {
            return Err(WorkflowError::AlreadyTerminal);
        }
        {
            let req = &mut self.requests[idx];
            req.status = RequestStatus::Cancelled;
            req.resolved_by = Some(caller);
            req.resolved_at = Some(now);
            req.updated_at = now;
        }
        proof {
            let pre = old(self);
            assert(self.reqs() =~= pre.reqs().update(
                request_id - 1,
                cancelled(pre.req(request_id), caller, now),
            ));
            assert forall|i: int| 0 <= i < self.reqs().len() implies has_shift(
                self.shift_dir(),
                (#[trigger] self.reqs()[i]).shift_id,
            ) && (self.reqs()[i].target_shift_id matches Some(t) ==> has_shift(
                self.shift_dir(),
                t,
            )) by {
                assert(has_shift(pre.shift_dir(), pre.reqs()[i].shift_id));
            };
        }
        Ok(RequestStatus::Cancelled)
    }
}

} // verus!
