use vstd::prelude::*;

use crate::dispute::{
    evaluated, finishes, has_voted, lemma_evaluated_wf, tallied, Dispute, DisputeId, DisputeStatus,
    DisputeView, Vote, MAX_JUDGES,
};

verus! {

/// Why an operation was refused. A refused operation changes nothing.
#[derive(PartialEq, Eq, Structural, Clone, Copy, Debug)]
pub enum MediatorError {
    NotFound,
    InvalidPhase,
    Unauthorized,
    DuplicateVote,
    DuplicateSubmission,
    QuotaExceeded,
    CallbackResultMissing,
    CallbackFailed,
}

/// Request to the custodian to give the escrowed service back, issued once,
/// when its dispute finishes.
#[derive(PartialEq, Eq, Structural, Clone, Copy, Debug)]
pub struct ReleaseRequest {
    pub dispute_id: DisputeId,
    pub service_id: u64,
}

/// The dispute after an operation, and the release request it issued, if any.
#[derive(Debug)]
pub struct Step {
    pub dispute: Dispute,
    pub release: Option<ReleaseRequest>,
}

/// The release request owed by the step from `before` to `after`.
pub open spec fn release_of(before: DisputeView, after: DisputeView) -> Option<ReleaseRequest> {
    if finishes(before, after) {
        Some(ReleaseRequest { dispute_id: after.id as u64, service_id: after.service_id as u64 })
    } else {
        None
    }
}

/// A dispute as it is opened.
pub open spec fn opened(
    id: nat,
    service_id: nat,
    applicant: Seq<char>,
    accused: Seq<char>,
    proves: Seq<char>,
    now: nat,
) -> DisputeView {
    DisputeView {
        id,
        service_id,
        votes: Seq::empty(),
        status: DisputeStatus::Open,
        created_at: now,
        finished_at: None,
        applicant,
        accused,
        winner: None,
        applicant_proves: proves,
        accused_proves: None,
    }
}

/// `d` with the accused's evidence recorded, which closes the open phase.
pub open spec fn answered(d: DisputeView, proves: Seq<char>) -> DisputeView {
    DisputeView { accused_proves: Some(proves), status: DisputeStatus::Resolving, ..d }
}

/// `d` with one more vote; the vote that completes the jury settles the
/// dispute at once.
pub open spec fn voted(d: DisputeView, account: Seq<char>, vote: bool, now: nat) -> DisputeView {
    let v = DisputeView { votes: d.votes.push((account, vote)), ..d };
    if v.votes.len() == MAX_JUDGES {
        tallied(DisputeView { status: DisputeStatus::Executable, ..v }, now)
    } else {
        v
    }
}

/// The dispute store, with the custodian's account.
pub struct Mediator {
    pub disputes: Vec<Dispute>,
    pub disputes_counter: u64,
    pub owner: String,
    pub admins: Vec<String>,
    pub marketplace_account_id: String,
}

impl Mediator {
    /// Models of the stored disputes, by identifier.
    pub open spec fn records(&self) -> Seq<DisputeView> {
        self.disputes@.map_values(|d: Dispute| d@)
    }

    /// Identifiers are positions, the counter is the number of disputes, and
    /// every record keeps its invariant.
    pub open spec fn wf(&self) -> bool {
        &&& self.disputes@.len() == self.disputes_counter
        &&& forall|i: int|
            0 <= i < self.disputes@.len() ==> (#[trigger] self.disputes@[i])@.id == i
                && self.disputes@[i]@.wf()
    }

    /// Everything but the disputes is the same in `self` and `other`.
    pub open spec fn same_settings(&self, other: &Mediator) -> bool {
        &&& self.owner == other.owner
        &&& self.admins == other.admins
        &&& self.marketplace_account_id == other.marketplace_account_id
    }

    /// An empty store for disputes over services of `marketplace_account_id`.
    pub fn new(marketplace_account_id: String, owner: String) -> (r: Mediator)
        ensures
            r.wf(),
            r.disputes@.len() == 0,
            r.disputes_counter == 0,
            r.admins@.len() == 0,
            r.marketplace_account_id == marketplace_account_id,
            r.owner == owner,
    {
        Mediator {
            disputes: Vec::new(),
            disputes_counter: 0,
            owner,
            admins: Vec::new(),
            marketplace_account_id,
        }
    }

    /// Number of disputes opened so far.
    pub fn get_total_disputes(&self) -> (r: u64)
        ensures
            r == self.disputes_counter,
    {
        self.disputes_counter
    }

    /// The stored dispute, as last saved, without running the lifecycle.
    pub fn get_dispute(&self, dispute_id: DisputeId) -> (r: Result<Dispute, MediatorError>)
        requires
            self.wf(),
        ensures
            dispute_id < self.disputes_counter <==> r is Ok,
            r matches Ok(d) ==> d@ == self.records()[dispute_id as int],
            r matches Err(e) ==> e == MediatorError::NotFound,
    {
        match self.position(dispute_id) {
            Some(i) => Ok(self.disputes[i].clone()),
            None => Err(MediatorError::NotFound),
        }
    }

    /// Where the dispute `dispute_id` is stored, if it exists.
    fn position(&self, dispute_id: DisputeId) -> (r: Option<usize>)
        requires
            self.wf(),
        ensures
            dispute_id < self.disputes_counter <==> r is Some,
            r matches Some(i) ==> i == dispute_id && i < self.disputes@.len(),
    {
        let stored = self.disputes.len();
        if dispute_id < stored as u64 {
            Some(dispute_id as usize)
        } else {
            None
        }
    }

    /// Saves `d` as the dispute at position `i`.
    fn store(&mut self, i: usize, d: Dispute)
        requires
            old(self).wf(),
            i < old(self).disputes@.len(),
            d@.id == i,
            d@.wf(),
        ensures
            final(self).wf(),
            final(self).records() == old(self).records().update(i as int, d@),
            final(self).disputes_counter == old(self).disputes_counter,
            final(self).same_settings(old(self)),
    {
        let ghost dv = d@;
        self.disputes.set(i, d);
        proof {
            assert(self.records() =~= old(self).records().update(i as int, dv));
            assert forall|k: int| 0 <= k < self.disputes@.len() implies (#[trigger] self.disputes@[k])@.id
                == k && self.disputes@[k]@.wf() by {
                if k != i {
                    assert(self.disputes@[k] == old(self).disputes@[k]);
                }
            }
        }
    }

    /// Runs the lifecycle on the dispute `dispute_id` at time `now` and saves
    /// the result; a dispute that finishes here issues its release request.
    pub fn update_dispute_status(&mut self, dispute_id: DisputeId, now: u64) -> (r: Result<
        Step,
        MediatorError,
    >)
        requires
            old(self).wf(),
        ensures
            final(self).wf(),
            final(self).disputes_counter == old(self).disputes_counter,
            final(self).same_settings(old(self)),
            dispute_id < old(self).disputes_counter <==> r is Ok,
            r matches Err(e) ==> e == MediatorError::NotFound && *final(self) == *old(self),
            r matches Ok(step) ==> {
                let before = old(self).records()[dispute_id as int];
                let after = evaluated(before, now as nat);
                &&& step.dispute@ == after
                &&& step.release == release_of(before, after)
                &&& final(self).records() == old(self).records().update(dispute_id as int, after)
            },
    {
        let i = match self.position(dispute_id) {
            Some(i) => i,
            None => {
                return Err(MediatorError::NotFound);
            },
        };
        let mut d = self.disputes[i].clone();
        let ghost before = d@;
        let was_finished = d.dispute_status == DisputeStatus::Finished;
        d.evaluate(now);
        proof {
            lemma_evaluated_wf(before, now as nat);
        }
        let release = if !was_finished && d.dispute_status == DisputeStatus::Finished {
            Some(ReleaseRequest { dispute_id: d.id, service_id: d.service_id })
        } else {
            None
        };
        let out = d.clone();
        self.store(i, d);
        Ok(Step { dispute: out, release })
    }

    /// Same as [`Mediator::update_dispute_status`]: reading the status runs
    /// the lifecycle and saves its result.
    pub fn get_dispute_status(&mut self, dispute_id: DisputeId, now: u64) -> (r: Result<
        Step,
        MediatorError,
    >)
        requires
            old(self).wf(),
        ensures
            final(self).wf(),
            final(self).disputes_counter == old(self).disputes_counter,
            final(self).same_settings(old(self)),
            dispute_id < old(self).disputes_counter <==> r is Ok,
            r matches Err(e) ==> e == MediatorError::NotFound && *final(self) == *old(self),
            r matches Ok(step) ==> {
                let before = old(self).records()[dispute_id as int];
                let after = evaluated(before, now as nat);
                &&& step.dispute@ == after
                &&& step.release == release_of(before, after)
                &&& final(self).records() == old(self).records().update(dispute_id as int, after)
            },
    {
        self.update_dispute_status(dispute_id, now)
    }

    /// Opens a dispute of `sender` against `accused` over `service_id` at
    /// time `now`, under the next identifier.
    pub fn new_dispute(
        &mut self,
        service_id: u64,
        accused: String,
        proves: String,
        sender: String,
        now: u64,
    ) -> (r: Dispute)
        requires
            old(self).wf(),
            old(self).disputes_counter < u64::MAX,
        ensures
            final(self).wf(),
            final(self).same_settings(old(self)),
            final(self).disputes_counter == old(self).disputes_counter + 1,
            r@ == opened(
                old(self).disputes_counter as nat,
                service_id as nat,
                sender@,
                accused@,
                proves@,
                now as nat,
            ),
            final(self).records() == old(self).records().push(r@),
    {
        let dispute = Dispute {
            id: self.disputes_counter,
            service_id,
            votes: Vec::new(),
            dispute_status: DisputeStatus::Open,
            initial_time_stamp: now,
            finish_time_stamp: None,
            applicant: sender,
            accused,
            winner: None,
            applicant_proves: proves,
            accused_proves: None,
        };
        proof {
            assert(dispute@.votes =~= Seq::<(Seq<char>, bool)>::empty());
        }
        let out = dispute.clone();
        let ghost dv = dispute@;
        self.disputes.push(dispute);
        self.disputes_counter = self.disputes_counter + 1;
        proof {
            assert(self.records() =~= old(self).records().push(dv));
            assert forall|k: int| 0 <= k < self.disputes@.len() implies (#[trigger] self.disputes@[k])@.id
                == k && self.disputes@[k]@.wf() by {
                if k < old(self).disputes@.len() {
                    assert(self.disputes@[k] == old(self).disputes@[k]);
                }
            }
        }
        out
    }


    /// Records the accused's evidence on the dispute `dispute_id`, which
    /// moves it to the voting phase at once. Only the accused may answer,
    /// and only once; the answer must come while the dispute is open after
    /// the lifecycle ran at `now`, and before the open phase's deadline.
    pub fn add_accused_proves(
        &mut self,
        dispute_id: DisputeId,
        accused_proves: String,
        sender: &String,
        now: u64,
    ) -> (r: Result<Dispute, MediatorError>)
        requires
            old(self).wf(),
        ensures
            final(self).wf(),
            final(self).disputes_counter == old(self).disputes_counter,
            final(self).same_settings(old(self)),
            r is Err ==> *final(self) == *old(self),
            dispute_id >= old(self).disputes_counter ==> r == Err::<Dispute, MediatorError>(
                MediatorError::NotFound,
            ),
            dispute_id < old(self).disputes_counter ==> {
                let e = evaluated(old(self).records()[dispute_id as int], now as nat);
                if sender@ != e.accused {
                    r == Err::<Dispute, MediatorError>(MediatorError::Unauthorized)
                } else if e.accused_proves is Some {
                    r == Err::<Dispute, MediatorError>(MediatorError::DuplicateSubmission)
                } else if e.status != DisputeStatus::Open || e.open_expired(now as nat) {
                    r == Err::<Dispute, MediatorError>(MediatorError::InvalidPhase)
                } else {
                    &&& r is Ok
                    &&& r->Ok_0@ == answered(e, accused_proves@)
                    &&& final(self).records() == old(self).records().update(
                        dispute_id as int,
                        answered(e, accused_proves@),
                    )
                }
            },
    {
        let i = match self.position(dispute_id) {
            Some(i) => i,
            None => {
                return Err(MediatorError::NotFound);
            },
        };
        let mut d = self.disputes[i].clone();
        let ghost before = d@;
        d.evaluate(now);
        if *sender != d.accused {
            return Err(MediatorError::Unauthorized);
        }
        if d.accused_proves.is_some() {
            return Err(MediatorError::DuplicateSubmission);
        }
        if d.dispute_status != DisputeStatus::Open || d.open_phase_over(now) {
            return Err(MediatorError::InvalidPhase);
        }
        d.accused_proves = Some(accused_proves);
        d.dispute_status = DisputeStatus::Resolving;
        proof {
            lemma_evaluated_wf(before, now as nat);
        }
        let out = d.clone();
        self.store(i, d);
        Ok(out)
    }

    /// Casts `sender`'s vote on the dispute `dispute_id`, which must be in
    /// its voting phase after the lifecycle ran at `now`. The vote that
    /// completes the jury settles the dispute in the same call.
    pub fn vote(&mut self, dispute_id: DisputeId, vote: bool, sender: &String, now: u64) -> (r:
        Result<Step, MediatorError>)
        requires
            old(self).wf(),
        ensures
            final(self).wf(),
            final(self).disputes_counter == old(self).disputes_counter,
            final(self).same_settings(old(self)),
            r is Err ==> *final(self) == *old(self),
            dispute_id >= old(self).disputes_counter ==> r == Err::<Step, MediatorError>(
                MediatorError::NotFound,
            ),
            dispute_id < old(self).disputes_counter ==> {
                let e = evaluated(old(self).records()[dispute_id as int], now as nat);
                if e.status != DisputeStatus::Resolving {
                    r == Err::<Step, MediatorError>(MediatorError::InvalidPhase)
                } else if has_voted(e.votes, sender@) {
                    r == Err::<Step, MediatorError>(MediatorError::DuplicateVote)
                } else if e.votes.len() >= MAX_JUDGES {
                    r == Err::<Step, MediatorError>(MediatorError::QuotaExceeded)
                } else {
                    let after = voted(e, sender@, vote, now as nat);
                    &&& r is Ok
                    &&& r->Ok_0.dispute@ == after
                    &&& r->Ok_0.release == release_of(e, after)
                    &&& final(self).records() == old(self).records().update(
                        dispute_id as int,
                        after,
                    )
                }
            },
    {
        let i = match self.position(dispute_id) {
            Some(i) => i,
            None => {
                return Err(MediatorError::NotFound);
            },
        };
        let mut d = self.disputes[i].clone();
        let ghost before = d@;
        d.evaluate(now);
        proof {
            lemma_evaluated_wf(before, now as nat);
        }
        if d.dispute_status != DisputeStatus::Resolving {
            return Err(MediatorError::InvalidPhase);
        }
        if d.has_vote_from(sender) {
            return Err(MediatorError::DuplicateVote);
        }
        if d.votes.len() >= MAX_JUDGES as usize {
            return Err(MediatorError::QuotaExceeded);
        }
        let ghost e = d@;
        d.votes.push(Vote { account: sender.clone(), vote });
        proof {
            assert(d@.votes =~= e.votes.push((sender@, vote)));
        }
        if d.votes.len() == MAX_JUDGES as usize {
            d.dispute_status = DisputeStatus::Executable;
            d.settle(now);
        }
        let release = if d.dispute_status == DisputeStatus::Finished {
            Some(ReleaseRequest { dispute_id: d.id, service_id: d.service_id })
        } else {
            None
        };
        let out = d.clone();
        self.store(i, d);
        Ok(Step { dispute: out, release })
    }

}

} // verus!
