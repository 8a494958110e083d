use mediator::callback::{check_callback, PromiseOutcome};
use mediator::dispute::{Dispute, DisputeStatus, Vote, MAX_JUDGES, ONE_DAY};
use mediator::mediator::{Mediator, MediatorError, ReleaseRequest};

const APPLICANT: &str = "employer.near";
const ACCUSED: &str = "professional.near";

fn s(x: &str) -> String {
    x.to_string()
}

fn judge(i: u64) -> String {
    format!("judge{}.near", i)
}

fn setup(now: u64) -> Mediator {
    let mut m = Mediator::new(s("marketplace.near"), s("owner.near"));
    m.new_dispute(7, s(ACCUSED), s("applicant proves"), s(APPLICANT), now);
    m
}

fn status(m: &mut Mediator, now: u64) -> DisputeStatus {
    m.get_dispute_status(0, now).unwrap().dispute.dispute_status
}

/// Moves a fresh dispute into its voting phase through the accused's answer.
fn resolving(now: u64) -> Mediator {
    let mut m = setup(0);
    m.add_accused_proves(0, s("accused proves"), &s(ACCUSED), now).unwrap();
    m
}

#[test]
fn new_dispute_fills_record_and_counts() {
    let mut m = Mediator::new(s("marketplace.near"), s("owner.near"));
    assert_eq!(m.get_total_disputes(), 0);
    assert!(m.admins.is_empty() && m.disputes.is_empty());
    assert_eq!(m.owner, "owner.near");
    assert_eq!(m.marketplace_account_id, "marketplace.near");
    let d = m.new_dispute(3, s(ACCUSED), s("md"), s(APPLICANT), 100);
    assert_eq!(d.id, 0);
    assert_eq!(d.service_id, 3);
    assert_eq!(d.dispute_status, DisputeStatus::Open);
    assert_eq!(d.initial_time_stamp, 100);
    assert_eq!(d.applicant, APPLICANT);
    assert_eq!(d.accused, ACCUSED);
    assert_eq!(d.applicant_proves, "md");
    assert!(d.votes.is_empty() && d.winner.is_none() && d.accused_proves.is_none());
    let d2 = m.new_dispute(4, s(ACCUSED), s("md"), s(APPLICANT), 200);
    assert_eq!(d2.id, 1);
    assert_eq!(m.get_total_disputes(), 2);
    assert_eq!(m.get_dispute(1).unwrap(), d2);
}

#[test]
fn unknown_dispute_is_not_found() {
    let mut m = setup(0);
    assert_eq!(m.get_dispute(1).unwrap_err(), MediatorError::NotFound);
    assert_eq!(m.get_dispute_status(5, 0).unwrap_err(), MediatorError::NotFound);
    assert_eq!(m.vote(1, true, &judge(0), 0).unwrap_err(), MediatorError::NotFound);
    assert_eq!(
        m.add_accused_proves(9, s("p"), &s(ACCUSED), 0).unwrap_err(),
        MediatorError::NotFound
    );
}

#[test]
fn untouched_dispute_follows_deadlines() {
    let mut m = setup(1000);
    assert_eq!(status(&mut m, 1000 + 5 * ONE_DAY - 1), DisputeStatus::Open);
    assert_eq!(status(&mut m, 1000 + 5 * ONE_DAY), DisputeStatus::Resolving);
    assert_eq!(status(&mut m, 1000 + 7 * ONE_DAY - 1), DisputeStatus::Resolving);
    assert_eq!(status(&mut m, 1000 + 7 * ONE_DAY), DisputeStatus::Executable);
    // no votes: a tie, which reopens the dispute
    assert_eq!(status(&mut m, 1000 + 7 * ONE_DAY), DisputeStatus::Open);
}

#[test]
fn one_step_per_access() {
    let mut m = setup(0);
    assert_eq!(status(&mut m, 30 * ONE_DAY), DisputeStatus::Resolving);
    assert_eq!(status(&mut m, 30 * ONE_DAY), DisputeStatus::Executable);
}

#[test]
fn get_dispute_does_not_evaluate() {
    let mut m = setup(0);
    assert_eq!(m.get_dispute(0).unwrap().dispute_status, DisputeStatus::Open);
    status(&mut m, 6 * ONE_DAY);
    assert_eq!(m.get_dispute(0).unwrap().dispute_status, DisputeStatus::Resolving);
}

#[test]
fn accused_evidence_closes_open_phase() {
    let mut m = setup(0);
    let d = m.add_accused_proves(0, s("rebuttal"), &s(ACCUSED), ONE_DAY).unwrap();
    assert_eq!(d.dispute_status, DisputeStatus::Resolving);
    assert_eq!(d.accused_proves, Some(s("rebuttal")));
    assert_eq!(m.get_dispute(0).unwrap(), d);
}

#[test]
fn evidence_from_other_account_is_unauthorized() {
    let mut m = setup(0);
    let before = m.get_dispute(0).unwrap();
    assert_eq!(
        m.add_accused_proves(0, s("x"), &s(APPLICANT), ONE_DAY).unwrap_err(),
        MediatorError::Unauthorized
    );
    assert_eq!(m.get_dispute(0).unwrap(), before);
}

#[test]
fn evidence_after_open_phase_is_invalid_phase() {
    let mut m = setup(0);
    assert_eq!(
        m.add_accused_proves(0, s("x"), &s(ACCUSED), 5 * ONE_DAY).unwrap_err(),
        MediatorError::InvalidPhase
    );
}

#[test]
fn second_evidence_is_duplicate() {
    let mut m = resolving(ONE_DAY);
    let before = m.get_dispute(0).unwrap();
    assert_eq!(
        m.add_accused_proves(0, s("again"), &s(ACCUSED), 2 * ONE_DAY).unwrap_err(),
        MediatorError::DuplicateSubmission
    );
    assert_eq!(
        m.add_accused_proves(0, s("again"), &s(ACCUSED), 9 * ONE_DAY).unwrap_err(),
        MediatorError::DuplicateSubmission
    );
    let after = m.get_dispute(0).unwrap();
    assert_eq!(after, before);
    assert_eq!(after.accused_proves, Some(s("accused proves")));
}

#[test]
fn evidence_after_deadline_on_reopened_dispute_is_invalid_phase() {
    let mut m = setup(0);
    assert_eq!(status(&mut m, 30 * ONE_DAY), DisputeStatus::Resolving);
    assert_eq!(status(&mut m, 30 * ONE_DAY), DisputeStatus::Executable);
    // the tie reopens the dispute inside this call, past the open deadline
    assert_eq!(
        m.add_accused_proves(0, s("late"), &s(ACCUSED), 30 * ONE_DAY).unwrap_err(),
        MediatorError::InvalidPhase
    );
    let d = m.get_dispute(0).unwrap();
    assert_eq!(d.dispute_status, DisputeStatus::Executable);
    assert_eq!(d.accused_proves, None);
}

#[test]
fn second_evidence_after_reopening_is_duplicate() {
    let mut m = resolving(ONE_DAY);
    for i in 0..MAX_JUDGES {
        m.vote(0, i % 2 == 0, &judge(i), 2 * ONE_DAY).unwrap();
    }
    let d = m.get_dispute(0).unwrap();
    assert_eq!(d.dispute_status, DisputeStatus::Open);
    assert_eq!(
        m.add_accused_proves(0, s("again"), &s(ACCUSED), 3 * ONE_DAY).unwrap_err(),
        MediatorError::DuplicateSubmission
    );
}

#[test]
fn vote_outside_resolving_is_invalid_phase() {
    let mut m = setup(0);
    assert_eq!(m.vote(0, true, &judge(1), ONE_DAY).unwrap_err(), MediatorError::InvalidPhase);
    assert!(m.get_dispute(0).unwrap().votes.is_empty());
}

#[test]
fn double_vote_is_refused() {
    let mut m = resolving(ONE_DAY);
    m.vote(0, true, &judge(1), ONE_DAY).unwrap();
    let before = m.get_dispute(0).unwrap();
    assert_eq!(m.vote(0, false, &judge(1), ONE_DAY).unwrap_err(), MediatorError::DuplicateVote);
    assert_eq!(m.vote(0, true, &judge(1), ONE_DAY).unwrap_err(), MediatorError::DuplicateVote);
    let after = m.get_dispute(0).unwrap();
    assert_eq!(after.votes, before.votes);
    assert_eq!(after.votes, vec![Vote { account: judge(1), vote: true }]);
}

#[test]
fn full_jury_with_majority_finishes_at_once() {
    let mut m = resolving(ONE_DAY);
    let mut last = None;
    for i in 0..MAX_JUDGES {
        let step = m.vote(0, i < 30, &judge(i), 2 * ONE_DAY).unwrap();
        if i + 1 < MAX_JUDGES {
            assert_eq!(step.dispute.dispute_status, DisputeStatus::Resolving);
            assert_eq!(step.release, None);
        }
        last = Some(step);
    }
    let step = last.unwrap();
    assert_eq!(step.dispute.dispute_status, DisputeStatus::Finished);
    assert_eq!(step.dispute.winner, Some(s(APPLICANT)));
    assert_eq!(step.dispute.finish_time_stamp, Some(2 * ONE_DAY));
    assert_eq!(step.release, Some(ReleaseRequest { dispute_id: 0, service_id: 7 }));
    assert_eq!(step.dispute.votes.len(), 50);
}

#[test]
fn full_jury_tie_reopens_and_caps_votes() {
    let mut m = resolving(ONE_DAY);
    for i in 0..MAX_JUDGES {
        m.vote(0, i % 2 == 1, &judge(i), 2 * ONE_DAY).unwrap();
    }
    let d = m.get_dispute(0).unwrap();
    assert_eq!(d.dispute_status, DisputeStatus::Open);
    assert_eq!(d.winner, None);
    assert_eq!(d.votes.len(), 50);
    // the open phase has run out: the next access moves back to voting,
    // where the full jury refuses more votes
    assert_eq!(
        m.vote(0, true, &judge(99), 6 * ONE_DAY).unwrap_err(),
        MediatorError::QuotaExceeded
    );
    assert_eq!(m.get_dispute(0).unwrap().votes.len(), 50);
}

#[test]
fn majority_finishes_once_with_one_release() {
    let mut m = resolving(ONE_DAY);
    m.vote(0, false, &judge(1), 2 * ONE_DAY).unwrap();
    m.vote(0, false, &judge(2), 2 * ONE_DAY).unwrap();
    m.vote(0, true, &judge(3), 2 * ONE_DAY).unwrap();
    let step = m.get_dispute_status(0, 7 * ONE_DAY).unwrap();
    assert_eq!(step.dispute.dispute_status, DisputeStatus::Executable);
    assert_eq!(step.release, None);
    let step = m.update_dispute_status(0, 7 * ONE_DAY + 5).unwrap();
    assert_eq!(step.dispute.dispute_status, DisputeStatus::Finished);
    assert_eq!(step.dispute.winner, Some(s(ACCUSED)));
    assert_eq!(step.dispute.finish_time_stamp, Some(7 * ONE_DAY + 5));
    assert_eq!(step.release, Some(ReleaseRequest { dispute_id: 0, service_id: 7 }));
    for t in [8 * ONE_DAY, 20 * ONE_DAY] {
        let again = m.get_dispute_status(0, t).unwrap();
        assert_eq!(again.release, None);
        assert_eq!(again.dispute, step.dispute);
    }
}

#[test]
fn tie_reopens_then_majority_wins() {
    let mut m = setup(0);
    assert_eq!(status(&mut m, 5 * ONE_DAY), DisputeStatus::Resolving);
    m.vote(0, true, &judge(1), 6 * ONE_DAY).unwrap();
    m.vote(0, false, &judge(2), 6 * ONE_DAY).unwrap();
    assert_eq!(status(&mut m, 7 * ONE_DAY + 1), DisputeStatus::Executable);
    let step = m.get_dispute_status(0, 7 * ONE_DAY + 1).unwrap();
    assert_eq!(step.dispute.dispute_status, DisputeStatus::Open);
    assert_eq!(step.dispute.winner, None);
    assert_eq!(step.release, None);
    // twelve days: back to voting, with a third juror's vote for the applicant
    let step = m.vote(0, true, &judge(3), 12 * ONE_DAY).unwrap();
    assert_eq!(step.dispute.dispute_status, DisputeStatus::Resolving);
    assert_eq!(status(&mut m, 12 * ONE_DAY), DisputeStatus::Executable);
    let step = m.get_dispute_status(0, 12 * ONE_DAY).unwrap();
    assert_eq!(step.dispute.dispute_status, DisputeStatus::Finished);
    assert_eq!(step.dispute.winner, Some(s(APPLICANT)));
    assert_eq!(step.release, Some(ReleaseRequest { dispute_id: 0, service_id: 7 }));
}

#[test]
fn tally_counts_each_side() {
    let mut d: Dispute = setup(0).get_dispute(0).unwrap();
    assert_eq!(d.tally(), (0, 0));
    d.votes.push(Vote { account: judge(1), vote: true });
    d.votes.push(Vote { account: judge(2), vote: true });
    d.votes.push(Vote { account: judge(3), vote: false });
    assert_eq!(d.tally(), (2, 1));
    assert!(d.has_vote_from(&judge(3)));
    assert!(!d.has_vote_from(&judge(4)));
}

#[test]
fn settle_picks_majority_side() {
    let mut d: Dispute = setup(0).get_dispute(0).unwrap();
    d.votes.push(Vote { account: judge(1), vote: false });
    d.dispute_status = DisputeStatus::Executable;
    d.settle(42);
    assert_eq!(d.dispute_status, DisputeStatus::Finished);
    assert_eq!(d.winner, Some(s(ACCUSED)));
    assert_eq!(d.finish_time_stamp, Some(42));
    let c = d.clone();
    assert_eq!(c, d);
}

#[test]
fn callbacks_are_guarded() {
    let me = s("mediator.near");
    let ok = vec![PromiseOutcome::Successful];
    assert_eq!(check_callback(&me, &me, &ok), Ok(()));
    assert_eq!(
        check_callback(&s("intruder.near"), &me, &ok),
        Err(MediatorError::Unauthorized)
    );
    assert_eq!(check_callback(&me, &me, &vec![]), Err(MediatorError::CallbackResultMissing));
    assert_eq!(
        check_callback(&me, &me, &vec![PromiseOutcome::Successful, PromiseOutcome::Successful]),
        Err(MediatorError::CallbackResultMissing)
    );
    assert_eq!(
        check_callback(&me, &me, &vec![PromiseOutcome::Failed]),
        Err(MediatorError::CallbackFailed)
    );
    assert_eq!(
        check_callback(&me, &me, &vec![PromiseOutcome::NotReady]),
        Err(MediatorError::CallbackFailed)
    );
    let m = setup(0);
    assert_eq!(m.on_validate_dispute(&me, &me, &ok), Ok(()));
    assert_eq!(
        Mediator::on_return_service(7, &s("x.near"), &me, &ok),
        Err(MediatorError::Unauthorized)
    );
    assert_eq!(Mediator::on_return_service(7, &me, &me, &ok), Ok(()));
}
