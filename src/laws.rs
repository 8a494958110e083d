use vstd::prelude::*;

use crate::dispute::{
    against_count, evaluated, has_voted, pro_count, tallied, DisputeStatus, DisputeView, MAX_JUDGES,
    OPEN_DURATION, RESOLVE_DURATION,
};
use crate::mediator::{answered, release_of, voted, Mediator, ReleaseRequest};

verus! {

/// Every stored dispute has at most `MAX_JUDGES` votes, and has a winner
/// exactly when it is finished.
pub proof fn lemma_stored_dispute_invariants(m: &Mediator, id: int)
    requires
        m.wf(),
        0 <= id < m.disputes_counter,
    ensures
        m.records()[id].votes.len() <= MAX_JUDGES,
        m.records()[id].winner is Some <==> m.records()[id].status == DisputeStatus::Finished,
{
    assert(m.records()[id] == m.disputes@[id]@);
}

/// An open dispute left alone moves to voting on the first access at or after
/// five days from its creation, and stays open before; once voting, it moves
/// to the executable phase on the next access at or after seven days.
pub proof fn lemma_deadlines(d: DisputeView, t1: nat, t2: nat)
    requires
        d.status == DisputeStatus::Open,
        t1 <= t2,
    ensures
        t1 < d.created_at + OPEN_DURATION ==> evaluated(d, t1) == d,
        t1 >= d.created_at + OPEN_DURATION ==> evaluated(d, t1).status
            == DisputeStatus::Resolving,
        t1 >= d.created_at + OPEN_DURATION && t2 < d.created_at + OPEN_DURATION + RESOLVE_DURATION
            ==> evaluated(evaluated(d, t1), t2) == evaluated(d, t1),
        t1 >= d.created_at + OPEN_DURATION && t2 >= d.created_at + OPEN_DURATION + RESOLVE_DURATION
            ==> evaluated(evaluated(d, t1), t2).status == DisputeStatus::Executable,
{
}

/// The vote that brings a dispute to `MAX_JUDGES` votes settles it in the
/// same call, whatever the time: it is reopened or finished, never left
/// in the voting phase.
pub proof fn lemma_full_jury_settles(d: DisputeView, account: Seq<char>, vote: bool, now: nat)
    requires
        d.status == DisputeStatus::Resolving,
        d.votes.len() + 1 == MAX_JUDGES,
    ensures
        voted(d, account, vote, now) == tallied(
            DisputeView {
                status: DisputeStatus::Executable,
                votes: d.votes.push((account, vote)),
                ..d
            },
            now,
        ),
        voted(d, account, vote, now).status == DisputeStatus::Open || voted(
            d,
            account,
            vote,
            now,
        ).status == DisputeStatus::Finished,
{
}

/// A tie at the executable phase reopens the dispute with no winner, keeping
/// its votes and evidence.
pub proof fn lemma_tie_reopens(d: DisputeView, now: nat)
    requires
        d.wf(),
        d.status == DisputeStatus::Executable,
        pro_count(d.votes) == against_count(d.votes),
    ensures
        evaluated(d, now).status == DisputeStatus::Open,
        evaluated(d, now).winner is None,
        evaluated(d, now).votes == d.votes,
        evaluated(d, now).accused_proves == d.accused_proves,
        release_of(d, evaluated(d, now)) is None,
{
}

/// A majority at the executable phase finishes the dispute at `now` in
/// favour of the majority side and issues one release request; no later
/// access changes the dispute or issues another.
pub proof fn lemma_majority_finishes(d: DisputeView, now: nat, later: nat)
    requires
        d.status == DisputeStatus::Executable,
        pro_count(d.votes) != against_count(d.votes),
    ensures
        evaluated(d, now).status == DisputeStatus::Finished,
        evaluated(d, now).winner == Some(
            if pro_count(d.votes) > against_count(d.votes) {
                d.applicant
            } else {
                d.accused
            },
        ),
        evaluated(d, now).finished_at == Some(now),
        release_of(d, evaluated(d, now)) == Some(
            ReleaseRequest { dispute_id: d.id as u64, service_id: d.service_id as u64 },
        ),
        evaluated(evaluated(d, now), later) == evaluated(d, now),
        release_of(evaluated(d, now), evaluated(evaluated(d, now), later)) is None,
{
}

/// After `account` voted, the dispute records that vote, so a second vote of
/// the same account is refused as a duplicate while the vote set stays as it is.
pub proof fn lemma_vote_recorded(d: DisputeView, account: Seq<char>, vote: bool, now: nat)
    ensures
        has_voted(voted(d, account, vote, now).votes, account),
{
    let vs = voted(d, account, vote, now).votes;
    assert(vs[d.votes.len() as int].0 == account);
}

/// Once the accused answered, the evidence stays set at every later access,
/// so a second answer by the accused is refused as a duplicate whatever the
/// phase.
pub proof fn lemma_answer_recorded(d: DisputeView, proves: Seq<char>, now: nat)
    ensures
        evaluated(answered(d, proves), now).accused_proves == Some(proves),
{
}

} // verus!
