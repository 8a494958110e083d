use vstd::prelude::*;

verus! {

/// Identifier of a dispute: its position in the order of creation.
pub type DisputeId = u64;

/// Largest number of votes a dispute can collect.
pub const MAX_JUDGES: u64 = 50;

/// One day, in nanoseconds of block time.
pub const ONE_DAY: u64 = 86400000000000;

/// How long after creation the accused may still answer (five days).
pub const OPEN_DURATION: u64 = 5 * ONE_DAY;

/// How long voting lasts once the open phase is over (two days).
pub const RESOLVE_DURATION: u64 = 2 * ONE_DAY;

/// Phase of a dispute.
#[derive(PartialEq, Eq, Structural, Clone, Copy, Debug)]
pub enum DisputeStatus {
    Open,
    Resolving,
    Executable,
    Finished,
}

/// A juror's decision: `vote == true` sides with the applicant.
#[derive(Debug, PartialEq, Eq)]
pub struct Vote {
    pub account: String,
    pub vote: bool,
}

impl View for Vote {
    type V = (Seq<char>, bool);

    open spec fn view(&self) -> (Seq<char>, bool) {
        (self.account@, self.vote)
    }
}

impl Clone for Vote {
    fn clone(&self) -> (r: Self)
        ensures
            r == *self,
    {
        Vote { account: self.account.clone(), vote: self.vote }
    }
}

/// The record under arbitration.
#[derive(Debug, PartialEq, Eq)]
pub struct Dispute {
    pub id: DisputeId,
    pub service_id: u64,
    pub votes: Vec<Vote>,
    pub dispute_status: DisputeStatus,
    pub initial_time_stamp: u64,
    pub finish_time_stamp: Option<u64>,
    pub applicant: String,
    pub accused: String,
    pub winner: Option<String>,
    pub applicant_proves: String,
    pub accused_proves: Option<String>,
}

/// Mathematical model of a [`Dispute`].
pub struct DisputeView {
    pub id: nat,
    pub service_id: nat,
    pub votes: Seq<(Seq<char>, bool)>,
    pub status: DisputeStatus,
    pub created_at: nat,
    pub finished_at: Option<nat>,
    pub applicant: Seq<char>,
    pub accused: Seq<char>,
    pub winner: Option<Seq<char>>,
    pub applicant_proves: Seq<char>,
    pub accused_proves: Option<Seq<char>>,
}

pub open spec fn text_opt(o: Option<String>) -> Option<Seq<char>> {
    match o {
        Some(s) => Some(s@),
        None => None,
    }
}

pub open spec fn nat_opt(o: Option<u64>) -> Option<nat> {
    match o {
        Some(t) => Some(t as nat),
        None => None,
    }
}

pub open spec fn votes_view(v: Seq<Vote>) -> Seq<(Seq<char>, bool)> {
    v.map_values(|x: Vote| x@)
}

impl View for Dispute {
    type V = DisputeView;

    open spec fn view(&self) -> DisputeView {
        DisputeView {
            id: self.id as nat,
            service_id: self.service_id as nat,
            votes: votes_view(self.votes@),
            status: self.dispute_status,
            created_at: self.initial_time_stamp as nat,
            finished_at: nat_opt(self.finish_time_stamp),
            applicant: self.applicant@,
            accused: self.accused@,
            winner: text_opt(self.winner),
            applicant_proves: self.applicant_proves@,
            accused_proves: text_opt(self.accused_proves),
        }
    }
}

/// Number of votes in favour of the applicant.
pub open spec fn pro_count(votes: Seq<(Seq<char>, bool)>) -> nat
    decreases votes.len(),
{
    if votes.len() == 0 {
        0
    } else {
        pro_count(votes.drop_last()) + if votes.last().1 { 1nat } else { 0nat }
    }
}

/// Number of votes in favour of the accused.
pub open spec fn against_count(votes: Seq<(Seq<char>, bool)>) -> nat
    decreases votes.len(),
{
    if votes.len() == 0 {
        0
    } else {
        against_count(votes.drop_last()) + if votes.last().1 { 0nat } else { 1nat }
    }
}

/// Whether `account` already cast a vote.
pub open spec fn has_voted(votes: Seq<(Seq<char>, bool)>, account: Seq<char>) -> bool {
    exists|i: int| 0 <= i < votes.len() && #[trigger] votes[i].0 == account
}

/// No account votes twice.
pub open spec fn voters_unique(votes: Seq<(Seq<char>, bool)>) -> bool {
    forall|i: int, j: int|
        0 <= i < votes.len() && 0 <= j < votes.len() && i != j ==> #[trigger] votes[i].0
            != #[trigger] votes[j].0
}

impl DisputeView {
    /// The record's invariant: a bounded set of distinct voters, and a winner
    /// and a finishing time exactly when the dispute is finished.
    pub open spec fn wf(self) -> bool {
        &&& self.votes.len() <= MAX_JUDGES
        &&& voters_unique(self.votes)
        &&& (self.winner is Some <==> self.status == DisputeStatus::Finished)
        &&& (self.finished_at is Some <==> self.status == DisputeStatus::Finished)
    }

    /// The open phase has run out at `now`.
    pub open spec fn open_expired(self, now: nat) -> bool {
        now >= self.created_at + OPEN_DURATION
    }

    /// The voting phase has run out at `now`.
    pub open spec fn resolve_expired(self, now: nat) -> bool {
        now >= self.created_at + OPEN_DURATION + RESOLVE_DURATION
    }
}

/// The executable-phase rule: a tie reopens the dispute; otherwise the
/// majority side wins and the dispute is finished at `now`.
pub open spec fn tallied(d: DisputeView, now: nat) -> DisputeView {
    let pro = pro_count(d.votes);
    let against = against_count(d.votes);
    if pro == against {
        DisputeView { status: DisputeStatus::Open, ..d }
    } else {
        DisputeView {
            status: DisputeStatus::Finished,
            winner: Some(if pro > against { d.applicant } else { d.accused }),
            finished_at: Some(now),
            ..d
        }
    }
}

/// One step of the lifecycle at time `now`: the first rule that applies, if any.
pub open spec fn evaluated(d: DisputeView, now: nat) -> DisputeView {
    if d.status == DisputeStatus::Open && d.open_expired(now) {
        DisputeView { status: DisputeStatus::Resolving, ..d }
    } else if d.status == DisputeStatus::Resolving && d.resolve_expired(now) {
        DisputeView { status: DisputeStatus::Executable, ..d }
    } else if d.status == DisputeStatus::Executable {
        tallied(d, now)
    } else {
        d
    }
}

/// The step from `before` to `after` finished the dispute, which releases
/// the escrowed service.
pub open spec fn finishes(before: DisputeView, after: DisputeView) -> bool {
    before.status != DisputeStatus::Finished && after.status == DisputeStatus::Finished
}

impl Clone for Dispute {
    fn clone(&self) -> (r: Self)
        ensures
            r@ == self@,
    {
        let votes = self.votes.clone();
        proof {
            assert(votes@ =~= self.votes@);
        }
        Dispute {
            id: self.id,
            service_id: self.service_id,
            votes,
            dispute_status: self.dispute_status,
            initial_time_stamp: self.initial_time_stamp,
            finish_time_stamp: self.finish_time_stamp,
            applicant: self.applicant.clone(),
            accused: self.accused.clone(),
            winner: match &self.winner {
                Some(w) => Some(w.clone()),
                None => None,
            },
            applicant_proves: self.applicant_proves.clone(),
            accused_proves: match &self.accused_proves {
                Some(p) => Some(p.clone()),
                None => None,
            },
        }
    }
}

proof fn lemma_counts_step(votes: Seq<(Seq<char>, bool)>, i: int)
    requires
        0 <= i < votes.len(),
    ensures
        pro_count(votes.take(i + 1)) == pro_count(votes.take(i)) + if votes[i].1 { 1nat } else { 0nat },
        against_count(votes.take(i + 1)) == against_count(votes.take(i)) + if votes[i].1 { 0nat } else { 1nat },
{
    assert(votes.take(i + 1).drop_last() =~= votes.take(i));
}

impl Dispute {
    /// Counts the votes for the applicant and for the accused.
    pub fn tally(&self) -> (r: (u64, u64))
        ensures
            r.0 == pro_count(self@.votes),
            r.1 == against_count(self@.votes),
    {
        let ghost votes = self@.votes;
        let mut pro: u64 = 0;
        let mut against: u64 = 0;
        let mut i: usize = 0;
        while i < self.votes.len()
            invariant
                votes == self@.votes,
                votes.len() == self.votes.len(),
                0 <= i <= votes.len(),
                pro == pro_count(votes.take(i as int)),
                against == against_count(votes.take(i as int)),
                pro + against == i,
            decreases self.votes.len() - i,
        {
            proof {
                lemma_counts_step(votes, i as int);
            }
            if self.votes[i].vote {
                pro = pro + 1;
            } else {
                against = against + 1;
            }
            i = i + 1;
        }
        proof {
            assert(votes.take(i as int) =~= votes);
        }
        (pro, against)
    }

    /// Applies the executable-phase rule at time `now`.
    pub fn settle(&mut self, now: u64)
        requires
            old(self).dispute_status == DisputeStatus::Executable,
        ensures
            final(self)@ == tallied(old(self)@, now as nat),
    {
        let (pro, against) = self.tally();
        if pro == against {
            self.dispute_status = DisputeStatus::Open;
        } else {
            self.dispute_status = DisputeStatus::Finished;
            if pro > against {
                self.winner = Some(self.applicant.clone());
            } else {
                self.winner = Some(self.accused.clone());
            }
            self.finish_time_stamp = Some(now);
        }
    }

    /// Whether the open phase has run out at `now`.
    pub fn open_phase_over(&self, now: u64) -> (r: bool)
        ensures
            r == self@.open_expired(now as nat),
    {
        now >= self.initial_time_stamp && now - self.initial_time_stamp >= OPEN_DURATION
    }

    /// Runs one step of the lifecycle at time `now`.
    pub fn evaluate(&mut self, now: u64)
        ensures
            final(self)@ == evaluated(old(self)@, now as nat),
    {
        let elapsed_open = self.open_phase_over(now);
        let elapsed_resolve = now >= self.initial_time_stamp
            && now - self.initial_time_stamp >= OPEN_DURATION + RESOLVE_DURATION;
        if self.dispute_status == DisputeStatus::Open && elapsed_open {
            self.dispute_status = DisputeStatus::Resolving;
        } else if self.dispute_status == DisputeStatus::Resolving && elapsed_resolve {
            self.dispute_status = DisputeStatus::Executable;
        } else if self.dispute_status == DisputeStatus::Executable {
            self.settle(now);
        }
    }
}

/// The lifecycle keeps a record's invariant: at most `MAX_JUDGES` distinct
/// voters, and a winner exactly when the dispute is finished.
pub proof fn lemma_evaluated_wf(d: DisputeView, now: nat)
    requires
        d.wf(),
    ensures
        evaluated(d, now).wf(),
{
}

impl Dispute {
    /// Whether `account` has already voted on this dispute.
    pub fn has_vote_from(&self, account: &String) -> (r: bool)
        ensures
            r == has_voted(self@.votes, account@),
    {
        let ghost votes = self@.votes;
        let mut i: usize = 0;
        while i < self.votes.len()
            invariant
                votes == self@.votes,
                votes.len() == self.votes.len(),
                0 <= i <= votes.len(),
                forall|k: int| 0 <= k < i ==> #[trigger] votes[k].0 != account@,
            decreases self.votes.len() - i,
        {
            if self.votes[i].account == *account {
                assert(votes[i as int].0 == account@);
                return true;
            }
            i = i + 1;
        }
        false
    }
}

} // verus!
