//! The vote data model: voter directions, thresholds, per-voter ballots,
//! aggregate vote state, and the weighted-electorate genesis that a vote is
//! opened from.

use vstd::prelude::*;

verus! {

/// A voter's current direction within one vote.
#[derive(Clone, Copy, Debug, PartialEq, Eq, Structural)]
pub enum VoterView {
    /// Voting power minted but no ballot cast yet.
    NoVote,
    /// Supports the motion.
    InFavor,
    /// Opposes the motion.
    Against,
    /// Explicitly declines to take a side.
    Abstain,
}

/// The outcome of a vote, recomputed from the tallies on demand.
#[derive(Clone, Copy, Debug, PartialEq, Eq, Structural)]
pub enum VoteOutcome {
    /// Neither threshold has been reached.
    Pending,
    /// The in-favor tally reached the approval threshold.
    Approved,
    /// The against tally reached the rejection bound.
    Rejected,
}

/// Failures of vote registry operations.
#[derive(Clone, Copy, Debug, PartialEq, Eq, Structural)]
pub enum VoteError {
    VotePastExpirationTimeSoVotesNotAccepted,
    SignalNotMintedForVoter,
    NoVoteStateForOutcomeQuery,
    NoVoteStateForVoteRequest,
    OldVoteDirectionEqualsNewVoteDirectionSoNoChange,
    CannotUpdateVoteTopicIfVoteStateDNE,
    VoteChangeNotSupported,
    InvalidVoteGenesisInput,
    InputThresholdExceedsBounds,
}

/// Minimum supporting weight required to approve, and an optional maximum
/// opposing weight that forces rejection.
#[derive(Clone, Copy, Debug)]
pub struct Threshold<T> {
    pub in_favor: T,
    pub against: Option<T>,
}

impl<T> Threshold<T> {
    pub fn new(in_favor: T, against: Option<T>) -> (r: Threshold<T>)
        ensures
            r == (Threshold { in_favor, against }),
    {
        Threshold { in_favor, against }
    }
}

/// Both bounds of an absolute threshold stay within the electorate total.
pub open spec fn threshold_within(t: Threshold<u64>, total: u64) -> bool {
    &&& t.in_favor <= total
    &&& (t.against matches Some(a) ==> a <= total)
}

/// One voter's ballot: a fixed magnitude of voting power, the current
/// direction, and an optional justification reference.
#[derive(Clone, Copy, Debug, PartialEq, Eq, Structural)]
pub struct Vote {
    pub magnitude: u64,
    pub direction: VoterView,
    pub justification: Option<u64>,
}

impl Vote {
    pub fn new(magnitude: u64, direction: VoterView, justification: Option<u64>) -> (r: Vote)
        ensures
            r == (Vote { magnitude, direction, justification }),
    {
        Vote { magnitude, direction, justification }
    }

    /// Record a new direction and justification; the magnitude never
    /// changes.  Refused when the direction would not change.
    pub fn set_new_view(&self, direction: VoterView, justification: Option<u64>) -> (r: Option<
        Vote,
    >)
        ensures
            r == if direction == self.direction {
                None::<Vote>
            } else {
                Some(Vote { magnitude: self.magnitude, direction, justification })
            },
    {
        if direction == self.direction {
            None
        } else {
            Some(Vote { magnitude: self.magnitude, direction, justification })
        }
    }

    /// Getter for the fixed voting power of this ballot.
    pub fn magnitude(&self) -> (r: u64)
        ensures
            r == self.magnitude,
    {
        self.magnitude
    }

    /// Getter for the current direction of this ballot.
    pub fn direction(&self) -> (r: VoterView)
        ensures
            r == self.direction,
    {
        self.direction
    }
}

/// Aggregate state of one vote.
#[derive(Clone, Copy, Debug)]
pub struct VoteState {
    pub topic: Option<u64>,
    pub electorate_total: u64,
    pub threshold: Threshold<u64>,
    pub in_favor_tally: u64,
    pub against_tally: u64,
    pub opened_at: u64,
    pub expires_at: Option<u64>,
}

/// Outcome as a function of the current tallies: approval is checked first,
/// then the optional rejection bound.
pub open spec fn spec_outcome(s: VoteState) -> VoteOutcome {
    if s.in_favor_tally >= s.threshold.in_favor {
        VoteOutcome::Approved
    } else if s.threshold.against is Some && s.against_tally >= s.threshold.against.unwrap() {
        VoteOutcome::Rejected
    } else {
        VoteOutcome::Pending
    }
}

/// Direction changes that the tally bookkeeping supports: anything except
/// moving back into `NoVote`, which would unmint a cast vote.
pub open spec fn change_supported(old_direction: VoterView, new_direction: VoterView) -> bool {
    !(new_direction is NoVote && !(old_direction is NoVote))
}

/// Weight a direction contributes to the in-favor tally.
pub open spec fn in_favor_weight(direction: VoterView, magnitude: u64) -> int {
    if direction is InFavor {
        magnitude as int
    } else {
        0
    }
}

/// Weight a direction contributes to the against tally.
pub open spec fn against_weight(direction: VoterView, magnitude: u64) -> int {
    if direction is Against {
        magnitude as int
    } else {
        0
    }
}

/// The state after moving one ballot of the given magnitude from the old
/// direction to the new one: each tally loses the old direction's
/// contribution and gains the new one's.
pub open spec fn spec_apply(
    s: VoteState,
    magnitude: u64,
    old_direction: VoterView,
    new_direction: VoterView,
) -> VoteState {
    VoteState {
        in_favor_tally: (s.in_favor_tally - in_favor_weight(old_direction, magnitude)
            + in_favor_weight(new_direction, magnitude)) as u64,
        against_tally: (s.against_tally - against_weight(old_direction, magnitude)
            + against_weight(new_direction, magnitude)) as u64,
        ..s
    }
}

impl VoteState {
    pub fn new(
        topic: Option<u64>,
        electorate_total: u64,
        threshold: Threshold<u64>,
        opened_at: u64,
        expires_at: Option<u64>,
    ) -> (r: VoteState)
        ensures
            r == (VoteState {
                topic,
                electorate_total,
                threshold,
                in_favor_tally: 0,
                against_tally: 0,
                opened_at,
                expires_at,
            }),
    {
        VoteState {
            topic,
            electorate_total,
            threshold,
            in_favor_tally: 0,
            against_tally: 0,
            opened_at,
            expires_at,
        }
    }

    /// The block height after which ballots are no longer accepted, if any.
    pub fn expires(&self) -> (r: Option<u64>)
        ensures
            r == self.expires_at,
    {
        self.expires_at
    }

    /// Compute the outcome from the current tallies.
    pub fn outcome(&self) -> (r: VoteOutcome)
        ensures
            r == spec_outcome(*self),
    {
        if self.in_favor_tally >= self.threshold.in_favor {
            VoteOutcome::Approved
        } else {
            match self.threshold.against {
                Some(b) => if self.against_tally >= b {
                    VoteOutcome::Rejected
                } else {
                    VoteOutcome::Pending
                },
                None => VoteOutcome::Pending,
            }
        }
    }

    /// Move one ballot's magnitude between tally buckets.  Returns `None`
    /// exactly when the change is unsupported.  The bounds in the
    /// `requires` clause hold whenever the tallies satisfy the registry's
    /// conservation invariant.
    pub fn apply(
        &self,
        magnitude: u64,
        old_direction: VoterView,
        new_direction: VoterView,
    ) -> (r: Option<VoteState>)
        requires
            old_direction is InFavor ==> magnitude <= self.in_favor_tally,
            old_direction is Against ==> magnitude <= self.against_tally,
            self.in_favor_tally - in_favor_weight(old_direction, magnitude) + in_favor_weight(
                new_direction,
                magnitude,
            ) <= u64::MAX,
            self.against_tally - against_weight(old_direction, magnitude) + against_weight(
                new_direction,
                magnitude,
            ) <= u64::MAX,
        ensures
            r == if change_supported(old_direction, new_direction) {
                Some(spec_apply(*self, magnitude, old_direction, new_direction))
            } else {
                None::<VoteState>
            },
    {
        match (old_direction, new_direction) {
            (VoterView::NoVote, VoterView::NoVote) => Some(*self),
            (_, VoterView::NoVote) => None,
            _ => {
                let mut in_favor = self.in_favor_tally;
                let mut against = self.against_tally;
                match old_direction {
                    VoterView::InFavor => {
                        in_favor = in_favor - magnitude;
                    },
                    VoterView::Against => {
                        against = against - magnitude;
                    },
                    _ => {},
                }
                match new_direction {
                    VoterView::InFavor => {
                        in_favor = in_favor + magnitude;
                    },
                    VoterView::Against => {
                        against = against + magnitude;
                    },
                    _ => {},
                }
                Some(VoteState { in_favor_tally: in_favor, against_tally: against, ..*self })
            },
        }
    }
}

/// Sum of the weights in an electorate snapshot.
pub open spec fn spec_genesis_sum(e: Seq<(u64, u64)>) -> int
    decreases e.len(),
{
    if e.len() == 0 {
        0
    } else {
        e[0].1 + spec_genesis_sum(e.drop_first())
    }
}

/// No account occurs twice in an electorate snapshot.
pub open spec fn genesis_accounts_unique(e: Seq<(u64, u64)>) -> bool {
    forall|i: int, j: int| 0 <= i < j < e.len() ==> e[i].0 != e[j].0
}

/// A sum of weights is never negative.
pub proof fn lemma_genesis_sum_nonneg(e: Seq<(u64, u64)>)
    ensures
        spec_genesis_sum(e) >= 0,
    decreases e.len(),
{
    if e.len() > 0 {
        lemma_genesis_sum_nonneg(e.drop_first());
    }
}

/// A weighted electorate snapshot: the `(account, weight)` pairs and their
/// declared total.
#[derive(Clone, Debug)]
pub struct SimpleShareGenesis {
    pub total: u64,
    pub account_ownership: Vec<(u64, u64)>,
}

impl SimpleShareGenesis {
    /// A snapshot is consistent when its accounts are distinct and its
    /// weights really sum to the declared total.
    pub open spec fn spec_valid(self) -> bool {
        &&& genesis_accounts_unique(self.account_ownership@)
        &&& spec_genesis_sum(self.account_ownership@) == self.total
    }

    pub fn new(total: u64, account_ownership: Vec<(u64, u64)>) -> (r: SimpleShareGenesis)
        ensures
            r.total == total,
            r.account_ownership@ == account_ownership@,
    {
        SimpleShareGenesis { total, account_ownership }
    }

    /// Getter for the declared total.
    pub fn total(&self) -> (r: u64)
        ensures
            r == self.total,
    {
        self.total
    }

    /// Getter for the `(account, weight)` pairs.
    pub fn account_ownership(&self) -> (r: &Vec<(u64, u64)>)
        ensures
            r@ == self.account_ownership@,
    {
        &self.account_ownership
    }

    /// Check consistency of the snapshot: distinct accounts, and weights
    /// that sum to the declared total without overflowing.
    pub fn is_valid(&self) -> (b: bool)
        ensures
            b == self.spec_valid(),
    {
        let e = &self.account_ownership;
        let n = e.len();
        let mut i: usize = 0;
        // distinctness of the accounts
        while i < n
            invariant
                e@ == self.account_ownership@,
                n == e@.len(),
                i <= n,
                forall|a: int, b: int| 0 <= a < b < i ==> e@[a].0 != e@[b].0,
            decreases n - i,
        {
            let mut j: usize = 0;
            while j < i
                invariant
                    e@ == self.account_ownership@,
                    n == e@.len(),
                    i < n,
                    j <= i,
                    forall|b: int| 0 <= b < j ==> e@[b].0 != e@[i as int].0,
                decreases i - j,
            {
                if e[j].0 == e[i].0 {
                    proof {
                        assert(!genesis_accounts_unique(e@)) by {
                            assert(0 <= j < i < e@.len() && e@[j as int].0 == e@[i as int].0);
                        }
                    }
                    return false;
                }
                j = j + 1;
            }
            i = i + 1;
        }
        // the weights sum to the declared total
        let mut acc: u64 = 0;
        let mut k: usize = 0;
        proof {
            assert(e@.skip(0) =~= e@);
        }
        while k < n
            invariant
                e@ == self.account_ownership@,
                n == e@.len(),
                k <= n,
                acc + spec_genesis_sum(e@.skip(k as int)) == spec_genesis_sum(e@),
            decreases n - k,
        {
            proof {
                assert(e@.skip(k as int)[0] == e@[k as int]);
                assert(e@.skip(k as int).drop_first() =~= e@.skip(k as int + 1));
                lemma_genesis_sum_nonneg(e@.skip(k as int + 1));
            }
            let w = e[k].1;
            if w > u64::MAX - acc {
                // the mathematical sum exceeds every representable total
                proof {
                    assert(spec_genesis_sum(e@) >= acc + e@[k as int].1);
                    assert(spec_genesis_sum(e@) != self.total);
                }
                return false;
            }
            acc = acc + w;
            k = k + 1;
        }
        proof {
            assert(e@.skip(n as int) =~= Seq::<(u64, u64)>::empty());
            assert(spec_genesis_sum(Seq::<(u64, u64)>::empty()) == 0);
        }
        acc == self.total
    }
}

} // verus!
