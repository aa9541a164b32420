//! The vote registry: owns every vote's aggregate state and the ballot
//! ledger, allocates vote identifiers, opens votes from electorate
//! snapshots, applies ballots, and reports outcomes.

use vstd::prelude::*;
use crate::ballots::{
    against_sum, in_favor_sum, lemma_bfind_at_index, lemma_bfind_index, lemma_no_entries_zero,
    lemma_sum_elem, lemma_sums_bounds, lemma_sums_update, mag_sum, BallotMap,
};
use crate::ratio::Ratio;
use crate::storage::IdMap;
use crate::vote::{
    against_weight, change_supported, in_favor_weight, spec_apply, spec_genesis_sum, spec_outcome,
    threshold_within, SimpleShareGenesis, Threshold, Vote, VoteError, VoteOutcome, VoteState,
    VoterView,
};

verus! {

/// A vote is expired when the clock has moved past its expiry height.
pub open spec fn vote_expired(s: VoteState, now: u64) -> bool {
    s.expires_at matches Some(n) && n < now
}

/// Whether ballots are no longer accepted for this vote at the given block
/// height.
pub fn check_vote_expired(state: &VoteState, now: u64) -> (b: bool)
    ensures
        b == vote_expired(*state, now),
{
    match state.expires() {
        Some(n) => n < now,
        None => false,
    }
}

/// Whether an absolute threshold stays within the electorate's total weight.
pub fn valid_signal_threshold(threshold: &Threshold<u64>, all_possible_turnout: u64) -> (b: bool)
    ensures
        b == threshold_within(*threshold, all_possible_turnout),
{
    threshold.in_favor <= all_possible_turnout && (match threshold.against {
        Some(t) => t <= all_possible_turnout,
        None => true,
    })
}

/// The absolute threshold a proportional threshold resolves to against a
/// given electorate total: each bound is the ratio of the total, rounded
/// down.
pub open spec fn spec_threshold_from_ratio(t: Threshold<Ratio>, total: u64) -> Threshold<u64> {
    Threshold {
        in_favor: t.in_favor.spec_mul(total) as u64,
        against: match t.against {
            Some(r) => Some(r.spec_mul(total) as u64),
            None => None,
        },
    }
}

/// Resolve a proportional threshold into an absolute one.
pub fn from_permill_to_signal(threshold: &Threshold<Ratio>, all_possible_turnout: u64) -> (r:
    Threshold<u64>)
    requires
        threshold.in_favor.wf(),
        threshold.against matches Some(t) ==> t.wf(),
    ensures
        r == spec_threshold_from_ratio(*threshold, all_possible_turnout),
        threshold_within(r, all_possible_turnout),
{
    let in_favor_t: u64 = threshold.in_favor.mul_floor(all_possible_turnout);
    let against_t: Option<u64> = match threshold.against {
        Some(t) => Some(t.mul_floor(all_possible_turnout)),
        None => None,
    };
    Threshold::new(in_favor_t, against_t)
}

/// The tallies of a vote state agree with the ballot ledger, the minted
/// weight equals the electorate total, and the threshold stays within it.
pub open spec fn tallies_consistent(
    s: VoteState,
    b: Seq<crate::ballots::BallotEntry>,
    vote_id: u64,
) -> bool {
    &&& s.in_favor_tally == in_favor_sum(b, vote_id)
    &&& s.against_tally == against_sum(b, vote_id)
    &&& mag_sum(b, vote_id) == s.electorate_total
    &&& threshold_within(s.threshold, s.electorate_total)
}

/// The expiry height of a vote opened now with the given duration.
pub open spec fn spec_expiry(duration: Option<u64>, now: u64) -> Option<u64> {
    match duration {
        Some(d) => Some((now + d) as u64),
        None => None,
    }
}

/// How a successful vote opening relates the registry before and after: the
/// fresh identifier maps to a zero-tally state over the snapshot's total,
/// one `NoVote` ballot is minted per member, and nothing else changes.
pub open spec fn vote_opened(
    pre: VoteRegistry,
    post: VoteRegistry,
    vote_id: u64,
    topic: Option<u64>,
    src: SimpleShareGenesis,
    threshold: Threshold<u64>,
    duration: Option<u64>,
    now: u64,
) -> bool {
    let e = src.account_ownership@;
    &&& vote_id == pre.vote_id_counter + 1
    &&& post.vote_id_counter == vote_id
    &&& post.open_vote_counter == pre.open_vote_counter + 1
    &&& pre.states.spec_get(vote_id) is None
    &&& post.states.spec_get(vote_id) == Some(
        (VoteState {
            topic,
            electorate_total: src.total,
            threshold,
            in_favor_tally: 0,
            against_tally: 0,
            opened_at: now,
            expires_at: spec_expiry(duration, now),
        }),
    )
    &&& forall|vid: u64| vid != vote_id ==> post.states.spec_get(vid) == pre.states.spec_get(vid)
    &&& forall|i: int|
        0 <= i < e.len() ==> post.ballots.spec_get(vote_id, #[trigger] e[i].0) == Some(
            (Vote { magnitude: e[i].1, direction: VoterView::NoVote, justification: None }),
        )
    &&& forall|a: u64|
        #[trigger] post.ballots.spec_get(vote_id, a) is Some ==> exists|i: int|
            0 <= i < e.len() && e[i].0 == a
    &&& forall|vid: u64, a: u64|
        vid != vote_id ==> post.ballots.spec_get(vid, a) == pre.ballots.spec_get(vid, a)
}

/// The registry of votes: an identifier nonce, a count of opened votes, the
/// per-vote aggregate states, and the ballot ledger.
pub struct VoteRegistry {
    pub vote_id_counter: u64,
    pub open_vote_counter: u64,
    pub states: IdMap<VoteState>,
    pub ballots: BallotMap,
}

impl VoteRegistry {
    /// The registry invariant: stores are well formed, every vote's tallies
    /// are conserved against its ballots, ballots belong to live votes, and
    /// every live identifier is at most the nonce.
    pub open spec fn wf(self) -> bool {
        &&& self.states.wf()
        &&& self.ballots.wf()
        &&& forall|vid: u64|
            #![trigger self.states.spec_get(vid)]
            self.states.spec_get(vid) matches Some(s) ==> tallies_consistent(s, self.ballots@, vid)
        &&& forall|i: int|
            0 <= i < self.ballots@.len() ==> self.states.spec_get(
                #[trigger] self.ballots@[i].0.0,
            ) is Some
        &&& forall|vid: u64|
            #![trigger self.states.spec_get(vid)]
            self.states.spec_get(vid) is Some ==> vid <= self.vote_id_counter
        &&& self.open_vote_counter <= self.vote_id_counter
    }

    /// An empty registry with the nonce at zero.
    pub fn new() -> (r: VoteRegistry)
        ensures
            r.wf(),
            r.vote_id_counter == 0,
            r.open_vote_counter == 0,
            forall|vid: u64| r.states.spec_get(vid) is None,
            r.ballots@.len() == 0,
    {
        VoteRegistry {
            vote_id_counter: 0,
            open_vote_counter: 0,
            states: IdMap::new(),
            ballots: BallotMap::new(),
        }
    }

    /// An identifier is available when no live vote uses it.
    pub fn id_is_available(&self, id: u64) -> (b: bool)
        requires
            self.wf(),
        ensures
            b == (self.states.spec_get(id) is None),
    {
        !self.states.contains_key(id)
    }

    /// Advance the nonce past any occupied identifier and hand out a fresh
    /// one.  Under the registry invariant every live identifier is at most
    /// the nonce, so the probe never has to skip.
    pub fn generate_unique_id(&mut self) -> (r: u64)
        requires
            old(self).wf(),
            old(self).vote_id_counter < u64::MAX,
        ensures
            final(self).wf(),
            r == old(self).vote_id_counter + 1,
            final(self).vote_id_counter == r,
            final(self).states.spec_get(r) is None,
            final(self).states == old(self).states,
            final(self).ballots == old(self).ballots,
            final(self).open_vote_counter == old(self).open_vote_counter,
    {
        let mut id_counter: u64 = self.vote_id_counter + 1;
        loop
            invariant
                self == old(self),
                self.wf(),
                id_counter == old(self).vote_id_counter + 1,
            ensures
                self == old(self),
                id_counter == old(self).vote_id_counter + 1,
                self.states.spec_get(id_counter) is None,
            decreases u64::MAX - id_counter,
        {
            if !self.states.contains_key(id_counter) {
                break;
            }
            // unreachable: a live identifier never exceeds the nonce
            proof {
                assert(false);
            }
            id_counter = id_counter + 1;
        }
        self.vote_id_counter = id_counter;
        id_counter
    }

    /// The outcome of a live vote, recomputed from its current tallies.
    pub fn get_vote_outcome(&self, vote_id: u64) -> (r: Result<VoteOutcome, VoteError>)
        requires
            self.wf(),
        ensures
            r == match self.states.spec_get(vote_id) {
                Some(s) => Ok::<VoteOutcome, VoteError>(spec_outcome(s)),
                None => Err::<VoteOutcome, VoteError>(VoteError::NoVoteStateForOutcomeQuery),
            },
    {
        match self.states.get(vote_id) {
            Some(s) => Ok(s.outcome()),
            None => Err(VoteError::NoVoteStateForOutcomeQuery),
        }
    }

    /// Open a vote over an electorate snapshot with an absolute threshold.
    /// The snapshot is validated first — distinct accounts whose weights sum
    /// to the declared total — then the threshold is checked against that
    /// total; only then are the identifier allocated, the ballots minted at
    /// `NoVote`, and the zero-tally state persisted.
    pub fn open_vote(
        &mut self,
        topic: Option<u64>,
        src: &SimpleShareGenesis,
        threshold: Threshold<u64>,
        duration: Option<u64>,
        now: u64,
    ) -> (r: Result<u64, VoteError>)
        requires
            old(self).wf(),
            old(self).vote_id_counter < u64::MAX,
            duration matches Some(d) ==> now + d <= u64::MAX,
        ensures
            final(self).wf(),
            r is Err ==> *final(self) == *old(self),
            !src.spec_valid() ==> r == Err::<u64, VoteError>(VoteError::InvalidVoteGenesisInput),
            src.spec_valid() && !threshold_within(threshold, src.total) ==> r == Err::<
                u64,
                VoteError,
            >(VoteError::InputThresholdExceedsBounds),
            src.spec_valid() && threshold_within(threshold, src.total) ==> r == Ok::<
                u64,
                VoteError,
            >((old(self).vote_id_counter + 1) as u64),
            r matches Ok(vote_id) ==> vote_opened(
                *old(self),
                *final(self),
                vote_id,
                topic,
                *src,
                threshold,
                duration,
                now,
            ),
    {
        if !src.is_valid() {
            return Err(VoteError::InvalidVoteGenesisInput);
        }
        if !valid_signal_threshold(&threshold, src.total()) {
            return Err(VoteError::InputThresholdExceedsBounds);
        }
        let vote_id = self.generate_unique_id();
        // mint one NoVote ballot per electorate member
        let e = src.account_ownership();
        let n = e.len();
        let mut i: usize = 0;
        proof {
            assert(e@.skip(0) =~= e@);
            // the fresh identifier has no ballots yet
            assert forall|j: int| 0 <= j < self.ballots@.len() implies self.ballots@[j].0.0
                != vote_id by {
                assert(self.states.spec_get(self.ballots@[j].0.0) is Some);
            }
            lemma_no_entries_zero(self.ballots@, vote_id);
            assert forall|a: u64| self.ballots.spec_get(vote_id, a) is None by {
                lemma_bfind_index(self.ballots@, vote_id, a);
            }
        }
        while i < n
            invariant
                e@ == src.account_ownership@,
                n == e@.len(),
                i <= n,
                src.spec_valid(),
                threshold_within(threshold, src.total),
                old(self).wf(),
                old(self).vote_id_counter < u64::MAX,
                vote_id == old(self).vote_id_counter + 1,
                self.vote_id_counter == vote_id,
                self.open_vote_counter == old(self).open_vote_counter,
                self.states == old(self).states,
                self.states.spec_get(vote_id) is None,
                self.states.wf(),
                self.ballots.wf(),
                // the new vote's ballots so far: the processed prefix
                in_favor_sum(self.ballots@, vote_id) == 0,
                against_sum(self.ballots@, vote_id) == 0,
                mag_sum(self.ballots@, vote_id) + spec_genesis_sum(e@.skip(i as int))
                    == src.total as int,
                forall|j: int|
                    0 <= j < i ==> self.ballots.spec_get(vote_id, #[trigger] e@[j].0) == Some(
                        (Vote {
                            magnitude: e@[j].1,
                            direction: VoterView::NoVote,
                            justification: None,
                        }),
                    ),
                forall|a: u64|
                    #[trigger] self.ballots.spec_get(vote_id, a) is Some ==> exists|j: int|
                        0 <= j < i && e@[j].0 == a,
                // everything else in the ledger is untouched
                forall|vid: u64, a: u64|
                    vid != vote_id ==> self.ballots.spec_get(vid, a) == old(
                        self,
                    ).ballots.spec_get(vid, a),
                forall|vid: u64|
                    vid != vote_id ==> in_favor_sum(self.ballots@, vid) == in_favor_sum(
                        old(self).ballots@,
                        vid,
                    ) && against_sum(self.ballots@, vid) == against_sum(old(self).ballots@, vid)
                        && mag_sum(self.ballots@, vid) == mag_sum(old(self).ballots@, vid),
                old(self).ballots@.len() <= self.ballots@.len(),
                forall|j: int|
                    0 <= j < old(self).ballots@.len() ==> self.ballots@[j] == old(
                        self,
                    ).ballots@[j],
                forall|j: int|
                    old(self).ballots@.len() <= j < self.ballots@.len() ==> self.ballots@[j].0.0
                        == vote_id,
            decreases n - i,
        {
            proof {
                assert(e@.skip(i as int)[0] == e@[i as int]);
                assert(e@.skip(i as int).drop_first() =~= e@.skip(i as int + 1));
                crate::vote::lemma_genesis_sum_nonneg(e@.skip(i as int + 1));
                // this member has no ballot yet: the snapshot's accounts are
                // distinct and only the processed prefix was minted
                if self.ballots.spec_get(vote_id, e@[i as int].0) is Some {
                    let j = choose|j: int| 0 <= j < i && e@[j].0 == e@[i as int].0;
                    assert(false);
                }
            }
            let (who, power) = e[i];
            self.ballots.insert_new(vote_id, who, Vote::new(power, VoterView::NoVote, None));
            i = i + 1;
        }
        let ends: Option<u64> = match duration {
            Some(d) => Some(now + d),
            None => None,
        };
        let new_vote_state = VoteState::new(topic, src.total(), threshold, now, ends);
        proof {
            assert(e@.skip(n as int) =~= Seq::<(u64, u64)>::empty());
            assert(spec_genesis_sum(Seq::<(u64, u64)>::empty()) == 0);
        }
        self.states.insert_new(vote_id, new_vote_state);
        self.open_vote_counter = self.open_vote_counter + 1;
        proof {
            assert forall|vid: u64| #![trigger self.states.spec_get(vid)]
                self.states.spec_get(vid) is Some implies tallies_consistent(
                self.states.spec_get(vid).unwrap(),
                self.ballots@,
                vid,
            ) by {
                if vid != vote_id {
                    assert(old(self).states.spec_get(vid) == self.states.spec_get(vid));
                }
            }
            assert forall|j: int| 0 <= j < self.ballots@.len() implies self.states.spec_get(
                #[trigger] self.ballots@[j].0.0,
            ) is Some by {
                if j < old(self).ballots@.len() {
                    assert(self.ballots@[j] == old(self).ballots@[j]);
                    assert(old(self).states.spec_get(self.ballots@[j].0.0) is Some);
                }
            }
        }
        Ok(vote_id)
    }

    /// Open a vote whose proportional threshold is first resolved into an
    /// absolute one against the snapshot's total weight.  A resolved bound
    /// never exceeds the total, so only the snapshot itself can be rejected.
    pub fn open_percent_vote(
        &mut self,
        topic: Option<u64>,
        src: &SimpleShareGenesis,
        threshold: Threshold<Ratio>,
        duration: Option<u64>,
        now: u64,
    ) -> (r: Result<u64, VoteError>)
        requires
            old(self).wf(),
            old(self).vote_id_counter < u64::MAX,
            duration matches Some(d) ==> now + d <= u64::MAX,
            threshold.in_favor.wf(),
            threshold.against matches Some(t) ==> t.wf(),
        ensures
            final(self).wf(),
            r is Err ==> *final(self) == *old(self),
            !src.spec_valid() ==> r == Err::<u64, VoteError>(VoteError::InvalidVoteGenesisInput),
            src.spec_valid() ==> r == Ok::<u64, VoteError>(
                (old(self).vote_id_counter + 1) as u64,
            ),
            r matches Ok(vote_id) ==> vote_opened(
                *old(self),
                *final(self),
                vote_id,
                topic,
                *src,
                spec_threshold_from_ratio(threshold, src.total),
                duration,
                now,
            ),
    {
        let signal_threshold = from_permill_to_signal(&threshold, src.total());
        self.open_vote(topic, src, signal_threshold, duration, now)
    }

    /// The first reason a ballot cast would be refused, if any: unknown
    /// vote, expired vote, unminted voter, unchanged direction, or an
    /// unsupported direction change — in that order.
    pub open spec fn spec_cast_err(
        self,
        vote_id: u64,
        voter: u64,
        direction: VoterView,
        now: u64,
    ) -> Option<VoteError> {
        match self.states.spec_get(vote_id) {
            None => Some(VoteError::NoVoteStateForVoteRequest),
            Some(s) => if vote_expired(s, now) {
                Some(VoteError::VotePastExpirationTimeSoVotesNotAccepted)
            } else {
                match self.ballots.spec_get(vote_id, voter) {
                    None => Some(VoteError::SignalNotMintedForVoter),
                    Some(b) => if direction == b.direction {
                        Some(VoteError::OldVoteDirectionEqualsNewVoteDirectionSoNoChange)
                    } else if !change_supported(b.direction, direction) {
                        Some(VoteError::VoteChangeNotSupported)
                    } else {
                        None
                    },
                }
            },
        }
    }

    /// Move one ballot's magnitude between a vote's tally buckets; a thin
    /// front for `VoteState::apply`.
    pub fn apply_vote(
        state: VoteState,
        vote_magnitude: u64,
        old_vote_view: VoterView,
        new_vote_view: VoterView,
    ) -> (r: Option<VoteState>)
        requires
            old_vote_view is InFavor ==> vote_magnitude <= state.in_favor_tally,
            old_vote_view is Against ==> vote_magnitude <= state.against_tally,
            state.in_favor_tally - in_favor_weight(old_vote_view, vote_magnitude)
                + in_favor_weight(new_vote_view, vote_magnitude) <= u64::MAX,
            state.against_tally - against_weight(old_vote_view, vote_magnitude) + against_weight(
                new_vote_view,
                vote_magnitude,
            ) <= u64::MAX,
        ensures
            r == if change_supported(old_vote_view, new_vote_view) {
                Some(spec_apply(state, vote_magnitude, old_vote_view, new_vote_view))
            } else {
                None::<VoteState>
            },
    {
        state.apply(vote_magnitude, old_vote_view, new_vote_view)
    }

    /// Cast or change one voter's ballot.  On success the ballot records
    /// the new direction and justification, and the tallies move by the
    /// ballot's fixed magnitude; on any refusal nothing changes.
    pub fn vote_on_proposal(
        &mut self,
        vote_id: u64,
        voter: u64,
        direction: VoterView,
        justification: Option<u64>,
        now: u64,
    ) -> (r: Result<(), VoteError>)
        requires
            old(self).wf(),
        ensures
            final(self).wf(),
            old(self).spec_cast_err(vote_id, voter, direction, now) matches Some(e) ==> r == Err::<
                (),
                VoteError,
            >(e) && *final(self) == *old(self),
            old(self).spec_cast_err(vote_id, voter, direction, now) is None ==> ({
                let s = old(self).states.spec_get(vote_id).unwrap();
                let b = old(self).ballots.spec_get(vote_id, voter).unwrap();
                &&& r == Ok::<(), VoteError>(())
                &&& final(self).states.spec_get(vote_id) == Some(
                    spec_apply(s, b.magnitude, b.direction, direction),
                )
                &&& forall|vid: u64|
                    vid != vote_id ==> final(self).states.spec_get(vid) == old(
                        self,
                    ).states.spec_get(vid)
                &&& final(self).ballots.spec_get(vote_id, voter) == Some(
                    (Vote { magnitude: b.magnitude, direction, justification }),
                )
                &&& forall|vid: u64, a: u64|
                    !(vid == vote_id && a == voter) ==> final(self).ballots.spec_get(vid, a)
                        == old(self).ballots.spec_get(vid, a)
                &&& final(self).vote_id_counter == old(self).vote_id_counter
                &&& final(self).open_vote_counter == old(self).open_vote_counter
            }),
    {
        let vote_state = match self.vote_states(vote_id) {
            Some(s) => s,
            None => {
                return Err(VoteError::NoVoteStateForVoteRequest);
            },
        };
        if check_vote_expired(&vote_state, now) {
            return Err(VoteError::VotePastExpirationTimeSoVotesNotAccepted);
        }
        let old_vote = match self.vote_logger(vote_id, voter) {
            Some(v) => v,
            None => {
                return Err(VoteError::SignalNotMintedForVoter);
            },
        };
        let new_vote = match old_vote.set_new_view(direction, justification) {
            Some(v) => v,
            None => {
                return Err(VoteError::OldVoteDirectionEqualsNewVoteDirectionSoNoChange);
            },
        };
        proof {
            // The ballot's weight sits inside its tally, and after moving it
            // the tallies still sit inside the electorate total.
            lemma_bfind_index(self.ballots@, vote_id, voter);
            let idx = choose|j: int|
                0 <= j < self.ballots@.len() && self.ballots@[j].0 == (vote_id, voter);
            lemma_bfind_at_index(self.ballots@, idx);
            lemma_sum_elem(self.ballots@, idx);
            let upd = self.ballots@.update(idx, ((vote_id, voter), new_vote));
            lemma_sums_update(self.ballots@, idx, ((vote_id, voter), new_vote), vote_id);
            lemma_sums_bounds(upd, vote_id);
        }
        let new_state = match Self::apply_vote(
            vote_state,
            old_vote.magnitude(),
            old_vote.direction(),
            direction,
        ) {
            Some(s) => s,
            None => {
                return Err(VoteError::VoteChangeNotSupported);
            },
        };
        self.ballots.set(vote_id, voter, new_vote);
        self.states.set(vote_id, new_state);
        proof {
            assert forall|vid: u64| #![trigger self.states.spec_get(vid)]
                self.states.spec_get(vid) is Some implies tallies_consistent(
                self.states.spec_get(vid).unwrap(),
                self.ballots@,
                vid,
            ) by {
                if vid != vote_id {
                    assert(self.states.spec_get(vid) == old(self).states.spec_get(vid));
                }
            }
            assert forall|j: int| 0 <= j < self.ballots@.len() implies self.states.spec_get(
                #[trigger] self.ballots@[j].0.0,
            ) is Some by {
                assert(self.ballots@[j].0 == old(self).ballots@[j].0);
                assert(old(self).states.spec_get(self.ballots@[j].0.0) is Some);
            }
        }
        Ok(())
    }

    /// Change a vote's topic.  With `clear_previous_vote_state` the vote's
    /// deliberation restarts: every ballot returns to `NoVote` and the
    /// tallies return to zero, while the electorate and the minted
    /// magnitudes stay as they were.
    pub fn update_vote_topic(
        &mut self,
        vote_id: u64,
        new_topic: u64,
        clear_previous_vote_state: bool,
    ) -> (r: Result<(), VoteError>)
        requires
            old(self).wf(),
        ensures
            final(self).wf(),
            old(self).states.spec_get(vote_id) is None ==> r == Err::<(), VoteError>(
                VoteError::CannotUpdateVoteTopicIfVoteStateDNE,
            ) && *final(self) == *old(self),
            old(self).states.spec_get(vote_id) is Some ==> ({
                &&& r == Ok::<(), VoteError>(())
                &&& final(self).vote_id_counter == old(self).vote_id_counter
                &&& final(self).open_vote_counter == old(self).open_vote_counter
                &&& forall|vid: u64|
                    vid != vote_id ==> final(self).states.spec_get(vid) == old(
                        self,
                    ).states.spec_get(vid)
                &&& forall|vid: u64, a: u64|
                    vid != vote_id ==> final(self).ballots.spec_get(vid, a) == old(
                        self,
                    ).ballots.spec_get(vid, a)
            }),
            old(self).states.spec_get(vote_id) is Some && !clear_previous_vote_state ==> ({
                let s = old(self).states.spec_get(vote_id).unwrap();
                &&& final(self).states.spec_get(vote_id) == Some(
                    (VoteState { topic: Some(new_topic), ..s }),
                )
                &&& final(self).ballots == old(self).ballots
            }),
            old(self).states.spec_get(vote_id) is Some && clear_previous_vote_state ==> ({
                let s = old(self).states.spec_get(vote_id).unwrap();
                &&& final(self).states.spec_get(vote_id) == Some(
                    (VoteState {
                        topic: Some(new_topic),
                        in_favor_tally: 0,
                        against_tally: 0,
                        ..s
                    }),
                )
                &&& forall|a: u64|
                    final(self).ballots.spec_get(vote_id, a) == match old(self).ballots.spec_get(
                        vote_id,
                        a,
                    ) {
                        Some(b) => Some((Vote { direction: VoterView::NoVote, ..b })),
                        None => None::<Vote>,
                    }
            }),
    {
        let old_state = match self.vote_states(vote_id) {
            Some(s) => s,
            None => {
                return Err(VoteError::CannotUpdateVoteTopicIfVoteStateDNE);
            },
        };
        let new_state = if clear_previous_vote_state {
            self.ballots.reset_for_vote(vote_id);
            VoteState { topic: Some(new_topic), in_favor_tally: 0, against_tally: 0, ..old_state }
        } else {
            VoteState { topic: Some(new_topic), ..old_state }
        };
        self.states.set(vote_id, new_state);
        proof {
            assert forall|vid: u64| #![trigger self.states.spec_get(vid)]
                self.states.spec_get(vid) is Some implies tallies_consistent(
                self.states.spec_get(vid).unwrap(),
                self.ballots@,
                vid,
            ) by {
                if vid != vote_id {
                    assert(self.states.spec_get(vid) == old(self).states.spec_get(vid));
                }
            }
            assert forall|j: int| 0 <= j < self.ballots@.len() implies self.states.spec_get(
                #[trigger] self.ballots@[j].0.0,
            ) is Some by {
                assert(self.ballots@[j].0 == old(self).ballots@[j].0);
                assert(old(self).states.spec_get(self.ballots@[j].0.0) is Some);
            }
        }
        Ok(())
    }

    /// Copy of one vote's aggregate state, if it is live.
    pub fn vote_states(&self, vote_id: u64) -> (r: Option<VoteState>)
        requires
            self.wf(),
        ensures
            r == self.states.spec_get(vote_id),
    {
        match self.states.get(vote_id) {
            Some(s) => Some(*s),
            None => None,
        }
    }

    /// Copy of one voter's ballot within one vote, if minted.
    pub fn vote_logger(&self, vote_id: u64, account: u64) -> (r: Option<Vote>)
        requires
            self.wf(),
        ensures
            r == self.ballots.spec_get(vote_id, account),
    {
        match self.ballots.get(vote_id, account) {
            Some(v) => Some(*v),
            None => None,
        }
    }
}

} // verus!
