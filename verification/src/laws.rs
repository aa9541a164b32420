//! The laws the library's components obey, stated over the same spec
//! functions as the operations' contracts and proved once and for all.

use vstd::prelude::*;
use crate::ballots::{cast_sum, lemma_no_abstain_zero, lemma_sums_bounds};
use crate::custodian::Custodian;
use crate::court::spec_released;
use crate::vote::{
    in_favor_weight, spec_apply, spec_outcome, VoteError, VoteOutcome, VoteState, VoterView,
};
use crate::vote_registry::{vote_expired, VoteRegistry};

verus! {

/// Conservation: in a well-formed registry, a live vote's tallies together
/// never exceed its electorate total; and as long as no ballot of the vote
/// abstains, their sum is exactly the weight of the ballots that have left
/// `NoVote`.
pub proof fn lemma_tally_conservation(reg: VoteRegistry, vote_id: u64)
    requires
        reg.wf(),
        reg.states.spec_get(vote_id) is Some,
    ensures
        ({
            let s = reg.states.spec_get(vote_id).unwrap();
            &&& s.in_favor_tally + s.against_tally <= s.electorate_total
            &&& (forall|i: int|
                0 <= i < reg.ballots@.len() && reg.ballots@[i].0.0 == vote_id ==> !(
                reg.ballots@[i].1.direction is Abstain)) ==> s.in_favor_tally + s.against_tally
                == cast_sum(reg.ballots@, vote_id)
        }),
{
    lemma_sums_bounds(reg.ballots@, vote_id);
    if forall|i: int|
        0 <= i < reg.ballots@.len() && reg.ballots@[i].0.0 == vote_id ==> !(
        reg.ballots@[i].1.direction is Abstain) {
        lemma_no_abstain_zero(reg.ballots@, vote_id);
    }
}

/// Each allocation returns the successor of the registry's nonce and
/// leaves the nonce at the returned identifier.  Over a run of sequential
/// allocations the nonces therefore advance by one each time.
proof fn lemma_counters_linear(counters: Seq<u64>, ids: Seq<u64>, k: int)
    requires
        counters.len() == ids.len() + 1,
        forall|i: int| 0 <= i < ids.len() ==> ids[i] == counters[i] + 1,
        forall|i: int| 0 <= i < ids.len() ==> counters[i + 1] == ids[i],
        0 <= k < counters.len(),
    ensures
        counters[k] == counters[0] + k,
    decreases k,
{
    if k > 0 {
        lemma_counters_linear(counters, ids, k - 1);
        assert(ids[k - 1] == counters[k - 1] + 1);
        assert(counters[k] == ids[k - 1]);
    }
}

/// No double allocation: over any run of sequential identifier
/// allocations — each returning the successor of the nonce it found and
/// leaving the nonce there, as the allocators' contracts state — the
/// handed-out identifiers strictly increase in issuance order, and so are
/// pairwise distinct.
pub proof fn lemma_allocations_strictly_increase(counters: Seq<u64>, ids: Seq<u64>)
    requires
        counters.len() == ids.len() + 1,
        forall|i: int| 0 <= i < ids.len() ==> ids[i] == counters[i] + 1,
        forall|i: int| 0 <= i < ids.len() ==> counters[i + 1] == ids[i],
    ensures
        forall|i: int, j: int| 0 <= i < j < ids.len() ==> ids[i] < ids[j],
{
    assert forall|i: int, j: int| 0 <= i < j < ids.len() implies ids[i] < ids[j] by {
        lemma_counters_linear(counters, ids, i);
        lemma_counters_linear(counters, ids, j);
    }
}

/// Idempotent rejection: when a live, unexpired vote holds a ballot that
/// already stands at the requested direction, the cast is refused as a
/// no-op; a refusal changes nothing, so the same request is refused the
/// same way however often it is repeated.
pub proof fn lemma_idempotent_rejection(
    reg: VoteRegistry,
    vote_id: u64,
    voter: u64,
    direction: VoterView,
    now: u64,
)
    requires
        reg.states.spec_get(vote_id) is Some,
        !vote_expired(reg.states.spec_get(vote_id).unwrap(), now),
        reg.ballots.spec_get(vote_id, voter) matches Some(b) && direction == b.direction,
    ensures
        reg.spec_cast_err(vote_id, voter, direction, now) == Some(
            VoteError::OldVoteDirectionEqualsNewVoteDirectionSoNoChange,
        ),
{
}

/// A vote is approved exactly when its in-favor tally has reached the
/// approval threshold.
pub proof fn lemma_outcome_approved_iff(s: VoteState)
    ensures
        (spec_outcome(s) == VoteOutcome::Approved) <==> s.in_favor_tally >= s.threshold.in_favor,
{
}

/// Threshold monotonicity: the outcome is monotone in the in-favor tally —
/// any state with the same approval threshold and at least the tally of an
/// approved state is approved as well, never back to pending.
pub proof fn lemma_threshold_monotonic(s1: VoteState, s2: VoteState)
    requires
        s2.threshold.in_favor == s1.threshold.in_favor,
        s2.in_favor_tally >= s1.in_favor_tally,
        spec_outcome(s1) == VoteOutcome::Approved,
    ensures
        spec_outcome(s2) == VoteOutcome::Approved,
{
}

/// A ballot cast away from `NoVote` never lowers the in-favor tally, so by
/// monotonicity such casts never take an approved vote back to pending;
/// only a topic update that clears the vote state resets the tallies.
pub proof fn lemma_fresh_cast_keeps_approval(s: VoteState, magnitude: u64, new_direction: VoterView)
    requires
        spec_outcome(s) == VoteOutcome::Approved,
        s.in_favor_tally + in_favor_weight(new_direction, magnitude) <= u64::MAX,
    ensures
        spec_outcome(spec_apply(s, magnitude, VoterView::NoVote, new_direction))
            == VoteOutcome::Approved,
{
    lemma_threshold_monotonic(s, spec_apply(s, magnitude, VoterView::NoVote, new_direction));
}

/// While the full locked amount is still reserved, a terminal poll's
/// release moves exactly the locked amount.
pub proof fn lemma_poll_releases_exactly(c: Custodian, locker: u64, locked: u64)
    requires
        locked <= c.spec_reserved(locker),
    ensures
        spec_released(c, locker, locked) == locked,
{
}

/// Escrow conservation: registering a dispute raises the locker's reserved
/// balance by exactly the locked amount, and the dispute's terminal
/// transition lowers it by exactly the same amount — whichever way the
/// vote went, the reserved balance ends where it started.
pub proof fn lemma_escrow_conservation(
    c0: Custodian,
    c1: Custodian,
    c2: Custodian,
    locker: u64,
    amount: u64,
)
    requires
        c1.spec_reserved(locker) == c0.spec_reserved(locker) + amount,
        c2.spec_reserved(locker) == c1.spec_reserved(locker) - amount,
    ensures
        c2.spec_reserved(locker) == c0.spec_reserved(locker),
{
}

} // verus!
