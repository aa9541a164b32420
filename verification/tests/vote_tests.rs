use vote_court::ratio::Ratio;
use vote_court::vote::{SimpleShareGenesis, Threshold, VoteError, VoteOutcome, VoterView};
use vote_court::vote_registry::{check_vote_expired, valid_signal_threshold, VoteRegistry};

fn three_member_electorate() -> SimpleShareGenesis {
    SimpleShareGenesis::new(30, vec![(1, 10), (2, 10), (3, 10)])
}

#[test]
fn scenario_absolute_threshold_approval() {
    // electorate {1:10, 2:10, 3:10}, threshold in_favor = 20
    let mut reg = VoteRegistry::new();
    let src = three_member_electorate();
    let vote_id = reg
        .open_vote(None, &src, Threshold::new(20, None), None, 0)
        .unwrap();
    assert_eq!(reg.get_vote_outcome(vote_id).unwrap(), VoteOutcome::Pending);
    reg.vote_on_proposal(vote_id, 1, VoterView::InFavor, None, 0)
        .unwrap();
    let s = reg.vote_states(vote_id).unwrap();
    assert_eq!(s.in_favor_tally, 10);
    assert_eq!(reg.get_vote_outcome(vote_id).unwrap(), VoteOutcome::Pending);
    reg.vote_on_proposal(vote_id, 2, VoterView::InFavor, None, 0)
        .unwrap();
    let s = reg.vote_states(vote_id).unwrap();
    assert_eq!(s.in_favor_tally, 20);
    assert_eq!(reg.get_vote_outcome(vote_id).unwrap(), VoteOutcome::Approved);
}

#[test]
fn scenario_proportional_threshold_approval() {
    // 60 percent of 30 resolves to an absolute threshold of 18
    let mut reg = VoteRegistry::new();
    let src = three_member_electorate();
    let vote_id = reg
        .open_percent_vote(
            None,
            &src,
            Threshold::new(Ratio::from_percent(60), None),
            None,
            0,
        )
        .unwrap();
    let s = reg.vote_states(vote_id).unwrap();
    assert_eq!(s.threshold.in_favor, 18);
    reg.vote_on_proposal(vote_id, 1, VoterView::InFavor, None, 0)
        .unwrap();
    reg.vote_on_proposal(vote_id, 2, VoterView::InFavor, None, 0)
        .unwrap();
    assert_eq!(reg.vote_states(vote_id).unwrap().in_favor_tally, 20);
    assert_eq!(reg.get_vote_outcome(vote_id).unwrap(), VoteOutcome::Approved);
}

#[test]
fn conservation_of_tallies() {
    let mut reg = VoteRegistry::new();
    let src = three_member_electorate();
    let vote_id = reg
        .open_vote(None, &src, Threshold::new(25, Some(10)), None, 0)
        .unwrap();
    reg.vote_on_proposal(vote_id, 1, VoterView::InFavor, None, 0)
        .unwrap();
    reg.vote_on_proposal(vote_id, 2, VoterView::Against, None, 0)
        .unwrap();
    let s = reg.vote_states(vote_id).unwrap();
    assert!(s.in_favor_tally + s.against_tally <= s.electorate_total);
    // the tallies are exactly the weight of the cast ballots
    assert_eq!(s.in_favor_tally + s.against_tally, 20);
    // an abstention adds to no tally
    reg.vote_on_proposal(vote_id, 3, VoterView::Abstain, None, 0)
        .unwrap();
    let s = reg.vote_states(vote_id).unwrap();
    assert_eq!(s.in_favor_tally, 10);
    assert_eq!(s.against_tally, 10);
}

#[test]
fn sequential_identifiers_strictly_increase() {
    let mut reg = VoteRegistry::new();
    let a = reg.generate_unique_id();
    let b = reg.generate_unique_id();
    let c = reg.generate_unique_id();
    assert!(a < b && b < c);
    assert_eq!((a, b, c), (1, 2, 3));
    // identifiers handed out by vote opening continue the same run
    let src = three_member_electorate();
    let vote_id = reg
        .open_vote(None, &src, Threshold::new(20, None), None, 0)
        .unwrap();
    assert_eq!(vote_id, 4);
    assert!(reg.id_is_available(3));
    assert!(!reg.id_is_available(4));
}

#[test]
fn idempotent_rejection_of_repeated_direction() {
    let mut reg = VoteRegistry::new();
    let src = three_member_electorate();
    let vote_id = reg
        .open_vote(None, &src, Threshold::new(20, None), None, 0)
        .unwrap();
    reg.vote_on_proposal(vote_id, 1, VoterView::InFavor, None, 0)
        .unwrap();
    let tally = reg.vote_states(vote_id).unwrap().in_favor_tally;
    for _ in 0..2 {
        let r = reg.vote_on_proposal(vote_id, 1, VoterView::InFavor, None, 0);
        assert_eq!(
            r,
            Err(VoteError::OldVoteDirectionEqualsNewVoteDirectionSoNoChange)
        );
        assert_eq!(reg.vote_states(vote_id).unwrap().in_favor_tally, tally);
    }
}

#[test]
fn outcome_flips_to_approved_and_stays_with_more_support() {
    let mut reg = VoteRegistry::new();
    let src = three_member_electorate();
    let vote_id = reg
        .open_vote(None, &src, Threshold::new(20, None), None, 0)
        .unwrap();
    reg.vote_on_proposal(vote_id, 1, VoterView::InFavor, None, 0)
        .unwrap();
    assert_eq!(reg.get_vote_outcome(vote_id).unwrap(), VoteOutcome::Pending);
    reg.vote_on_proposal(vote_id, 2, VoterView::InFavor, None, 0)
        .unwrap();
    assert_eq!(reg.get_vote_outcome(vote_id).unwrap(), VoteOutcome::Approved);
    reg.vote_on_proposal(vote_id, 3, VoterView::InFavor, None, 0)
        .unwrap();
    assert_eq!(reg.get_vote_outcome(vote_id).unwrap(), VoteOutcome::Approved);
}

#[test]
fn rejection_bound_forces_rejected_outcome() {
    let mut reg = VoteRegistry::new();
    let src = three_member_electorate();
    let vote_id = reg
        .open_vote(None, &src, Threshold::new(21, Some(20)), None, 0)
        .unwrap();
    reg.vote_on_proposal(vote_id, 1, VoterView::Against, None, 0)
        .unwrap();
    assert_eq!(reg.get_vote_outcome(vote_id).unwrap(), VoteOutcome::Pending);
    reg.vote_on_proposal(vote_id, 2, VoterView::Against, None, 0)
        .unwrap();
    assert_eq!(reg.get_vote_outcome(vote_id).unwrap(), VoteOutcome::Rejected);
}

#[test]
fn invalid_genesis_inputs_are_rejected() {
    let mut reg = VoteRegistry::new();
    // declared total disagrees with the weights
    let bad_total = SimpleShareGenesis::new(29, vec![(1, 10), (2, 10), (3, 10)]);
    assert_eq!(
        reg.open_vote(None, &bad_total, Threshold::new(5, None), None, 0),
        Err(VoteError::InvalidVoteGenesisInput)
    );
    // an account listed twice
    let duplicate = SimpleShareGenesis::new(20, vec![(1, 10), (1, 10)]);
    assert_eq!(
        reg.open_vote(None, &duplicate, Threshold::new(5, None), None, 0),
        Err(VoteError::InvalidVoteGenesisInput)
    );
    // nothing was persisted by the failed attempts
    assert_eq!(reg.vote_id_counter, 0);
    assert_eq!(reg.open_vote_counter, 0);
}

#[test]
fn threshold_bounds_are_checked_against_the_electorate() {
    let mut reg = VoteRegistry::new();
    let src = three_member_electorate();
    assert_eq!(
        reg.open_vote(None, &src, Threshold::new(31, None), None, 0),
        Err(VoteError::InputThresholdExceedsBounds)
    );
    assert_eq!(
        reg.open_vote(None, &src, Threshold::new(30, Some(31)), None, 0),
        Err(VoteError::InputThresholdExceedsBounds)
    );
    assert!(reg
        .open_vote(None, &src, Threshold::new(30, Some(30)), None, 0)
        .is_ok());
}

#[test]
fn ballot_errors_for_unknown_vote_and_unknown_voter() {
    let mut reg = VoteRegistry::new();
    assert_eq!(
        reg.vote_on_proposal(7, 1, VoterView::InFavor, None, 0),
        Err(VoteError::NoVoteStateForVoteRequest)
    );
    assert_eq!(
        reg.get_vote_outcome(7),
        Err(VoteError::NoVoteStateForOutcomeQuery)
    );
    let src = three_member_electorate();
    let vote_id = reg
        .open_vote(None, &src, Threshold::new(20, None), None, 0)
        .unwrap();
    // account 9 was not part of the electorate
    assert_eq!(
        reg.vote_on_proposal(vote_id, 9, VoterView::InFavor, None, 0),
        Err(VoteError::SignalNotMintedForVoter)
    );
}

#[test]
fn expired_votes_accept_no_ballots() {
    let mut reg = VoteRegistry::new();
    let src = three_member_electorate();
    // opened at block 5 with a duration of 10: expires at 15
    let vote_id = reg
        .open_vote(None, &src, Threshold::new(20, None), Some(10), 5)
        .unwrap();
    let s = reg.vote_states(vote_id).unwrap();
    assert_eq!(s.expires_at, Some(15));
    assert!(!check_vote_expired(&s, 15));
    assert!(check_vote_expired(&s, 16));
    reg.vote_on_proposal(vote_id, 1, VoterView::InFavor, None, 15)
        .unwrap();
    assert_eq!(
        reg.vote_on_proposal(vote_id, 2, VoterView::InFavor, None, 16),
        Err(VoteError::VotePastExpirationTimeSoVotesNotAccepted)
    );
}

#[test]
fn moving_back_into_novote_is_unsupported() {
    let mut reg = VoteRegistry::new();
    let src = three_member_electorate();
    let vote_id = reg
        .open_vote(None, &src, Threshold::new(20, None), None, 0)
        .unwrap();
    reg.vote_on_proposal(vote_id, 1, VoterView::InFavor, None, 0)
        .unwrap();
    assert_eq!(
        reg.vote_on_proposal(vote_id, 1, VoterView::NoVote, None, 0),
        Err(VoteError::VoteChangeNotSupported)
    );
    // switching sides is supported and moves the weight across
    reg.vote_on_proposal(vote_id, 1, VoterView::Against, None, 0)
        .unwrap();
    let s = reg.vote_states(vote_id).unwrap();
    assert_eq!(s.in_favor_tally, 0);
    assert_eq!(s.against_tally, 10);
}

#[test]
fn topic_update_without_clearing_keeps_tallies() {
    let mut reg = VoteRegistry::new();
    let src = three_member_electorate();
    let vote_id = reg
        .open_vote(Some(41), &src, Threshold::new(20, None), None, 0)
        .unwrap();
    reg.vote_on_proposal(vote_id, 1, VoterView::InFavor, None, 0)
        .unwrap();
    reg.update_vote_topic(vote_id, 42, false).unwrap();
    let s = reg.vote_states(vote_id).unwrap();
    assert_eq!(s.topic, Some(42));
    assert_eq!(s.in_favor_tally, 10);
    assert_eq!(
        reg.vote_logger(vote_id, 1).unwrap().direction,
        VoterView::InFavor
    );
}

#[test]
fn topic_update_with_clearing_restarts_deliberation() {
    let mut reg = VoteRegistry::new();
    let src = three_member_electorate();
    let vote_id = reg
        .open_vote(Some(41), &src, Threshold::new(20, None), None, 0)
        .unwrap();
    reg.vote_on_proposal(vote_id, 1, VoterView::InFavor, None, 0)
        .unwrap();
    reg.vote_on_proposal(vote_id, 2, VoterView::Against, None, 0)
        .unwrap();
    reg.update_vote_topic(vote_id, 42, true).unwrap();
    let s = reg.vote_states(vote_id).unwrap();
    assert_eq!(s.topic, Some(42));
    assert_eq!(s.in_favor_tally, 0);
    assert_eq!(s.against_tally, 0);
    // the electorate and its magnitudes survive, directions reset
    let b = reg.vote_logger(vote_id, 1).unwrap();
    assert_eq!(b.direction, VoterView::NoVote);
    assert_eq!(b.magnitude, 10);
    assert_eq!(
        reg.update_vote_topic(9, 42, true),
        Err(VoteError::CannotUpdateVoteTopicIfVoteStateDNE)
    );
}

#[test]
fn ratio_resolution_rounds_down() {
    assert_eq!(Ratio::from_percent(60).mul_floor(30), 18);
    assert_eq!(Ratio::from_percent(50).mul_floor(5), 2);
    assert_eq!(Ratio::from_percent(100).mul_floor(7), 7);
    assert_eq!(Ratio::from_percent(0).mul_floor(1000), 0);
    // a third of a million parts of one million
    assert_eq!(Ratio::from_parts(333_333).mul_floor(3), 0);
    assert_eq!(Ratio::from_parts(333_334).mul_floor(3), 1);
    // constructors clamp at the whole
    assert_eq!(Ratio::from_percent(150).mul_floor(40), 40);
    assert_eq!(Ratio::from_parts(2_000_000).mul_floor(11), 11);
}

#[test]
fn empty_electorate_with_zero_threshold() {
    let mut reg = VoteRegistry::new();
    let src = SimpleShareGenesis::new(0, vec![]);
    let vote_id = reg
        .open_vote(None, &src, Threshold::new(0, None), None, 0)
        .unwrap();
    // a zero threshold over nobody is met by the zero tally at once
    assert_eq!(reg.get_vote_outcome(vote_id).unwrap(), VoteOutcome::Approved);
    assert_eq!(
        reg.vote_on_proposal(vote_id, 1, VoterView::InFavor, None, 0),
        Err(VoteError::SignalNotMintedForVoter)
    );
}

#[test]
fn maximal_weight_electorate() {
    let mut reg = VoteRegistry::new();
    let src = SimpleShareGenesis::new(u64::MAX, vec![(1, u64::MAX)]);
    let vote_id = reg
        .open_vote(None, &src, Threshold::new(u64::MAX, None), None, 0)
        .unwrap();
    assert_eq!(reg.get_vote_outcome(vote_id).unwrap(), VoteOutcome::Pending);
    reg.vote_on_proposal(vote_id, 1, VoterView::InFavor, None, 0)
        .unwrap();
    assert_eq!(reg.get_vote_outcome(vote_id).unwrap(), VoteOutcome::Approved);
    assert_eq!(Ratio::from_percent(100).mul_floor(u64::MAX), u64::MAX);
    assert_eq!(
        Ratio::from_parts(999_999).mul_floor(u64::MAX),
        u64::MAX / 1_000_000 * 999_999 + u64::MAX % 1_000_000 * 999_999 / 1_000_000
    );
}

#[test]
fn threshold_validation_helper() {
    assert!(valid_signal_threshold(&Threshold::new(30, Some(30)), 30));
    assert!(!valid_signal_threshold(&Threshold::new(31, None), 30));
    assert!(!valid_signal_threshold(&Threshold::new(10, Some(31)), 30));
}
