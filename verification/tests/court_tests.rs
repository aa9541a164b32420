use vote_court::court::{Court, CourtError, Dispute, DisputeState, VoteCall, VoteMetadata};
use vote_court::custodian::{Custodian, CustodianError};
use vote_court::ratio::Ratio;
use vote_court::vote::{SimpleShareGenesis, Threshold, VoteOutcome, VoterView};
use vote_court::vote_registry::VoteRegistry;

const DAVE: u64 = 4;
const EVE: u64 = 5;

fn electorate() -> SimpleShareGenesis {
    SimpleShareGenesis::new(30, vec![(1, 10), (2, 10), (3, 10)])
}

fn signal_path(in_favor: u64, against: Option<u64>) -> VoteMetadata {
    VoteMetadata::Signal(VoteCall {
        org: 1,
        threshold: Threshold::new(in_favor, against),
        duration: None,
    })
}

/// A court with floor 50, a registry, and a custodian in which Dave holds
/// 200 free.
fn setup() -> (Court, VoteRegistry, Custodian) {
    let court = Court::new(50);
    let votes = VoteRegistry::new();
    let mut custodian = Custodian::new(1);
    custodian.deposit(DAVE, 200).unwrap();
    (court, votes, custodian)
}

#[test]
fn scenario_rejected_dispute_returns_escrow() {
    // register amount 100 (floor 50) locked by Dave, raisable by Eve
    let (mut court, mut votes, mut custodian) = setup();
    custodian.deposit(EVE, 10).unwrap();
    let did = court
        .register_dispute_type(
            &mut custodian,
            DAVE,
            100,
            EVE,
            signal_path(21, Some(20)),
            None,
        )
        .unwrap();
    assert_eq!(custodian.reserved_balance(DAVE), 100);
    assert_eq!(custodian.free_balance(DAVE), 100);
    let vote_id = court
        .raise_dispute_to_trigger_vote(&mut votes, did, EVE, &electorate(), 0)
        .unwrap();
    // the against tally crosses the rejection bound
    votes
        .vote_on_proposal(vote_id, 1, VoterView::Against, None, 0)
        .unwrap();
    votes
        .vote_on_proposal(vote_id, 2, VoterView::Against, None, 0)
        .unwrap();
    let polled = court
        .poll_dispute_to_execute_outcome(&votes, &mut custodian, did)
        .unwrap();
    assert_eq!(polled, VoteOutcome::Rejected);
    // the reservation went back to Dave; Eve is unaffected
    assert_eq!(custodian.reserved_balance(DAVE), 0);
    assert_eq!(custodian.free_balance(DAVE), 200);
    assert_eq!(custodian.free_balance(EVE), 10);
    assert_eq!(
        court.dispute_states(did).unwrap().state,
        DisputeState::DisputeRaisedAndRejected(vote_id)
    );
}

#[test]
fn scenario_pending_poll_fails_then_succeeds() {
    let (mut court, mut votes, mut custodian) = setup();
    let did = court
        .register_dispute_type(&mut custodian, DAVE, 100, EVE, signal_path(20, None), None)
        .unwrap();
    let vote_id = court
        .raise_dispute_to_trigger_vote(&mut votes, did, EVE, &electorate(), 0)
        .unwrap();
    votes
        .vote_on_proposal(vote_id, 1, VoterView::InFavor, None, 0)
        .unwrap();
    // not enough support yet: the poll is inconclusive and changes nothing
    assert_eq!(
        court.poll_dispute_to_execute_outcome(&votes, &mut custodian, did),
        Err(CourtError::VoteOutcomeInconclusiveSoPollCannotExecuteOutcome)
    );
    assert_eq!(
        court.dispute_states(did).unwrap().state,
        DisputeState::DisputeRaisedAndVoteDispatched(vote_id)
    );
    assert_eq!(custodian.reserved_balance(DAVE), 100);
    // with enough further support a second poll executes the outcome
    votes
        .vote_on_proposal(vote_id, 2, VoterView::InFavor, None, 0)
        .unwrap();
    let polled = court
        .poll_dispute_to_execute_outcome(&votes, &mut custodian, did)
        .unwrap();
    assert_eq!(polled, VoteOutcome::Approved);
    assert_eq!(custodian.reserved_balance(DAVE), 0);
    assert_eq!(custodian.free_balance(DAVE), 100);
    assert_eq!(custodian.free_balance(EVE), 100);
    assert_eq!(
        court.dispute_states(did).unwrap().state,
        DisputeState::DisputeRaisedAndAccepted(vote_id)
    );
}

#[test]
fn escrow_moves_by_exactly_the_locked_amount() {
    let (mut court, mut votes, mut custodian) = setup();
    let before = custodian.reserved_balance(DAVE);
    let did = court
        .register_dispute_type(&mut custodian, DAVE, 120, EVE, signal_path(10, None), None)
        .unwrap();
    assert_eq!(custodian.reserved_balance(DAVE), before + 120);
    let vote_id = court
        .raise_dispute_to_trigger_vote(&mut votes, did, EVE, &electorate(), 0)
        .unwrap();
    votes
        .vote_on_proposal(vote_id, 1, VoterView::InFavor, None, 0)
        .unwrap();
    court
        .poll_dispute_to_execute_outcome(&votes, &mut custodian, did)
        .unwrap();
    assert_eq!(custodian.reserved_balance(DAVE), before);
}

#[test]
fn registration_checks_floor_and_balance() {
    let (mut court, _votes, mut custodian) = setup();
    assert_eq!(
        court.register_dispute_type(&mut custodian, DAVE, 49, EVE, signal_path(10, None), None),
        Err(CourtError::DisputeMustExceedModuleMinimum)
    );
    assert_eq!(
        court.register_dispute_type(&mut custodian, DAVE, 201, EVE, signal_path(10, None), None),
        Err(CourtError::Custodian(CustodianError::InsufficientFreeBalance))
    );
    // failed attempts registered nothing and reserved nothing
    assert_eq!(court.dispute_id_counter, 0);
    assert_eq!(custodian.reserved_balance(DAVE), 0);
    assert_eq!(custodian.free_balance(DAVE), 200);
    // the floor itself is accepted
    assert!(court
        .register_dispute_type(&mut custodian, DAVE, 50, EVE, signal_path(10, None), None)
        .is_ok());
}

#[test]
fn raising_requires_record_authorization_and_state() {
    let (mut court, mut votes, mut custodian) = setup();
    assert_eq!(
        court.raise_dispute_to_trigger_vote(&mut votes, 3, EVE, &electorate(), 0),
        Err(CourtError::CannotRaiseDisputeIfDisputeStateDNE)
    );
    let did = court
        .register_dispute_type(&mut custodian, DAVE, 100, EVE, signal_path(20, None), None)
        .unwrap();
    // only the registered dispute raiser may raise
    assert_eq!(
        court.raise_dispute_to_trigger_vote(&mut votes, did, DAVE, &electorate(), 0),
        Err(CourtError::SignerNotAuthorizedToRaiseThisDispute)
    );
    court
        .raise_dispute_to_trigger_vote(&mut votes, did, EVE, &electorate(), 0)
        .unwrap();
    // no re-raising from the raised state
    assert_eq!(
        court.raise_dispute_to_trigger_vote(&mut votes, did, EVE, &electorate(), 0),
        Err(CourtError::ActiveDisputeCannotBeRaisedFromCurrentState)
    );
}

#[test]
fn polling_requires_record_and_raised_state() {
    let (mut court, mut votes, mut custodian) = setup();
    assert_eq!(
        court.poll_dispute_to_execute_outcome(&votes, &mut custodian, 9),
        Err(CourtError::CannotPollDisputeIfDisputeStateDNE)
    );
    let did = court
        .register_dispute_type(&mut custodian, DAVE, 100, EVE, signal_path(10, None), None)
        .unwrap();
    // not raised yet
    assert_eq!(
        court.poll_dispute_to_execute_outcome(&votes, &mut custodian, did),
        Err(CourtError::ActiveDisputeCannotBePolledFromCurrentState)
    );
    let vote_id = court
        .raise_dispute_to_trigger_vote(&mut votes, did, EVE, &electorate(), 0)
        .unwrap();
    votes
        .vote_on_proposal(vote_id, 1, VoterView::InFavor, None, 0)
        .unwrap();
    court
        .poll_dispute_to_execute_outcome(&votes, &mut custodian, did)
        .unwrap();
    // terminal states cannot be polled again
    assert_eq!(
        court.poll_dispute_to_execute_outcome(&votes, &mut custodian, did),
        Err(CourtError::ActiveDisputeCannotBePolledFromCurrentState)
    );
}

#[test]
fn raising_with_an_inconsistent_snapshot_propagates_the_vote_error() {
    let (mut court, mut votes, mut custodian) = setup();
    let did = court
        .register_dispute_type(&mut custodian, DAVE, 100, EVE, signal_path(20, None), None)
        .unwrap();
    // declared total 31 disagrees with the weights
    let bad = SimpleShareGenesis::new(31, vec![(1, 10), (2, 10), (3, 10)]);
    assert_eq!(
        court.raise_dispute_to_trigger_vote(&mut votes, did, EVE, &bad, 0),
        Err(CourtError::Vote(
            vote_court::vote::VoteError::InvalidVoteGenesisInput
        ))
    );
    // the dispute is still raisable afterwards
    assert_eq!(
        court.dispute_states(did).unwrap().state,
        DisputeState::DisputeNotRaised
    );
    assert!(court
        .raise_dispute_to_trigger_vote(&mut votes, did, EVE, &electorate(), 0)
        .is_ok());
}

#[test]
fn approved_settlement_respects_the_existence_floor() {
    // floor 50: after paying out the full escrow Dave would keep nothing
    let mut court = Court::new(10);
    let mut votes = VoteRegistry::new();
    let mut custodian = Custodian::new(50);
    custodian.deposit(DAVE, 100).unwrap();
    let did = court
        .register_dispute_type(&mut custodian, DAVE, 100, EVE, signal_path(10, None), None)
        .unwrap();
    let vote_id = court
        .raise_dispute_to_trigger_vote(&mut votes, did, EVE, &electorate(), 0)
        .unwrap();
    votes
        .vote_on_proposal(vote_id, 1, VoterView::InFavor, None, 0)
        .unwrap();
    // the whole poll fails and the dispute stays raised and retryable
    assert_eq!(
        court.poll_dispute_to_execute_outcome(&votes, &mut custodian, did),
        Err(CourtError::Custodian(CustodianError::WouldKillAccount))
    );
    assert_eq!(
        court.dispute_states(did).unwrap().state,
        DisputeState::DisputeRaisedAndVoteDispatched(vote_id)
    );
    assert_eq!(custodian.reserved_balance(DAVE), 100);
    // once Dave can stay above the floor, the retry settles
    custodian.deposit(DAVE, 60).unwrap();
    assert_eq!(
        court.poll_dispute_to_execute_outcome(&votes, &mut custodian, did),
        Ok(VoteOutcome::Approved)
    );
    assert_eq!(custodian.free_balance(DAVE), 60);
    assert_eq!(custodian.free_balance(EVE), 100);
}

#[test]
fn proportional_resolution_path_opens_a_resolved_vote() {
    let (mut court, mut votes, mut custodian) = setup();
    let path = VoteMetadata::Percentage(VoteCall {
        org: 1,
        threshold: Threshold::new(Ratio::from_percent(60), None),
        duration: Some(5),
    });
    let did = court
        .register_dispute_type(&mut custodian, DAVE, 100, EVE, path, None)
        .unwrap();
    let vote_id = court
        .raise_dispute_to_trigger_vote(&mut votes, did, EVE, &electorate(), 7)
        .unwrap();
    let s = votes.vote_states(vote_id).unwrap();
    assert_eq!(s.threshold.in_favor, 18);
    assert_eq!(s.opened_at, 7);
    assert_eq!(s.expires_at, Some(12));
    assert_eq!(s.electorate_total, 30);
}

#[test]
fn dispute_record_fields_and_accessors() {
    let d = Dispute::new(
        DAVE,
        100,
        EVE,
        signal_path(10, None),
        DisputeState::DisputeNotRaised,
        Some(99),
    );
    assert_eq!(d.locker(), DAVE);
    assert_eq!(d.locked_funds(), 100);
    assert_eq!(d.dispute_raiser(), EVE);
    assert!(d.can_raise_dispute(EVE));
    assert!(!d.can_raise_dispute(DAVE));
    assert_eq!(d.resolution_metadata().org(), 1);
    let raised = d.set_state(DisputeState::DisputeRaisedAndVoteDispatched(3));
    assert_eq!(raised.state(), DisputeState::DisputeRaisedAndVoteDispatched(3));
    assert_eq!(raised.locked_funds(), 100);
}

#[test]
fn custodian_reserve_release_and_transfer() {
    let mut c = Custodian::new(10);
    c.deposit(1, 100).unwrap();
    c.deposit(2, 40).unwrap();
    assert_eq!(
        c.reserve(1, 101),
        Err(CustodianError::InsufficientFreeBalance)
    );
    c.reserve(1, 60).unwrap();
    assert_eq!((c.free_balance(1), c.reserved_balance(1)), (40, 60));
    // a short release moves only what is reserved and reports the rest
    assert_eq!(c.unreserve(1, 70), 10);
    assert_eq!((c.free_balance(1), c.reserved_balance(1)), (100, 0));
    // keep-alive refuses to cross the existence floor
    assert_eq!(
        c.transfer(1, 2, 95, true),
        Err(CustodianError::WouldKillAccount)
    );
    c.transfer(1, 2, 90, true).unwrap();
    assert_eq!(c.free_balance(1), 10);
    assert_eq!(c.free_balance(2), 130);
    // without keep-alive an account may be drained entirely
    c.transfer(1, 2, 10, false).unwrap();
    assert_eq!(c.free_balance(1), 0);
    assert_eq!(c.total_issuance, 140);
    assert_eq!(
        c.deposit(3, u64::MAX),
        Err(CustodianError::TotalIssuanceOverflow)
    );
}
