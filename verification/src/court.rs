//! The dispute court: escrow-backed disputes whose resolution is delegated
//! to a vote.  A dispute is registered (funds reserved), raised (a vote is
//! dispatched along its resolution path), and polled (the vote's outcome
//! moves the escrowed funds and closes the dispute).

use vstd::prelude::*;
use crate::custodian::{Custodian, CustodianError};
use crate::ratio::Ratio;
use crate::storage::IdMap;
use crate::vote::{
    spec_outcome, threshold_within, SimpleShareGenesis, Threshold, VoteError, VoteOutcome,
};
use crate::vote_registry::{spec_threshold_from_ratio, vote_opened, VoteRegistry};

verus! {

/// Lifecycle of a dispute: strictly forward, with two terminal states.
#[derive(Clone, Copy, Debug, PartialEq, Eq, Structural)]
pub enum DisputeState {
    /// Registered; funds are reserved but no vote exists yet.
    DisputeNotRaised,
    /// A vote was dispatched and decides the dispute.
    DisputeRaisedAndVoteDispatched(u64),
    /// The vote approved: funds moved to the dispute raiser.
    DisputeRaisedAndAccepted(u64),
    /// The vote rejected: funds returned to the locker.
    DisputeRaisedAndRejected(u64),
}

/// The vote a resolution path would open: the electorate's organization
/// reference, a threshold, and an optional vote duration.
#[derive(Clone, Copy, Debug)]
pub struct VoteCall<T> {
    pub org: u64,
    pub threshold: Threshold<T>,
    pub duration: Option<u64>,
}

/// A resolution path carries either an absolute-weight threshold or a
/// proportional one.
#[derive(Clone, Copy, Debug)]
pub enum VoteMetadata {
    Signal(VoteCall<u64>),
    Percentage(VoteCall<Ratio>),
}

impl VoteMetadata {
    /// The organization whose membership resolves the dispute.
    pub open spec fn spec_org(self) -> u64 {
        match self {
            VoteMetadata::Signal(v) => v.org,
            VoteMetadata::Percentage(v) => v.org,
        }
    }

    /// The duration of the vote this path opens.
    pub open spec fn spec_duration(self) -> Option<u64> {
        match self {
            VoteMetadata::Signal(v) => v.duration,
            VoteMetadata::Percentage(v) => v.duration,
        }
    }

    /// A proportional threshold's ratios are within the whole.
    pub open spec fn ratios_wf(self) -> bool {
        match self {
            VoteMetadata::Signal(_) => true,
            VoteMetadata::Percentage(v) => v.threshold.in_favor.wf() && (v.threshold.against
                matches Some(t) ==> t.wf()),
        }
    }

    /// The absolute threshold this path resolves to over a given electorate
    /// total.
    pub open spec fn spec_resolved_threshold(self, total: u64) -> Threshold<u64> {
        match self {
            VoteMetadata::Signal(v) => v.threshold,
            VoteMetadata::Percentage(v) => spec_threshold_from_ratio(v.threshold, total),
        }
    }

    /// The first reason opening this path's vote over a snapshot would be
    /// refused, if any.
    pub open spec fn spec_open_err(self, src: SimpleShareGenesis) -> Option<VoteError> {
        if !src.spec_valid() {
            Some(VoteError::InvalidVoteGenesisInput)
        } else if !threshold_within(self.spec_resolved_threshold(src.total), src.total) {
            Some(VoteError::InputThresholdExceedsBounds)
        } else {
            None
        }
    }

    /// Getter for the organization reference.
    pub fn org(&self) -> (r: u64)
        ensures
            r == self.spec_org(),
    {
        match self {
            VoteMetadata::Signal(v) => v.org,
            VoteMetadata::Percentage(v) => v.org,
        }
    }

    /// Getter for the vote duration.
    pub fn duration(&self) -> (r: Option<u64>)
        ensures
            r == self.spec_duration(),
    {
        match self {
            VoteMetadata::Signal(v) => v.duration,
            VoteMetadata::Percentage(v) => v.duration,
        }
    }
}

/// An escrow-backed dispute and its resolution path.
#[derive(Clone, Copy, Debug)]
pub struct Dispute {
    pub locker: u64,
    pub locked_funds: u64,
    pub dispute_raiser: u64,
    pub resolution_metadata: VoteMetadata,
    pub state: DisputeState,
    pub expiry: Option<u64>,
}

impl Dispute {
    pub fn new(
        locker: u64,
        locked_funds: u64,
        dispute_raiser: u64,
        resolution_metadata: VoteMetadata,
        state: DisputeState,
        expiry: Option<u64>,
    ) -> (r: Dispute)
        ensures
            r == (Dispute {
                locker,
                locked_funds,
                dispute_raiser,
                resolution_metadata,
                state,
                expiry,
            }),
    {
        Dispute { locker, locked_funds, dispute_raiser, resolution_metadata, state, expiry }
    }

    /// Only the registered dispute raiser may raise the dispute.
    pub open spec fn spec_can_raise(self, who: u64) -> bool {
        who == self.dispute_raiser
    }

    /// Whether a signer is authorized to raise this dispute.
    pub fn can_raise_dispute(&self, who: u64) -> (b: bool)
        ensures
            b == self.spec_can_raise(who),
    {
        who == self.dispute_raiser
    }

    /// Getter for the lifecycle state.
    pub fn state(&self) -> (r: DisputeState)
        ensures
            r == self.state,
    {
        self.state
    }

    /// Getter for the account whose funds are escrowed.
    pub fn locker(&self) -> (r: u64)
        ensures
            r == self.locker,
    {
        self.locker
    }

    /// Getter for the escrowed amount.
    pub fn locked_funds(&self) -> (r: u64)
        ensures
            r == self.locked_funds,
    {
        self.locked_funds
    }

    /// Getter for the account allowed to raise the dispute.
    pub fn dispute_raiser(&self) -> (r: u64)
        ensures
            r == self.dispute_raiser,
    {
        self.dispute_raiser
    }

    /// Getter for the resolution path.
    pub fn resolution_metadata(&self) -> (r: VoteMetadata)
        ensures
            r == self.resolution_metadata,
    {
        self.resolution_metadata
    }

    /// The same dispute in a new lifecycle state.
    pub fn set_state(&self, state: DisputeState) -> (r: Dispute)
        ensures
            r == (Dispute { state, ..*self }),
    {
        Dispute { state, ..*self }
    }
}

/// Failures of court operations; vote and custodian failures are carried
/// through unchanged.
#[derive(Clone, Copy, Debug, PartialEq, Eq, Structural)]
pub enum CourtError {
    CannotRaiseDisputeIfDisputeStateDNE,
    DisputeMustExceedModuleMinimum,
    CannotPollDisputeIfDisputeStateDNE,
    SignerNotAuthorizedToRaiseThisDispute,
    ActiveDisputeCannotBeRaisedFromCurrentState,
    ActiveDisputeCannotBePolledFromCurrentState,
    VoteOutcomeInconclusiveSoPollCannotExecuteOutcome,
    Vote(VoteError),
    Custodian(CustodianError),
}

/// What a release of escrowed funds can actually move: the locked amount,
/// capped by what is still reserved.
pub open spec fn spec_released(c: Custodian, locker: u64, locked: u64) -> int {
    if locked <= c.spec_reserved(locker) {
        locked as int
    } else {
        c.spec_reserved(locker) as int
    }
}

/// Whether settling an approved dispute can go through: after the release,
/// the locker can cover the transfer and still stays at or above the
/// existence floor.
pub open spec fn spec_approved_settle_ok(c: Custodian, locker: u64, locked: u64) -> bool {
    let f2 = c.spec_free(locker) + spec_released(c, locker, locked);
    &&& locked <= f2
    &&& f2 - locked >= c.minimum_balance
}

/// The dispute registry and state machine: an identifier nonce, the floor
/// on escrowed amounts, and the dispute records.
pub struct Court {
    pub dispute_id_counter: u64,
    pub minimum_dispute_amount: u64,
    pub disputes: IdMap<Dispute>,
}

impl Court {
    /// The court invariant: the store is well formed, live identifiers
    /// never exceed the nonce, and stored proportional thresholds are
    /// within the whole.
    pub open spec fn wf(self) -> bool {
        &&& self.disputes.wf()
        &&& forall|did: u64|
            #![trigger self.disputes.spec_get(did)]
            self.disputes.spec_get(did) is Some ==> did <= self.dispute_id_counter
        &&& forall|did: u64|
            #![trigger self.disputes.spec_get(did)]
            self.disputes.spec_get(did) matches Some(d) ==> d.resolution_metadata.ratios_wf()
    }

    /// An empty court with the given dispute floor.
    pub fn new(minimum_dispute_amount: u64) -> (r: Court)
        ensures
            r.wf(),
            r.dispute_id_counter == 0,
            r.minimum_dispute_amount == minimum_dispute_amount,
            forall|did: u64| r.disputes.spec_get(did) is None,
    {
        Court { dispute_id_counter: 0, minimum_dispute_amount, disputes: IdMap::new() }
    }

    /// An identifier is available when no live dispute uses it.
    pub fn id_is_available(&self, id: u64) -> (b: bool)
        requires
            self.wf(),
        ensures
            b == (self.disputes.spec_get(id) is None),
    {
        !self.disputes.contains_key(id)
    }

    /// Advance the nonce past any occupied identifier and hand out a fresh
    /// one.  Under the court invariant every live identifier is at most the
    /// nonce, so the probe never has to skip.
    pub fn generate_unique_id(&mut self) -> (r: u64)
        requires
            old(self).wf(),
            old(self).dispute_id_counter < u64::MAX,
        ensures
            final(self).wf(),
            r == old(self).dispute_id_counter + 1,
            final(self).dispute_id_counter == r,
            final(self).disputes.spec_get(r) is None,
            final(self).disputes == old(self).disputes,
            final(self).minimum_dispute_amount == old(self).minimum_dispute_amount,
    {
        let mut id_counter: u64 = self.dispute_id_counter + 1;
        loop
            invariant
                self == old(self),
                self.wf(),
                id_counter == old(self).dispute_id_counter + 1,
            ensures
                self == old(self),
                id_counter == old(self).dispute_id_counter + 1,
                self.disputes.spec_get(id_counter) is None,
            decreases u64::MAX - id_counter,
        {
            if !self.disputes.contains_key(id_counter) {
                break;
            }
            // unreachable: a live identifier never exceeds the nonce
            proof {
                assert(false);
            }
            id_counter = id_counter + 1;
        }
        self.dispute_id_counter = id_counter;
        id_counter
    }

    /// Copy of one dispute record, if it is live.
    pub fn dispute_states(&self, dispute_id: u64) -> (r: Option<Dispute>)
        requires
            self.wf(),
        ensures
            r == self.disputes.spec_get(dispute_id),
    {
        match self.disputes.get(dispute_id) {
            Some(d) => Some(*d),
            None => None,
        }
    }

    /// Register a dispute: check the amount against the module floor,
    /// reserve it from the locker, and persist the record as not raised.
    /// A failing reservation creates no record.
    pub fn register_dispute_type(
        &mut self,
        custodian: &mut Custodian,
        locker: u64,
        amount_to_lock: u64,
        dispute_raiser: u64,
        resolution_path: VoteMetadata,
        expiry: Option<u64>,
    ) -> (r: Result<u64, CourtError>)
        requires
            old(self).wf(),
            old(custodian).wf(),
            old(self).dispute_id_counter < u64::MAX,
            resolution_path.ratios_wf(),
        ensures
            final(self).wf(),
            final(custodian).wf(),
            r is Ok <==> (amount_to_lock >= old(self).minimum_dispute_amount && amount_to_lock
                <= old(custodian).spec_free(locker)),
            amount_to_lock < old(self).minimum_dispute_amount ==> r == Err::<u64, CourtError>(
                CourtError::DisputeMustExceedModuleMinimum,
            ),
            amount_to_lock >= old(self).minimum_dispute_amount && amount_to_lock > old(
                custodian,
            ).spec_free(locker) ==> r == Err::<u64, CourtError>(
                CourtError::Custodian(CustodianError::InsufficientFreeBalance),
            ),
            r is Err ==> *final(self) == *old(self) && *final(custodian) == *old(custodian),
            final(self).minimum_dispute_amount == old(self).minimum_dispute_amount,
            final(custodian).minimum_balance == old(custodian).minimum_balance,
            final(custodian).total_issuance == old(custodian).total_issuance,
            r matches Ok(did) ==> ({
                &&& did == old(self).dispute_id_counter + 1
                &&& final(self).dispute_id_counter == did
                &&& old(self).disputes.spec_get(did) is None
                &&& final(self).disputes.spec_get(did) == Some(
                    (Dispute {
                        locker,
                        locked_funds: amount_to_lock,
                        dispute_raiser,
                        resolution_metadata: resolution_path,
                        state: DisputeState::DisputeNotRaised,
                        expiry,
                    }),
                )
                &&& forall|did2: u64|
                    did2 != did ==> final(self).disputes.spec_get(did2) == old(
                        self,
                    ).disputes.spec_get(did2)
                &&& final(custodian).spec_free(locker) == old(custodian).spec_free(locker)
                    - amount_to_lock
                &&& final(custodian).spec_reserved(locker) == old(custodian).spec_reserved(locker)
                    + amount_to_lock
                &&& forall|a: u64|
                    a != locker ==> final(custodian).spec_balance(a) == old(
                        custodian,
                    ).spec_balance(a)
            }),
    {
        if amount_to_lock < self.minimum_dispute_amount {
            return Err(CourtError::DisputeMustExceedModuleMinimum);
        }
        // lock the amount in question
        match custodian.reserve(locker, amount_to_lock) {
            Ok(()) => {},
            Err(e) => {
                return Err(CourtError::Custodian(e));
            },
        }
        // form the dispute state
        let new_dispute_state = Dispute::new(
            locker,
            amount_to_lock,
            dispute_raiser,
            resolution_path,
            DisputeState::DisputeNotRaised,
            expiry,
        );
        // generate unique dispute identifier, insert the dispute state
        let new_dispute_id = self.generate_unique_id();
        self.disputes.insert_new(new_dispute_id, new_dispute_state);
        Ok(new_dispute_id)
    }

    /// Raise a registered dispute: the authorized raiser dispatches the
    /// resolution path's vote over the supplied electorate snapshot, and
    /// the dispute moves from not-raised to raised.  Any refusal — wrong
    /// signer, wrong state, or a rejected vote opening — changes nothing.
    pub fn raise_dispute_to_trigger_vote(
        &mut self,
        votes: &mut VoteRegistry,
        dispute_id: u64,
        trigger: u64,
        electorate: &SimpleShareGenesis,
        now: u64,
    ) -> (r: Result<u64, CourtError>)
        requires
            old(self).wf(),
            old(votes).wf(),
            old(votes).vote_id_counter < u64::MAX,
            old(self).disputes.spec_get(dispute_id) matches Some(d) ==> (
            d.resolution_metadata.spec_duration() matches Some(dur) ==> now + dur <= u64::MAX),
        ensures
            final(self).wf(),
            final(votes).wf(),
            final(self).dispute_id_counter == old(self).dispute_id_counter,
            final(self).minimum_dispute_amount == old(self).minimum_dispute_amount,
            r is Err ==> *final(self) == *old(self) && *final(votes) == *old(votes),
            old(self).disputes.spec_get(dispute_id) is None ==> r == Err::<u64, CourtError>(
                CourtError::CannotRaiseDisputeIfDisputeStateDNE,
            ),
            old(self).disputes.spec_get(dispute_id) matches Some(d) ==> ({
                if !d.spec_can_raise(trigger) {
                    r == Err::<u64, CourtError>(CourtError::SignerNotAuthorizedToRaiseThisDispute)
                } else if !(d.state is DisputeNotRaised) {
                    r == Err::<u64, CourtError>(
                        CourtError::ActiveDisputeCannotBeRaisedFromCurrentState,
                    )
                } else {
                    match d.resolution_metadata.spec_open_err(*electorate) {
                        Some(e) => r == Err::<u64, CourtError>(CourtError::Vote(e)),
                        None => r == Ok::<u64, CourtError>(
                            (old(votes).vote_id_counter + 1) as u64,
                        ),
                    }
                }
            }),
            r matches Ok(new_vote_id) ==> ({
                let d = old(self).disputes.spec_get(dispute_id).unwrap();
                &&& vote_opened(
                    *old(votes),
                    *final(votes),
                    new_vote_id,
                    None,
                    *electorate,
                    d.resolution_metadata.spec_resolved_threshold(electorate.total),
                    d.resolution_metadata.spec_duration(),
                    now,
                )
                &&& final(self).disputes.spec_get(dispute_id) == Some(
                    (Dispute { state: DisputeState::DisputeRaisedAndVoteDispatched(new_vote_id), ..d }),
                )
                &&& forall|did2: u64|
                    did2 != dispute_id ==> final(self).disputes.spec_get(did2) == old(
                        self,
                    ).disputes.spec_get(did2)
            }),
    {
        let dispute = match self.dispute_states(dispute_id) {
            Some(d) => d,
            None => {
                return Err(CourtError::CannotRaiseDisputeIfDisputeStateDNE);
            },
        };
        // ensure that the signer can trigger this dispute
        if !dispute.can_raise_dispute(trigger) {
            return Err(CourtError::SignerNotAuthorizedToRaiseThisDispute);
        }
        // check that it is in a valid state to trigger the dispute
        match dispute.state() {
            DisputeState::DisputeNotRaised => {},
            _ => {
                return Err(CourtError::ActiveDisputeCannotBeRaisedFromCurrentState);
            },
        }
        // use vote metadata to dispatch the vote
        let vote_result = match dispute.resolution_metadata() {
            VoteMetadata::Signal(v) => votes.open_vote(None, electorate, v.threshold, v.duration, now),
            VoteMetadata::Percentage(v) => votes.open_percent_vote(
                None,
                electorate,
                v.threshold,
                v.duration,
                now,
            ),
        };
        let new_vote_id = match vote_result {
            Ok(id) => id,
            Err(e) => {
                return Err(CourtError::Vote(e));
            },
        };
        // update the state of the dispute with the new vote identifier
        let updated_dispute = dispute.set_state(
            DisputeState::DisputeRaisedAndVoteDispatched(new_vote_id),
        );
        self.disputes.set(dispute_id, updated_dispute);
        Ok(new_vote_id)
    }

    /// Poll a raised dispute.  A pending vote refuses and leaves the
    /// dispute pollable again.  Approval releases the reservation and moves
    /// the locked funds to the dispute raiser, but only if the locker stays
    /// at or above the existence floor — otherwise the poll fails whole and
    /// nothing moves.  Rejection releases the reservation back to the
    /// locker.  Either settled outcome is terminal.
    pub fn poll_dispute_to_execute_outcome(
        &mut self,
        votes: &VoteRegistry,
        custodian: &mut Custodian,
        dispute_id: u64,
    ) -> (r: Result<VoteOutcome, CourtError>)
        requires
            old(self).wf(),
            votes.wf(),
            old(custodian).wf(),
        ensures
            final(self).wf(),
            final(custodian).wf(),
            final(self).dispute_id_counter == old(self).dispute_id_counter,
            final(self).minimum_dispute_amount == old(self).minimum_dispute_amount,
            final(custodian).minimum_balance == old(custodian).minimum_balance,
            final(custodian).total_issuance == old(custodian).total_issuance,
            r is Err ==> *final(self) == *old(self) && *final(custodian) == *old(custodian),
            old(self).disputes.spec_get(dispute_id) is None ==> r == Err::<VoteOutcome, CourtError>(
                CourtError::CannotPollDisputeIfDisputeStateDNE,
            ),
            old(self).disputes.spec_get(dispute_id) matches Some(d) ==> match d.state {
                DisputeState::DisputeRaisedAndVoteDispatched(v) => match votes.states.spec_get(v) {
                    None => r == Err::<VoteOutcome, CourtError>(
                        CourtError::Vote(VoteError::NoVoteStateForOutcomeQuery),
                    ),
                    Some(s) => match spec_outcome(s) {
                        VoteOutcome::Pending => r == Err::<VoteOutcome, CourtError>(
                            CourtError::VoteOutcomeInconclusiveSoPollCannotExecuteOutcome,
                        ),
                        VoteOutcome::Approved => ({
                            let moved = spec_released(*old(custodian), d.locker, d.locked_funds);
                            let f2 = old(custodian).spec_free(d.locker) + moved;
                            if d.locked_funds > f2 {
                                r == Err::<VoteOutcome, CourtError>(
                                    CourtError::Custodian(CustodianError::InsufficientFreeBalance),
                                )
                            } else if f2 - d.locked_funds < old(custodian).minimum_balance {
                                r == Err::<VoteOutcome, CourtError>(
                                    CourtError::Custodian(CustodianError::WouldKillAccount),
                                )
                            } else {
                                &&& r == Ok::<VoteOutcome, CourtError>(VoteOutcome::Approved)
                                &&& final(self).disputes.spec_get(dispute_id) == Some(
                                    (Dispute {
                                        state: DisputeState::DisputeRaisedAndAccepted(v),
                                        ..d
                                    }),
                                )
                                &&& final(custodian).spec_reserved(d.locker) == old(
                                    custodian,
                                ).spec_reserved(d.locker) - moved
                                &&& d.locker == d.dispute_raiser ==> final(custodian).spec_free(
                                    d.locker,
                                ) == f2
                                &&& d.locker != d.dispute_raiser ==> ({
                                    &&& final(custodian).spec_free(d.locker) == f2
                                        - d.locked_funds
                                    &&& final(custodian).spec_free(d.dispute_raiser) == old(
                                        custodian,
                                    ).spec_free(d.dispute_raiser) + d.locked_funds
                                    &&& final(custodian).spec_reserved(d.dispute_raiser) == old(
                                        custodian,
                                    ).spec_reserved(d.dispute_raiser)
                                })
                                &&& forall|a: u64|
                                    a != d.locker && a != d.dispute_raiser ==> final(custodian).spec_balance(a) == old(custodian).spec_balance(a)
                            }
                        }),
                        VoteOutcome::Rejected => ({
                            let moved = spec_released(*old(custodian), d.locker, d.locked_funds);
                            &&& r == Ok::<VoteOutcome, CourtError>(VoteOutcome::Rejected)
                            &&& final(self).disputes.spec_get(dispute_id) == Some(
                                (Dispute { state: DisputeState::DisputeRaisedAndRejected(v), ..d }),
                            )
                            &&& final(custodian).spec_reserved(d.locker) == old(
                                custodian,
                            ).spec_reserved(d.locker) - moved
                            &&& final(custodian).spec_free(d.locker) == old(custodian).spec_free(
                                d.locker,
                            ) + moved
                            &&& forall|a: u64|
                                a != d.locker ==> final(custodian).spec_balance(a) == old(
                                    custodian,
                                ).spec_balance(a)
                        }),
                    },
                },
                _ => r == Err::<VoteOutcome, CourtError>(
                    CourtError::ActiveDisputeCannotBePolledFromCurrentState,
                ),
            },
            r is Ok ==> (forall|did2: u64|
                did2 != dispute_id ==> final(self).disputes.spec_get(did2) == old(
                    self,
                ).disputes.spec_get(did2)),
    {
        let dispute = match self.dispute_states(dispute_id) {
            Some(d) => d,
            None => {
                return Err(CourtError::CannotPollDisputeIfDisputeStateDNE);
            },
        };
        let live_vote_id = match dispute.state() {
            DisputeState::DisputeRaisedAndVoteDispatched(v) => v,
            _ => {
                return Err(CourtError::ActiveDisputeCannotBePolledFromCurrentState);
            },
        };
        // check the vote outcome
        let outcome = match votes.get_vote_outcome(live_vote_id) {
            Ok(o) => o,
            Err(e) => {
                return Err(CourtError::Vote(e));
            },
        };
        match outcome {
            VoteOutcome::Approved => {
                // settle first on paper: if the transfer after the release
                // would fail, refuse before anything moves
                proof {
                    custodian.lemma_account_bound(dispute.locker);
                }
                let reserved = custodian.reserved_balance(dispute.locker());
                let free = custodian.free_balance(dispute.locker());
                let moved = if dispute.locked_funds() <= reserved {
                    dispute.locked_funds()
                } else {
                    reserved
                };
                let after_release = free + moved;
                if dispute.locked_funds() > after_release {
                    return Err(CourtError::Custodian(CustodianError::InsufficientFreeBalance));
                }
                if after_release - dispute.locked_funds() < custodian.minimum_balance {
                    return Err(CourtError::Custodian(CustodianError::WouldKillAccount));
                }
                // unreserve capital from locker, then transfer it to the
                // dispute raiser, keeping the locker alive
                let _ = custodian.unreserve(dispute.locker(), dispute.locked_funds());
                match custodian.transfer(
                    dispute.locker(),
                    dispute.dispute_raiser(),
                    dispute.locked_funds(),
                    true,
                ) {
                    Ok(()) => {},
                    Err(_) => {
                        // unreachable: the settlement check above is the
                        // transfer's own success condition
                        proof {
                            assert(false);
                        }
                        return Err(CourtError::Custodian(CustodianError::InsufficientFreeBalance));
                    },
                }
                let updated = dispute.set_state(
                    DisputeState::DisputeRaisedAndAccepted(live_vote_id),
                );
                self.disputes.set(dispute_id, updated);
                Ok(VoteOutcome::Approved)
            },
            VoteOutcome::Rejected => {
                // unreserve capital from locker
                let _ = custodian.unreserve(dispute.locker(), dispute.locked_funds());
                let updated = dispute.set_state(
                    DisputeState::DisputeRaisedAndRejected(live_vote_id),
                );
                self.disputes.set(dispute_id, updated);
                Ok(VoteOutcome::Rejected)
            },
            VoteOutcome::Pending => Err(
                CourtError::VoteOutcomeInconclusiveSoPollCannotExecuteOutcome,
            ),
        }
    }
}

} // verus!
