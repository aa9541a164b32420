//! The ballot ledger: a double-keyed store from `(vote, voter)` to ballots,
//! together with the per-vote weight sums that the registry's conservation
//! invariant is stated over.

use vstd::prelude::*;
use crate::vote::{against_weight, in_favor_weight, Vote, VoterView};

verus! {

/// One ledger entry: the `(vote identifier, voter account)` key and the
/// voter's ballot.
pub type BallotEntry = ((u64, u64), Vote);

/// First ballot stored under a key, searching from the front.
pub open spec fn bfind(s: Seq<BallotEntry>, vote_id: u64, account: u64) -> Option<Vote>
    decreases s.len(),
{
    if s.len() == 0 {
        None
    } else if s[0].0.0 == vote_id && s[0].0.1 == account {
        Some(s[0].1)
    } else {
        bfind(s.drop_first(), vote_id, account)
    }
}

/// No `(vote, voter)` key occurs twice.
pub open spec fn ballot_keys_unique(s: Seq<BallotEntry>) -> bool {
    forall|i: int, j: int| 0 <= i < j < s.len() ==> s[i].0 != s[j].0
}

/// Total weight currently in favor within one vote.
pub open spec fn in_favor_sum(s: Seq<BallotEntry>, vote_id: u64) -> int
    decreases s.len(),
{
    if s.len() == 0 {
        0
    } else {
        (if s[0].0.0 == vote_id {
            in_favor_weight(s[0].1.direction, s[0].1.magnitude)
        } else {
            0
        }) + in_favor_sum(s.drop_first(), vote_id)
    }
}

/// Total weight currently against within one vote.
pub open spec fn against_sum(s: Seq<BallotEntry>, vote_id: u64) -> int
    decreases s.len(),
{
    if s.len() == 0 {
        0
    } else {
        (if s[0].0.0 == vote_id {
            against_weight(s[0].1.direction, s[0].1.magnitude)
        } else {
            0
        }) + against_sum(s.drop_first(), vote_id)
    }
}

/// Total weight currently abstaining within one vote.
pub open spec fn abstain_sum(s: Seq<BallotEntry>, vote_id: u64) -> int
    decreases s.len(),
{
    if s.len() == 0 {
        0
    } else {
        (if s[0].0.0 == vote_id && s[0].1.direction is Abstain {
            s[0].1.magnitude as int
        } else {
            0
        }) + abstain_sum(s.drop_first(), vote_id)
    }
}

/// Total weight of ballots that have left `NoVote` within one vote.
pub open spec fn cast_sum(s: Seq<BallotEntry>, vote_id: u64) -> int
    decreases s.len(),
{
    if s.len() == 0 {
        0
    } else {
        (if s[0].0.0 == vote_id && !(s[0].1.direction is NoVote) {
            s[0].1.magnitude as int
        } else {
            0
        }) + cast_sum(s.drop_first(), vote_id)
    }
}

/// Total minted weight within one vote.
pub open spec fn mag_sum(s: Seq<BallotEntry>, vote_id: u64) -> int
    decreases s.len(),
{
    if s.len() == 0 {
        0
    } else {
        (if s[0].0.0 == vote_id {
            s[0].1.magnitude as int
        } else {
            0
        }) + mag_sum(s.drop_first(), vote_id)
    }
}

/// The sums are non-negative, the direction sums partition the cast weight,
/// and the cast weight stays within the minted weight.
pub proof fn lemma_sums_bounds(s: Seq<BallotEntry>, vote_id: u64)
    ensures
        0 <= in_favor_sum(s, vote_id),
        0 <= against_sum(s, vote_id),
        0 <= abstain_sum(s, vote_id),
        in_favor_sum(s, vote_id) + against_sum(s, vote_id) + abstain_sum(s, vote_id) == cast_sum(
            s,
            vote_id,
        ),
        0 <= cast_sum(s, vote_id) <= mag_sum(s, vote_id),
    decreases s.len(),
{
    if s.len() > 0 {
        lemma_sums_bounds(s.drop_first(), vote_id);
    }
}

/// Appending an entry adds exactly its own contribution to each sum.
pub proof fn lemma_sums_push(s: Seq<BallotEntry>, e: BallotEntry, vote_id: u64)
    ensures
        in_favor_sum(s.push(e), vote_id) == in_favor_sum(s, vote_id) + (if e.0.0 == vote_id {
            in_favor_weight(e.1.direction, e.1.magnitude)
        } else {
            0
        }),
        against_sum(s.push(e), vote_id) == against_sum(s, vote_id) + (if e.0.0 == vote_id {
            against_weight(e.1.direction, e.1.magnitude)
        } else {
            0
        }),
        mag_sum(s.push(e), vote_id) == mag_sum(s, vote_id) + (if e.0.0 == vote_id {
            e.1.magnitude as int
        } else {
            0
        }),
    decreases s.len(),
{
    if s.len() == 0 {
        assert(s.push(e)[0] == e);
        assert(s.push(e).drop_first() =~= Seq::<BallotEntry>::empty());
        assert(in_favor_sum(Seq::<BallotEntry>::empty(), vote_id) == 0);
        assert(against_sum(Seq::<BallotEntry>::empty(), vote_id) == 0);
        assert(mag_sum(Seq::<BallotEntry>::empty(), vote_id) == 0);
    } else {
        assert(s.push(e)[0] == s[0]);
        assert(s.push(e).drop_first() =~= s.drop_first().push(e));
        lemma_sums_push(s.drop_first(), e, vote_id);
    }
}

/// Replacing the entry at an index swaps its old contribution for the new
/// entry's in each sum.
pub proof fn lemma_sums_update(s: Seq<BallotEntry>, i: int, e: BallotEntry, vote_id: u64)
    requires
        0 <= i < s.len(),
    ensures
        in_favor_sum(s.update(i, e), vote_id) == in_favor_sum(s, vote_id) - (if s[i].0.0 == vote_id {
            in_favor_weight(s[i].1.direction, s[i].1.magnitude)
        } else {
            0
        }) + (if e.0.0 == vote_id {
            in_favor_weight(e.1.direction, e.1.magnitude)
        } else {
            0
        }),
        against_sum(s.update(i, e), vote_id) == against_sum(s, vote_id) - (if s[i].0.0 == vote_id {
            against_weight(s[i].1.direction, s[i].1.magnitude)
        } else {
            0
        }) + (if e.0.0 == vote_id {
            against_weight(e.1.direction, e.1.magnitude)
        } else {
            0
        }),
        mag_sum(s.update(i, e), vote_id) == mag_sum(s, vote_id) - (if s[i].0.0 == vote_id {
            s[i].1.magnitude as int
        } else {
            0
        }) + (if e.0.0 == vote_id {
            e.1.magnitude as int
        } else {
            0
        }),
    decreases s.len(),
{
    let t = s.update(i, e);
    if i == 0 {
        assert(t[0] == e);
        assert(t.drop_first() =~= s.drop_first());
    } else {
        assert(t[0] == s[0]);
        assert(t.drop_first() =~= s.drop_first().update(i - 1, e));
        lemma_sums_update(s.drop_first(), i - 1, e, vote_id);
        assert(s.drop_first()[i - 1] == s[i]);
    }
}

/// One entry's contribution never exceeds the sums of its own vote.
pub proof fn lemma_sum_elem(s: Seq<BallotEntry>, i: int)
    requires
        0 <= i < s.len(),
    ensures
        in_favor_weight(s[i].1.direction, s[i].1.magnitude) <= in_favor_sum(s, s[i].0.0),
        against_weight(s[i].1.direction, s[i].1.magnitude) <= against_sum(s, s[i].0.0),
        s[i].1.magnitude as int <= mag_sum(s, s[i].0.0),
    decreases s.len(),
{
    if i == 0 {
        lemma_sums_bounds(s.drop_first(), s[0].0.0);
        assert(in_favor_sum(s.drop_first(), s[0].0.0) + against_sum(s.drop_first(), s[0].0.0)
            + abstain_sum(s.drop_first(), s[0].0.0) == cast_sum(s.drop_first(), s[0].0.0));
    } else {
        lemma_sums_bounds(s, s[i].0.0);
        lemma_sum_elem(s.drop_first(), i - 1);
        assert(s.drop_first()[i - 1] == s[i]);
        lemma_sums_bounds(s.drop_first(), s[i].0.0);
    }
}

/// When every ballot of a vote stands at `NoVote`, its direction sums are
/// all zero.
pub proof fn lemma_all_novote_zero(s: Seq<BallotEntry>, vote_id: u64)
    requires
        forall|i: int| 0 <= i < s.len() && s[i].0.0 == vote_id ==> s[i].1.direction is NoVote,
    ensures
        in_favor_sum(s, vote_id) == 0,
        against_sum(s, vote_id) == 0,
        cast_sum(s, vote_id) == 0,
    decreases s.len(),
{
    if s.len() > 0 {
        assert forall|i: int|
            0 <= i < s.drop_first().len() && s.drop_first()[i].0.0 == vote_id implies s.drop_first()[i].1.direction is NoVote by {
            assert(s.drop_first()[i] == s[i + 1]);
        }
        lemma_all_novote_zero(s.drop_first(), vote_id);
    }
}

/// A vote without any ballots has all sums at zero.
pub proof fn lemma_no_entries_zero(s: Seq<BallotEntry>, vote_id: u64)
    requires
        forall|i: int| 0 <= i < s.len() ==> s[i].0.0 != vote_id,
    ensures
        in_favor_sum(s, vote_id) == 0,
        against_sum(s, vote_id) == 0,
        cast_sum(s, vote_id) == 0,
        mag_sum(s, vote_id) == 0,
    decreases s.len(),
{
    if s.len() > 0 {
        assert forall|i: int| 0 <= i < s.drop_first().len() implies s.drop_first()[i].0.0
            != vote_id by {
            assert(s.drop_first()[i] == s[i + 1]);
        }
        lemma_no_entries_zero(s.drop_first(), vote_id);
    }
}

/// When no ballot of a vote abstains, the abstaining weight is zero.
pub proof fn lemma_no_abstain_zero(s: Seq<BallotEntry>, vote_id: u64)
    requires
        forall|i: int| 0 <= i < s.len() && s[i].0.0 == vote_id ==> !(s[i].1.direction is Abstain),
    ensures
        abstain_sum(s, vote_id) == 0,
    decreases s.len(),
{
    if s.len() > 0 {
        assert forall|i: int|
            0 <= i < s.drop_first().len() && s.drop_first()[i].0.0 == vote_id implies !(
        s.drop_first()[i].1.direction is Abstain) by {
            assert(s.drop_first()[i] == s[i + 1]);
        }
        lemma_no_abstain_zero(s.drop_first(), vote_id);
    }
}

/// A transformation that keeps every key and magnitude, and touches only
/// one vote's ballots, keeps the minted weight of every vote and all sums
/// of every other vote.
pub proof fn lemma_sums_pointwise(
    s1: Seq<BallotEntry>,
    s2: Seq<BallotEntry>,
    vote_id: u64,
    other: u64,
)
    requires
        s1.len() == s2.len(),
        forall|i: int| 0 <= i < s1.len() ==> s2[i].0 == s1[i].0,
        forall|i: int| 0 <= i < s1.len() ==> s2[i].1.magnitude == s1[i].1.magnitude,
        forall|i: int| 0 <= i < s1.len() && s1[i].0.0 != vote_id ==> s2[i].1 == s1[i].1,
    ensures
        mag_sum(s2, other) == mag_sum(s1, other),
        other != vote_id ==> in_favor_sum(s2, other) == in_favor_sum(s1, other),
        other != vote_id ==> against_sum(s2, other) == against_sum(s1, other),
    decreases s1.len(),
{
    if s1.len() > 0 {
        assert(s2[0].0 == s1[0].0 && s2[0].1.magnitude == s1[0].1.magnitude);
        assert forall|i: int| 0 <= i < s1.drop_first().len() implies s2.drop_first()[i].0
            == s1.drop_first()[i].0 && s2.drop_first()[i].1.magnitude
            == s1.drop_first()[i].1.magnitude && (s1.drop_first()[i].0.0 != vote_id
            ==> s2.drop_first()[i].1 == s1.drop_first()[i].1) by {
            assert(s1.drop_first()[i] == s1[i + 1]);
            assert(s2.drop_first()[i] == s2[i + 1]);
        }
        lemma_sums_pointwise(s1.drop_first(), s2.drop_first(), vote_id, other);
    }
}

/// A found key occurs at some index, and a missing key at none.
pub proof fn lemma_bfind_index(s: Seq<BallotEntry>, vote_id: u64, account: u64)
    ensures
        bfind(s, vote_id, account) is Some <==> exists|i: int|
            0 <= i < s.len() && s[i].0 == (vote_id, account),
    decreases s.len(),
{
    if s.len() > 0 && s[0].0 != (vote_id, account) {
        lemma_bfind_index(s.drop_first(), vote_id, account);
        if bfind(s, vote_id, account) is Some {
            let i = choose|i: int|
                0 <= i < s.drop_first().len() && s.drop_first()[i].0 == (vote_id, account);
            assert(s[i + 1].0 == (vote_id, account));
        }
        if exists|i: int| 0 <= i < s.len() && s[i].0 == (vote_id, account) {
            let i = choose|i: int| 0 <= i < s.len() && s[i].0 == (vote_id, account);
            assert(s.drop_first()[i - 1].0 == (vote_id, account));
        }
    }
}

/// With unique keys, the entry at any index is the one `bfind` returns.
pub proof fn lemma_bfind_at_index(s: Seq<BallotEntry>, i: int)
    requires
        ballot_keys_unique(s),
        0 <= i < s.len(),
    ensures
        bfind(s, s[i].0.0, s[i].0.1) == Some(s[i].1),
    decreases s.len(),
{
    if i > 0 {
        assert(s[0].0 != s[i].0);
        lemma_bfind_at_index(s.drop_first(), i - 1);
        assert(s.drop_first()[i - 1] == s[i]);
    }
}

/// Appending an entry leaves every other key's lookup unchanged.
pub proof fn lemma_bfind_push(s: Seq<BallotEntry>, e: BallotEntry, vote_id: u64, account: u64)
    ensures
        bfind(s.push(e), vote_id, account) == if bfind(s, vote_id, account) is Some {
            bfind(s, vote_id, account)
        } else if e.0 == (vote_id, account) {
            Some(e.1)
        } else {
            None::<Vote>
        },
    decreases s.len(),
{
    if s.len() == 0 {
        assert(s.push(e)[0] == e);
        assert(s.push(e).drop_first() =~= Seq::<BallotEntry>::empty());
        assert(bfind(Seq::<BallotEntry>::empty(), vote_id, account) is None);
        assert(bfind(s, vote_id, account) is None);
    } else {
        assert(s.push(e)[0] == s[0]);
        assert(s.push(e).drop_first() =~= s.drop_first().push(e));
        lemma_bfind_push(s.drop_first(), e, vote_id, account);
    }
}

/// Replacing the entry at an index (keeping its key) changes only that
/// key's lookup.
pub proof fn lemma_bfind_update(s: Seq<BallotEntry>, i: int, v: Vote, vote_id: u64, account: u64)
    requires
        ballot_keys_unique(s),
        0 <= i < s.len(),
    ensures
        bfind(s.update(i, (s[i].0, v)), vote_id, account) == if (vote_id, account) == s[i].0 {
            Some(v)
        } else {
            bfind(s, vote_id, account)
        },
    decreases s.len(),
{
    let t = s.update(i, (s[i].0, v));
    if i == 0 {
        assert(t[0] == (s[0].0, v));
        if (vote_id, account) != s[0].0 {
            assert(t.drop_first() =~= s.drop_first());
        }
    } else {
        assert(t[0] == s[0]);
        assert(s[0].0 != s[i].0);
        if (vote_id, account) != s[0].0 {
            assert(t.drop_first() =~= s.drop_first().update(
                i - 1,
                (s.drop_first()[i - 1].0, v),
            ));
            lemma_bfind_update(s.drop_first(), i - 1, v, vote_id, account);
        }
    }
}

/// The ballot ledger itself: entries keyed by `(vote, voter)`, with unique
/// keys.
pub struct BallotMap {
    entries: Vec<BallotEntry>,
}

impl View for BallotMap {
    type V = Seq<BallotEntry>;

    closed spec fn view(&self) -> Seq<BallotEntry> {
        self.entries@
    }
}

impl BallotMap {
    pub open spec fn wf(self) -> bool {
        ballot_keys_unique(self@)
    }

    /// Lookup in the ledger's current state.
    pub open spec fn spec_get(self, vote_id: u64, account: u64) -> Option<Vote> {
        bfind(self@, vote_id, account)
    }

    /// The empty ledger.
    pub fn new() -> (r: BallotMap)
        ensures
            r.wf(),
            r@.len() == 0,
            forall|vid: u64, a: u64| r.spec_get(vid, a) is None,
    {
        let r = BallotMap { entries: Vec::new() };
        proof {
            assert(forall|vid: u64, a: u64| bfind(r@, vid, a) is None);
        }
        r
    }

    /// Number of ballots, over all votes.
    pub fn len(&self) -> (n: usize)
        ensures
            n == self@.len(),
    {
        self.entries.len()
    }

    /// The position of a key, if present.
    fn index_of(&self, vote_id: u64, account: u64) -> (r: Option<usize>)
        requires
            self.wf(),
        ensures
            match r {
                Some(i) => i < self@.len() && self@[i as int].0 == (vote_id, account)
                    && self.spec_get(vote_id, account) == Some(self@[i as int].1),
                None => self.spec_get(vote_id, account) is None,
            },
    {
        let n = self.entries.len();
        let mut i: usize = 0;
        while i < n
            invariant
                n == self@.len(),
                i <= n,
                self.wf(),
                forall|j: int| 0 <= j < i ==> self@[j].0 != (vote_id, account),
            decreases n - i,
        {
            if self.entries[i].0.0 == vote_id && self.entries[i].0.1 == account {
                proof {
                    lemma_bfind_at_index(self@, i as int);
                }
                return Some(i);
            }
            i = i + 1;
        }
        proof {
            lemma_bfind_index(self@, vote_id, account);
        }
        None
    }

    /// Borrow the ballot stored under a key.
    pub fn get(&self, vote_id: u64, account: u64) -> (r: Option<&Vote>)
        requires
            self.wf(),
        ensures
            match r {
                Some(v) => self.spec_get(vote_id, account) == Some(*v),
                None => self.spec_get(vote_id, account) is None,
            },
    {
        match self.index_of(vote_id, account) {
            Some(i) => Some(&self.entries[i].1),
            None => None,
        }
    }

    /// Mint a ballot under a key that is not yet present.
    pub fn insert_new(&mut self, vote_id: u64, account: u64, v: Vote)
        requires
            old(self).wf(),
            old(self).spec_get(vote_id, account) is None,
        ensures
            final(self).wf(),
            final(self)@ == old(self)@.push(((vote_id, account), v)),
            final(self).spec_get(vote_id, account) == Some(v),
            forall|vid: u64, a: u64|
                !(vid == vote_id && a == account) ==> final(self).spec_get(vid, a) == old(
                    self,
                ).spec_get(vid, a),
            forall|vid: u64|
                in_favor_sum(final(self)@, vid) == in_favor_sum(old(self)@, vid) + (if vid
                    == vote_id {
                    in_favor_weight(v.direction, v.magnitude)
                } else {
                    0
                }),
            forall|vid: u64|
                against_sum(final(self)@, vid) == against_sum(old(self)@, vid) + (if vid == vote_id {
                    against_weight(v.direction, v.magnitude)
                } else {
                    0
                }),
            forall|vid: u64|
                mag_sum(final(self)@, vid) == mag_sum(old(self)@, vid) + (if vid == vote_id {
                    v.magnitude as int
                } else {
                    0
                }),
    {
        proof {
            lemma_bfind_index(old(self)@, vote_id, account);
        }
        let e = ((vote_id, account), v);
        self.entries.push(e);
        proof {
            let s = old(self)@;
            assert forall|vid: u64, a: u64|
                !(vid == vote_id && a == account) implies bfind(final(self)@, vid, a) == bfind(
                s,
                vid,
                a,
            ) by {
                lemma_bfind_push(s, e, vid, a);
            }
            lemma_bfind_push(s, e, vote_id, account);
            assert forall|vid: u64|
                in_favor_sum(final(self)@, vid) == in_favor_sum(s, vid) + (if vid == vote_id {
                    in_favor_weight(v.direction, v.magnitude)
                } else {
                    0
                }) && against_sum(final(self)@, vid) == against_sum(s, vid) + (if vid == vote_id {
                    against_weight(v.direction, v.magnitude)
                } else {
                    0
                }) && mag_sum(final(self)@, vid) == mag_sum(s, vid) + (if vid == vote_id {
                    v.magnitude as int
                } else {
                    0
                }) by {
                lemma_sums_push(s, e, vid);
            }
            assert forall|i: int, j: int|
                0 <= i < j < final(self)@.len() implies final(self)@[i].0 != final(self)@[j].0 by {
                if j == final(self)@.len() - 1 {
                    lemma_bfind_at_index(s, i);
                }
            }
        }
    }

    /// Replace the ballot stored under a key that is present.
    pub fn set(&mut self, vote_id: u64, account: u64, v: Vote)
        requires
            old(self).wf(),
            old(self).spec_get(vote_id, account) is Some,
        ensures
            final(self).wf(),
            final(self)@.len() == old(self)@.len(),
            forall|i: int| 0 <= i < old(self)@.len() ==> final(self)@[i].0 == old(self)@[i].0,
            final(self).spec_get(vote_id, account) == Some(v),
            forall|vid: u64, a: u64|
                !(vid == vote_id && a == account) ==> final(self).spec_get(vid, a) == old(
                    self,
                ).spec_get(vid, a),
            ({
                let b0 = old(self).spec_get(vote_id, account).unwrap();
                &&& in_favor_sum(final(self)@, vote_id) == in_favor_sum(old(self)@, vote_id)
                    - in_favor_weight(b0.direction, b0.magnitude) + in_favor_weight(
                    v.direction,
                    v.magnitude,
                )
                &&& against_sum(final(self)@, vote_id) == against_sum(old(self)@, vote_id)
                    - against_weight(b0.direction, b0.magnitude) + against_weight(
                    v.direction,
                    v.magnitude,
                )
                &&& mag_sum(final(self)@, vote_id) == mag_sum(old(self)@, vote_id)
                    - b0.magnitude + v.magnitude
            }),
            forall|vid: u64|
                vid != vote_id ==> in_favor_sum(final(self)@, vid) == in_favor_sum(old(self)@, vid)
                    && against_sum(final(self)@, vid) == against_sum(old(self)@, vid) && mag_sum(
                    final(self)@,
                    vid,
                ) == mag_sum(old(self)@, vid),
    {
        let i = match self.index_of(vote_id, account) {
            Some(i) => i,
            None => {
                proof {
                    assert(false);
                }
                0
            },
        };
        let e = ((vote_id, account), v);
        self.entries[i] = e;
        proof {
            let s = old(self)@;
            assert(final(self)@ == s.update(i as int, e));
            assert(e == (s[i as int].0, v));
            assert forall|vid: u64, a: u64|
                !(vid == vote_id && a == account) implies bfind(final(self)@, vid, a) == bfind(
                s,
                vid,
                a,
            ) by {
                lemma_bfind_update(s, i as int, v, vid, a);
            }
            lemma_bfind_update(s, i as int, v, vote_id, account);
            assert forall|vid: u64|
                in_favor_sum(final(self)@, vid) == in_favor_sum(s, vid) - (if vid == vote_id {
                    in_favor_weight(s[i as int].1.direction, s[i as int].1.magnitude)
                } else {
                    0
                }) + (if vid == vote_id {
                    in_favor_weight(v.direction, v.magnitude)
                } else {
                    0
                }) && against_sum(final(self)@, vid) == against_sum(s, vid) - (if vid == vote_id {
                    against_weight(s[i as int].1.direction, s[i as int].1.magnitude)
                } else {
                    0
                }) + (if vid == vote_id {
                    against_weight(v.direction, v.magnitude)
                } else {
                    0
                }) && mag_sum(final(self)@, vid) == mag_sum(s, vid) - (if vid == vote_id {
                    s[i as int].1.magnitude as int
                } else {
                    0
                }) + (if vid == vote_id {
                    v.magnitude as int
                } else {
                    0
                }) by {
                lemma_sums_update(s, i as int, e, vid);
            }
            assert forall|a: int, b: int|
                0 <= a < b < final(self)@.len() implies final(self)@[a].0 != final(self)@[b].0 by {
                assert(s[a].0 != s[b].0);
            }
        }
    }

    /// Reset every ballot of one vote to `NoVote`, keeping keys, magnitudes
    /// and justifications; ballots of other votes are untouched.
    pub fn reset_for_vote(&mut self, vote_id: u64)
        requires
            old(self).wf(),
        ensures
            final(self).wf(),
            final(self)@.len() == old(self)@.len(),
            forall|i: int| 0 <= i < old(self)@.len() ==> final(self)@[i].0 == old(self)@[i].0,
            forall|vid: u64, a: u64|
                vid != vote_id ==> final(self).spec_get(vid, a) == old(self).spec_get(vid, a),
            forall|a: u64|
                final(self).spec_get(vote_id, a) == match old(self).spec_get(vote_id, a) {
                    Some(b) => Some(Vote { direction: VoterView::NoVote, ..b }),
                    None => None::<Vote>,
                },
            in_favor_sum(final(self)@, vote_id) == 0,
            against_sum(final(self)@, vote_id) == 0,
            forall|vid: u64| mag_sum(final(self)@, vid) == mag_sum(old(self)@, vid),
            forall|vid: u64|
                vid != vote_id ==> in_favor_sum(final(self)@, vid) == in_favor_sum(old(self)@, vid)
                    && against_sum(final(self)@, vid) == against_sum(old(self)@, vid),
    {
        let n = self.entries.len();
        let mut i: usize = 0;
        while i < n
            invariant
                n == self@.len(),
                i <= n,
                self@.len() == old(self)@.len(),
                forall|j: int| 0 <= j < n ==> self@[j].0 == old(self)@[j].0,
                forall|j: int|
                    0 <= j < i && old(self)@[j].0.0 == vote_id ==> self@[j].1 == (Vote {
                        direction: VoterView::NoVote,
                        ..old(self)@[j].1
                    }),
                forall|j: int| i <= j < n ==> self@[j] == old(self)@[j],
                forall|j: int| 0 <= j < n && old(self)@[j].0.0 != vote_id ==> self@[j] == old(
                    self,
                )@[j],
            decreases n - i,
        {
            if self.entries[i].0.0 == vote_id {
                let b = self.entries[i].1;
                let key = self.entries[i].0;
                self.entries[i] = (key, Vote { direction: VoterView::NoVote, ..b });
            }
            i = i + 1;
        }
        proof {
            let s1 = old(self)@;
            let s2 = final(self)@;
            assert forall|a: int, b: int| 0 <= a < b < s2.len() implies s2[a].0 != s2[b].0 by {
                assert(s1[a].0 != s1[b].0);
            }
            assert forall|j: int|
                0 <= j < s2.len() && s2[j].0.0 == vote_id implies s2[j].1.direction is NoVote by {}
            lemma_all_novote_zero(s2, vote_id);
            assert forall|j: int| 0 <= j < s1.len() implies s2[j].1.magnitude
                == s1[j].1.magnitude by {}
            assert forall|vid: u64|
                mag_sum(s2, vid) == mag_sum(s1, vid) && (vid != vote_id ==> in_favor_sum(s2, vid)
                    == in_favor_sum(s1, vid) && against_sum(s2, vid) == against_sum(
                    s1,
                    vid,
                )) by {
                lemma_sums_pointwise(s1, s2, vote_id, vid);
            }
            assert forall|vid: u64, a: u64|
                vid != vote_id implies bfind(s2, vid, a) == bfind(s1, vid, a) by {
                lemma_bfind_index(s1, vid, a);
                lemma_bfind_index(s2, vid, a);
                if bfind(s1, vid, a) is Some {
                    let j = choose|j: int| 0 <= j < s1.len() && s1[j].0 == (vid, a);
                    assert(s2[j] == s1[j]);
                    lemma_bfind_at_index(s1, j);
                    lemma_bfind_at_index(s2, j);
                } else {
                    assert(forall|j: int| 0 <= j < s2.len() ==> s2[j].0 != (vid, a));
                }
            }
            assert forall|a: u64| #[trigger] bfind(s2, vote_id, a) == match bfind(s1, vote_id, a) {
                Some(b) => Some(Vote { direction: VoterView::NoVote, ..b }),
                None => None::<Vote>,
            } by {
                lemma_bfind_index(s1, vote_id, a);
                lemma_bfind_index(s2, vote_id, a);
                if bfind(s1, vote_id, a) is Some {
                    let j = choose|j: int| 0 <= j < s1.len() && s1[j].0 == (vote_id, a);
                    lemma_bfind_at_index(s1, j);
                    lemma_bfind_at_index(s2, j);
                } else {
                    assert(forall|j: int| 0 <= j < s2.len() ==> s2[j].0 != (vote_id, a));
                }
            }
        }
    }
}

} // verus!
