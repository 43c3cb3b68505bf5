//! The ledger of votes: who voted how, and with what weight.

use vstd::prelude::*;

use crate::keys::{lemma_position_absent, lemma_position_found, position};
use crate::types::{Principal, Vote, VoteEntry, WeightEntry};
use crate::wide::WideSum;

verus! {

/// The principals of `entries`, in order.
pub open spec fn voters<T>(entries: Seq<(Principal, T)>) -> Seq<Principal> {
    entries.map_values(|e: (Principal, T)| e.0)
}

/// The vote that `who` has cast, if any.
pub open spec fn vote_of(votes: Seq<VoteEntry>, who: Principal) -> Option<Vote> {
    match position(voters(votes), who) {
        Some(i) => Some(votes[i].1),
        None => None,
    }
}

/// `who` has an entry among `votes`.
pub open spec fn has_voted(votes: Seq<VoteEntry>, who: Principal) -> bool {
    position(voters(votes), who) is Some
}

/// How many of `votes` are Yes.
pub open spec fn count_yes(votes: Seq<VoteEntry>) -> nat
    decreases votes.len(),
{
    if votes.len() == 0 {
        0
    } else {
        count_yes(votes.drop_last()) + if votes.last().1 == Vote::Yes {
            1nat
        } else {
            0nat
        }
    }
}

/// The sum of the weights of those who voted Yes.
pub open spec fn yes_weight(votes: Seq<VoteEntry>, weights: Seq<WeightEntry>) -> nat
    decreases weights.len(),
{
    if weights.len() == 0 {
        0
    } else {
        yes_weight(votes, weights.drop_last()) + if vote_of(votes, weights.last().0) == Some(
            Vote::Yes,
        ) {
            weights.last().1 as nat
        } else {
            0nat
        }
    }
}

/// The vote that `who` has cast, if any.
pub fn find_vote(votes: &Vec<VoteEntry>, who: Principal) -> (r: Option<Vote>)
    ensures
        r == vote_of(votes@, who),
        r is Some <==> has_voted(votes@, who),
{
    let mut i: usize = 0;
    while i < votes.len()
        invariant
            i <= votes.len(),
            forall|j: int| 0 <= j < i ==> voters(votes@)[j] != who,
        decreases votes.len() - i,
    {
        if votes[i].0 == who {
            proof {
                assert(voters(votes@)[i as int] == who);
                lemma_position_found(voters(votes@), who, i as int);
            }
            return Some(votes[i].1);
        }
        i += 1;
    }
    proof {
        lemma_position_absent(voters(votes@), who);
    }
    None
}

/// How many of `votes` are Yes.
pub fn count_yes_votes(votes: &Vec<VoteEntry>) -> (n: usize)
    ensures
        n == count_yes(votes@),
{
    let mut n: usize = 0;
    let mut i: usize = 0;
    while i < votes.len()
        invariant
            i <= votes.len(),
            n <= i,
            n == count_yes(votes@.take(i as int)),
        decreases votes.len() - i,
    {
        proof {
            assert(votes@.take(i + 1).drop_last() =~= votes@.take(i as int));
        }
        if votes[i].1 == Vote::Yes {
            n += 1;
        }
        i += 1;
    }
    assert(votes@.take(votes.len() as int) =~= votes@);
    n
}

/// The sum of the weights of those who voted Yes.
pub fn tally_yes_weight(votes: &Vec<VoteEntry>, weights: &Vec<WeightEntry>) -> (total: WideSum)
    ensures
        total.value() == yes_weight(votes@, weights@),
{
    let mut total = WideSum::zero();
    let mut i: usize = 0;
    while i < weights.len()
        invariant
            i <= weights.len(),
            total.carries <= i,
            total.value() == yes_weight(votes@, weights@.take(i as int)),
        decreases weights.len() - i,
    {
        proof {
            assert(weights@.take(i + 1).drop_last() =~= weights@.take(i as int));
        }
        let said = find_vote(votes, weights[i].0);
        if said == Some(Vote::Yes) {
            total.add(weights[i].1);
        }
        i += 1;
    }
    assert(weights@.take(weights.len() as int) =~= weights@);
    total
}

} // verus!
