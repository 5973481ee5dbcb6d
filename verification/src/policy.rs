//! How the learning agent picks its action from the values it predicts:
//! mostly the best one, now and then a random one.
//!
//! The predicted values reach this module as scores: whole numbers that are
//! ordered as the values they stand for. The arithmetic that produces them is
//! not part of this crate.

use vstd::prelude::*;
use crate::rng::gen_below;

verus! {

/// The sides of the die that decides between exploring and exploiting.
pub const PER_MILLE: usize = 1000;

/// The exploration rate of the agent, in thousandths.
pub const EXPLORATION_PER_MILLE: usize = 100;

/// `i` is the position of the greatest score, and the first such position
/// where several scores are greatest.
pub open spec fn is_first_max(scores: Seq<i64>, i: int) -> bool {
    &&& 0 <= i < scores.len()
    &&& forall|j: int| 0 <= j < scores.len() ==> scores[j] <= scores[i]
    &&& forall|j: int| 0 <= j < i ==> scores[j] < scores[i]
}

/// The position of the first greatest score; 0 when there are no scores.
pub open spec fn greedy_choice(scores: Seq<i64>) -> int
    decreases scores.len(),
{
    if scores.len() <= 1 {
        0
    } else {
        let best = greedy_choice(scores.drop_last());
        if scores.last() > scores[best] {
            scores.len() - 1
        } else {
            best
        }
    }
}

/// The action that the policy settles on once the draws are known: the
/// random action when the roll falls below the exploration rate, and the
/// greedy choice otherwise.
pub open spec fn decided(roll: usize, random_action: usize, scores: Seq<i64>, exploration: usize) -> int {
    if roll < exploration {
        random_action as int
    } else {
        greedy_choice(scores)
    }
}

/// The greedy choice is the first position of the greatest score.
pub proof fn lemma_greedy_choice_is_first_max(scores: Seq<i64>)
    requires
        scores.len() > 0,
    ensures
        is_first_max(scores, greedy_choice(scores)),
    decreases scores.len(),
{
    if scores.len() > 1 {
        let front = scores.drop_last();
        lemma_greedy_choice_is_first_max(front);
        let best = greedy_choice(front);
        assert(front[best] == scores[best]);
        assert forall|j: int| 0 <= j < front.len() implies scores[j] <= scores[best] by {
            assert(front[j] == scores[j]);
        }
        assert forall|j: int| 0 <= j < best implies scores[j] < scores[best] by {
            assert(front[j] == scores[j]);
        }
    }
}

/// No other position is the first position of the greatest score.
pub proof fn lemma_first_max_is_unique(scores: Seq<i64>, i: int, j: int)
    requires
        is_first_max(scores, i),
        is_first_max(scores, j),
    ensures
        i == j,
{
    if i < j {
        assert(scores[i] < scores[j]);
        assert(scores[j] <= scores[i]);
    } else if j < i {
        assert(scores[j] < scores[i]);
        assert(scores[i] <= scores[j]);
    }
}

/// The position of the greatest score, the first one among equals, and 0
/// when there are no scores.
pub fn choose_action(scores: &Vec<i64>) -> (action: usize)
    ensures
        action == greedy_choice(scores@),
        scores@.len() > 0 ==> is_first_max(scores@, action as int),
{
    if scores.len() == 0 {
        return 0;
    }
    let mut best: usize = 0;
    let mut i: usize = 1;
    while i < scores.len()
        invariant
            1 <= i <= scores@.len(),
            best == greedy_choice(scores@.take(i as int)),
            best < i,
        decreases scores@.len() - i,
    {
        proof {
            let longer = scores@.take(i + 1);
            assert(longer.drop_last() =~= scores@.take(i as int));
            assert(longer.last() == scores@[i as int]);
            assert(longer[best as int] == scores@[best as int]);
        }
        if scores[i] > scores[best] {
            best = i;
        }
        i += 1;
    }
    proof {
        assert(scores@.take(i as int) =~= scores@);
        lemma_greedy_choice_is_first_max(scores@);
    }
    best
}

/// Settles the action from the two draws: `roll`, which decides whether the
/// agent explores, and `random_action`, which it takes if it does.
pub fn decide(roll: usize, random_action: usize, scores: &Vec<i64>, exploration: usize) -> (action: usize)
    ensures
        action == decided(roll, random_action, scores@, exploration),
{
    if roll < exploration {
        random_action
    } else {
        choose_action(scores)
    }
}

/// Picks an action for the given scores, exploring `exploration` times in
/// a thousand.
///
/// With an exploration rate of 0 the result is the greedy choice. With a
/// rate of 1000 or more it is whatever action the generator draws. In
/// between, the generator decides which of the two it is.
pub fn act(scores: &Vec<i64>, exploration: usize) -> (action: usize)
    requires
        scores@.len() > 0,
    ensures
        action < scores@.len(),
        exploration == 0 ==> action == greedy_choice(scores@),
{
    let mut rng = rand::thread_rng();
    let roll = gen_below(&mut rng, PER_MILLE);
    let random_action = gen_below(&mut rng, scores.len());
    proof {
        lemma_greedy_choice_is_first_max(scores@);
    }
    decide(roll, random_action, scores, exploration)
}

} // verus!
