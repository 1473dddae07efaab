//! The trial engine and the aggregation protocol: run a batch of
//! independent deal-and-classify trials, and split a requested trial count
//! over a number of workers so that every trial is assigned exactly once.

use vstd::prelude::*;
use vstd::arithmetic::div_mod::lemma_fundamental_div_mod;
use crate::card::Deck;
use crate::classify::handle_the_hand;
use crate::tally::Tally;

verus! {

/// Runs `trials` independent trials: each deals a fresh shuffled deck,
/// classifies the seven cards on top, and records the category. The
/// resulting tally holds exactly one record per trial, so its counters
/// sum to `trials`.
pub fn run_batch(trials: usize) -> (t: Tally)
    ensures
        t.wf(),
        t.total() == trials,
{
    let mut t = Tally::new();
    let mut i: usize = 0;
    while i < trials
        invariant
            t.wf(),
            t.total() == i,
            0 <= i <= trials,
        decreases trials - i,
    {
        let mut deck = Deck::new();
        let hand = deck.deal();
        let c = handle_the_hand(&hand);
        t.record(c);
        i = i + 1;
    }
    t
}

/// Sum of a sequence of per-worker trial counts.
pub open spec fn sum_trials(s: Seq<usize>) -> int
    decreases s.len(),
{
    if s.len() == 0 {
        0
    } else {
        sum_trials(s.drop_last()) + s.last()
    }
}

/// Splits `total` trials over `workers` workers: every worker gets the
/// even share or one more, and the shares sum to exactly `total`, so no
/// trial is lost or counted twice.
pub fn split_trials(total: usize, workers: usize) -> (v: Vec<usize>)
    requires
        workers >= 1,
    ensures
        v@.len() == workers,
        sum_trials(v@) == total,
        forall|i: int|
            0 <= i < workers ==> (v@[i] == total as int / workers as int || v@[i] == total as int
                / workers as int + 1),
{
    let base: usize = total / workers;
    let rem: usize = total % workers;
    let mut v: Vec<usize> = Vec::new();
    let mut k: usize = 0;
    while k < workers
        invariant
            workers >= 1,
            base == total as int / workers as int,
            rem == total as int % workers as int,
            0 <= rem < workers,
            0 <= k <= workers,
            v@.len() == k,
            forall|i: int| 0 <= i < k ==> (v@[i] == base || v@[i] == base + 1),
            sum_trials(v@) == k * base + (if k <= rem {
                k as int
            } else {
                rem as int
            }),
        decreases workers - k,
    {
        let share: usize = if k < rem {
            proof {
                assert(workers * base >= base) by (nonlinear_arith)
                    requires
                        workers >= 1,
                        base >= 0,
                ;
                lemma_fundamental_div_mod(total as int, workers as int);
            }
            base + 1
        } else {
            base
        };
        proof {
            assert(v@.push(share).drop_last() =~= v@);
            assert((k + 1) * base == k * base + base) by (nonlinear_arith);
        }
        v.push(share);
        k = k + 1;
    }
    proof {
        lemma_fundamental_div_mod(total as int, workers as int);
    }
    v
}

} // verus!
