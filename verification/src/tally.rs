//! Per-category trial counts: one counter per category, built up by a
//! single worker and merged once the worker is done.

use vstd::prelude::*;
use crate::classify::Category;

verus! {

/// Sum of a sequence of counters.
pub open spec fn sum_counts(s: Seq<u64>) -> int
    decreases s.len(),
{
    if s.len() == 0 {
        0
    } else {
        sum_counts(s.drop_last()) + s.last()
    }
}

proof fn lemma_sum_nonneg(s: Seq<u64>)
    ensures
        sum_counts(s) >= 0,
    decreases s.len(),
{
    if s.len() > 0 {
        lemma_sum_nonneg(s.drop_last());
    }
}

/// Each counter is at most the sum of all of them.
proof fn lemma_entry_le_sum(s: Seq<u64>, i: int)
    requires
        0 <= i < s.len(),
    ensures
        s[i] <= sum_counts(s),
    decreases s.len(),
{
    lemma_sum_nonneg(s.drop_last());
    if i < s.len() - 1 {
        lemma_entry_le_sum(s.drop_last(), i);
    }
}

/// Raising one counter raises the sum by the same amount.
proof fn lemma_sum_update(s: Seq<u64>, i: int, v: u64)
    requires
        0 <= i < s.len(),
    ensures
        sum_counts(s.update(i, v)) == sum_counts(s) - s[i] + v,
    decreases s.len(),
{
    if i == s.len() - 1 {
        assert(s.update(i, v).drop_last() =~= s.drop_last());
    } else {
        assert(s.update(i, v).drop_last() =~= s.drop_last().update(i, v));
        lemma_sum_update(s.drop_last(), i, v);
    }
}

/// The sum of a prefix, extended one counter at a time.
proof fn lemma_sum_take_succ(s: Seq<u64>, i: int)
    requires
        0 <= i < s.len(),
    ensures
        sum_counts(s.take(i + 1)) == sum_counts(s.take(i)) + s[i],
{
    assert(s.take(i + 1).drop_last() =~= s.take(i));
}

/// A prefix never sums to more than the whole.
proof fn lemma_sum_take_le(s: Seq<u64>, i: int)
    requires
        0 <= i <= s.len(),
    ensures
        sum_counts(s.take(i)) <= sum_counts(s),
    decreases s.len() - i,
{
    if i == s.len() {
        assert(s.take(i) =~= s);
    } else {
        lemma_sum_take_succ(s, i);
        lemma_sum_take_le(s, i + 1);
    }
}

/// Adding two tallies counter by counter adds their sums.
proof fn lemma_sum_pointwise_add(a: Seq<u64>, b: Seq<u64>, c: Seq<u64>)
    requires
        a.len() == b.len() == c.len(),
        forall|i: int| 0 <= i < c.len() ==> c[i] == a[i] + b[i],
    ensures
        sum_counts(c) == sum_counts(a) + sum_counts(b),
    decreases c.len(),
{
    if c.len() > 0 {
        assert(c.last() == a.last() + b.last());
        lemma_sum_pointwise_add(a.drop_last(), b.drop_last(), c.drop_last());
    }
}

/// The position of each category's counter in a tally.
pub open spec fn cat_index(c: Category) -> int {
    match c {
        Category::RoyalFlush => 0,
        Category::StraightFlush => 1,
        Category::FourOfAKind => 2,
        Category::FullHouse => 3,
        Category::Flush => 4,
        Category::Straight => 5,
        Category::ThreeOfAKind => 6,
        Category::TwoPair => 7,
        Category::Pair => 8,
        Category::HighCard => 9,
    }
}

impl Category {
    /// The position of this category's counter in a tally.
    pub fn index(&self) -> (i: usize)
        ensures
            i == cat_index(*self),
    {
        match self {
            Category::RoyalFlush => 0,
            Category::StraightFlush => 1,
            Category::FourOfAKind => 2,
            Category::FullHouse => 3,
            Category::Flush => 4,
            Category::Straight => 5,
            Category::ThreeOfAKind => 6,
            Category::TwoPair => 7,
            Category::Pair => 8,
            Category::HighCard => 9,
        }
    }
}

/// A tally: one non-negative trial count per category.
pub struct Tally {
    counts: Vec<u64>,
}

impl View for Tally {
    type V = Seq<u64>;

    closed spec fn view(&self) -> Seq<u64> {
        self.counts@
    }
}

impl Tally {
    /// Well-formed: ten counters whose sum fits in a machine word.
    pub open spec fn wf(&self) -> bool {
        &&& self@.len() == 10
        &&& sum_counts(self@) <= u64::MAX
    }

    /// How many trials of category `c` the tally has recorded.
    pub open spec fn count(&self, c: Category) -> int {
        self@[cat_index(c)] as int
    }

    /// How many trials the tally has recorded in all.
    pub open spec fn total(&self) -> int {
        sum_counts(self@)
    }

    /// An empty tally: every counter zero.
    pub fn new() -> (t: Tally)
        ensures
            t.wf(),
            t.total() == 0,
            forall|c: Category| t.count(c) == 0,
    {
        let mut counts: Vec<u64> = Vec::new();
        let mut i: usize = 0;
        while i < 10
            invariant
                0 <= i <= 10,
                counts@.len() == i,
                forall|j: int| 0 <= j < i ==> counts@[j] == 0,
                sum_counts(counts@) == 0,
            decreases 10 - i,
        {
            proof {
                assert(counts@.push(0u64).drop_last() =~= counts@);
            }
            counts.push(0);
            i = i + 1;
        }
        Tally { counts }
    }

    /// The current value of one counter.
    pub fn get(&self, c: Category) -> (n: u64)
        requires
            self.wf(),
        ensures
            n == self.count(c),
    {
        let i = c.index();
        self.counts[i]
    }

    /// Records one trial: the chosen category's counter goes up by one and
    /// every other counter stays as it was.
    pub fn record(&mut self, c: Category)
        requires
            old(self).wf(),
            old(self).total() < u64::MAX,
        ensures
            final(self).wf(),
            final(self)@ == old(self)@.update(cat_index(c), (old(self)@[cat_index(c)] + 1) as u64),
            final(self).count(c) == old(self).count(c) + 1,
            forall|d: Category| d != c ==> final(self).count(d) == old(self).count(d),
            final(self).total() == old(self).total() + 1,
    {
        let i = c.index();
        proof {
            lemma_entry_le_sum(self@, cat_index(c));
            lemma_sum_nonneg(self@);
            lemma_sum_update(self@, cat_index(c), (self@[cat_index(c)] + 1) as u64);
            assert forall|d: Category| d != c implies cat_index(d) != cat_index(c) by {
            }
        }
        let n = self.counts[i];
        self.counts.set(i, n + 1);
    }

    /// Merges another tally into this one: each counter becomes the sum of
    /// the two matching counters, so the totals add as well.
    pub fn merge(&mut self, other: &Tally)
        requires
            old(self).wf(),
            other.wf(),
            old(self).total() + other.total() <= u64::MAX,
        ensures
            final(self).wf(),
            forall|c: Category|
                #[trigger] final(self).count(c) == old(self).count(c) + other.count(c),
            final(self).total() == old(self).total() + other.total(),
    {
        proof {
            lemma_sum_nonneg(self@);
            lemma_sum_nonneg(other@);
        }
        let mut i: usize = 0;
        while i < 10
            invariant
                0 <= i <= 10,
                self@.len() == 10,
                other.wf(),
                old(self).wf(),
                old(self).total() + other.total() <= u64::MAX,
                forall|j: int| 0 <= j < i ==> self@[j] == old(self)@[j] + other@[j],
                forall|j: int| i <= j < 10 ==> self@[j] == old(self)@[j],
            decreases 10 - i,
        {
            proof {
                lemma_entry_le_sum(old(self)@, i as int);
                lemma_entry_le_sum(other@, i as int);
            }
            let a = self.counts[i];
            let b = other.counts[i];
            self.counts.set(i, a + b);
            i = i + 1;
        }
        proof {
            lemma_sum_pointwise_add(old(self)@, other@, self@);
            assert forall|c: Category|
                #[trigger] self.count(c) == old(self).count(c) + other.count(c) by {
                assert(self@[cat_index(c)] == old(self)@[cat_index(c)] + other@[cat_index(c)]);
            }
        }
    }

    /// The total number of recorded trials: the sum of the ten counters.
    pub fn total_count(&self) -> (n: u64)
        requires
            self.wf(),
        ensures
            n == self.total(),
    {
        let mut n: u64 = 0;
        let mut i: usize = 0;
        while i < 10
            invariant
                self.wf(),
                0 <= i <= 10,
                n == sum_counts(self@.take(i as int)),
            decreases 10 - i,
        {
            proof {
                lemma_sum_take_succ(self@, i as int);
                lemma_sum_take_le(self@, i + 1);
                lemma_sum_nonneg(self@.take(i as int));
            }
            n = n + self.counts[i];
            i = i + 1;
        }
        proof {
            assert(self@.take(10) =~= self@);
        }
        n
    }
}

} // verus!
