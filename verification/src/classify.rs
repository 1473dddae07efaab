//! The hand classifier: ten mutually exclusive categories, nine predicates
//! over rank and suit counts, and a priority-ordered evaluation that always
//! returns the highest-value category a hand contains.

use vstd::prelude::*;
use crate::card::Card;
use crate::count::{
    cnt_rank, cnt_suit, has_card, count_rank, count_suit, contains_card, lemma_counts_permutation,
};

verus! {

/// The ten poker hand categories, best first.
#[derive(Clone, Copy, PartialEq, Eq, Structural, Debug)]
pub enum Category {
    RoyalFlush,
    StraightFlush,
    FourOfAKind,
    FullHouse,
    Flush,
    Straight,
    ThreeOfAKind,
    TwoPair,
    Pair,
    HighCard,
}

/// The priority of each category: a better category has a higher number,
/// and the classifier returns the satisfied category of highest priority.
pub open spec fn priority(c: Category) -> int {
    match c {
        Category::RoyalFlush => 9,
        Category::StraightFlush => 8,
        Category::FourOfAKind => 7,
        Category::FullHouse => 6,
        Category::Flush => 5,
        Category::Straight => 4,
        Category::ThreeOfAKind => 3,
        Category::TwoPair => 2,
        Category::Pair => 1,
        Category::HighCard => 0,
    }
}

/// Some rank occurs at least `m` times in the hand.
pub open spec fn spec_rank_count_at_least(h: Seq<Card>, m: int) -> bool {
    exists|r: int| 2 <= r <= 14 && cnt_rank(h, r) >= m
}

/// Ranks `lo` through `lo + 4` are all present in the hand.
pub open spec fn straight_at(h: Seq<Card>, lo: int) -> bool {
    &&& cnt_rank(h, lo) >= 1
    &&& cnt_rank(h, lo + 1) >= 1
    &&& cnt_rank(h, lo + 2) >= 1
    &&& cnt_rank(h, lo + 3) >= 1
    &&& cnt_rank(h, lo + 4) >= 1
}

/// The five cards of suit `s` with ranks `lo` through `lo + 4` are all present.
pub open spec fn straight_flush_at(h: Seq<Card>, lo: int, s: int) -> bool {
    &&& has_card(h, lo, s)
    &&& has_card(h, lo + 1, s)
    &&& has_card(h, lo + 2, s)
    &&& has_card(h, lo + 3, s)
    &&& has_card(h, lo + 4, s)
}

/// The hand holds the five highest ranks, ten through ace, all of suit `s`.
pub open spec fn royal_at(h: Seq<Card>, s: int) -> bool {
    straight_flush_at(h, 10, s)
}

pub open spec fn spec_is_royal_flush(h: Seq<Card>) -> bool {
    exists|s: int| 1 <= s <= 4 && royal_at(h, s)
}

pub open spec fn spec_is_straight_flush(h: Seq<Card>) -> bool {
    exists|lo: int, s: int| 2 <= lo <= 10 && 1 <= s <= 4 && straight_flush_at(h, lo, s)
}

pub open spec fn spec_is_four_of_a_kind(h: Seq<Card>) -> bool {
    spec_rank_count_at_least(h, 4)
}

pub open spec fn spec_is_three_of_a_kind(h: Seq<Card>) -> bool {
    spec_rank_count_at_least(h, 3)
}

pub open spec fn spec_is_pair(h: Seq<Card>) -> bool {
    spec_rank_count_at_least(h, 2)
}

/// Two distinct ranks each occur at least twice.
pub open spec fn spec_two_pair_ranks(h: Seq<Card>) -> bool {
    exists|r1: int, r2: int|
        2 <= r1 <= 14 && 2 <= r2 <= 14 && r1 != r2 && cnt_rank(h, r1) >= 2 && cnt_rank(h, r2) >= 2
}

/// A full house: three of one rank together with a pair of a different rank.
pub open spec fn spec_is_full_house(h: Seq<Card>) -> bool {
    exists|r1: int, r2: int|
        2 <= r1 <= 14 && 2 <= r2 <= 14 && r1 != r2 && cnt_rank(h, r1) >= 3 && cnt_rank(h, r2) >= 2
}

/// Two pair: two distinct pair ranks, and no three of a kind.
pub open spec fn spec_is_two_pairs(h: Seq<Card>) -> bool {
    spec_two_pair_ranks(h) && !spec_is_three_of_a_kind(h)
}

pub open spec fn spec_is_flush(h: Seq<Card>) -> bool {
    exists|s: int| 1 <= s <= 4 && cnt_suit(h, s) >= 5
}

pub open spec fn spec_is_straight(h: Seq<Card>) -> bool {
    exists|lo: int| 2 <= lo <= 10 && straight_at(h, lo)
}

/// The classifier: the highest-priority category whose predicate the hand
/// satisfies; a hand with no pattern at all is a high card.
pub open spec fn spec_classify(h: Seq<Card>) -> Category {
    if spec_is_royal_flush(h) {
        Category::RoyalFlush
    } else if spec_is_straight_flush(h) {
        Category::StraightFlush
    } else if spec_is_four_of_a_kind(h) {
        Category::FourOfAKind
    } else if spec_is_full_house(h) {
        Category::FullHouse
    } else if spec_is_flush(h) {
        Category::Flush
    } else if spec_is_straight(h) {
        Category::Straight
    } else if spec_is_three_of_a_kind(h) {
        Category::ThreeOfAKind
    } else if spec_is_two_pairs(h) {
        Category::TwoPair
    } else if spec_is_pair(h) {
        Category::Pair
    } else {
        Category::HighCard
    }
}

/// The predicate that belongs to each category's tier; every hand is at
/// least a high card.
pub open spec fn category_matches(h: Seq<Card>, c: Category) -> bool {
    match c {
        Category::RoyalFlush => spec_is_royal_flush(h),
        Category::StraightFlush => spec_is_straight_flush(h),
        Category::FourOfAKind => spec_is_four_of_a_kind(h),
        Category::FullHouse => spec_is_full_house(h),
        Category::Flush => spec_is_flush(h),
        Category::Straight => spec_is_straight(h),
        Category::ThreeOfAKind => spec_is_three_of_a_kind(h),
        Category::TwoPair => spec_is_two_pairs(h),
        Category::Pair => spec_is_pair(h),
        Category::HighCard => true,
    }
}

/// Every hand falls in exactly one tier: its own category's predicate holds,
/// and no predicate of any strictly higher tier does.
pub proof fn lemma_classify_partition(h: Seq<Card>)
    ensures
        category_matches(h, spec_classify(h)),
        forall|c: Category|
            priority(c) > priority(spec_classify(h)) ==> !category_matches(h, c),
{
}

/// A hand holding both a flush and a straight is still classified by the
/// highest tier it reaches: five consecutive cards of one suit make it a
/// straight flush (or, from ten to ace, a royal flush), and without them
/// the flush wins over the straight.
pub proof fn lemma_flush_straight_priority(h: Seq<Card>)
    ensures
        spec_is_royal_flush(h) ==> spec_classify(h) == Category::RoyalFlush,
        spec_is_straight_flush(h) && !spec_is_royal_flush(h) ==> spec_classify(h)
            == Category::StraightFlush,
        spec_is_flush(h) && !spec_is_royal_flush(h) && !spec_is_straight_flush(h)
            && !spec_is_four_of_a_kind(h) && !spec_is_full_house(h) ==> spec_classify(h)
            == Category::Flush,
{
}

/// The classifier never looks at the order of the cards: two hands holding
/// the same cards, however arranged, fall in the same category.
pub proof fn lemma_classify_order_independent(h1: Seq<Card>, h2: Seq<Card>)
    requires
        h1.to_multiset() == h2.to_multiset(),
    ensures
        spec_classify(h1) == spec_classify(h2),
{
    lemma_counts_permutation(h1, h2);
    assert forall|lo: int| #[trigger] straight_at(h1, lo) == straight_at(h2, lo) by {
        assert(cnt_rank(h1, lo) == cnt_rank(h2, lo));
        assert(cnt_rank(h1, lo + 1) == cnt_rank(h2, lo + 1));
        assert(cnt_rank(h1, lo + 2) == cnt_rank(h2, lo + 2));
        assert(cnt_rank(h1, lo + 3) == cnt_rank(h2, lo + 3));
        assert(cnt_rank(h1, lo + 4) == cnt_rank(h2, lo + 4));
    }
    assert forall|lo: int, s: int| #[trigger] straight_flush_at(h1, lo, s) == straight_flush_at(
        h2,
        lo,
        s,
    ) by {
        assert(has_card(h1, lo, s) == has_card(h2, lo, s));
        assert(has_card(h1, lo + 1, s) == has_card(h2, lo + 1, s));
        assert(has_card(h1, lo + 2, s) == has_card(h2, lo + 2, s));
        assert(has_card(h1, lo + 3, s) == has_card(h2, lo + 3, s));
        assert(has_card(h1, lo + 4, s) == has_card(h2, lo + 4, s));
    }
    assert(spec_is_royal_flush(h1) == spec_is_royal_flush(h2)) by {
        if spec_is_royal_flush(h1) {
            let s = choose|s: int| 1 <= s <= 4 && royal_at(h1, s);
            assert(royal_at(h2, s));
        }
        if spec_is_royal_flush(h2) {
            let s = choose|s: int| 1 <= s <= 4 && royal_at(h2, s);
            assert(royal_at(h1, s));
        }
    }
    assert(spec_is_straight_flush(h1) == spec_is_straight_flush(h2)) by {
        if spec_is_straight_flush(h1) {
            let (lo, s): (int, int) = choose|lo: int, s: int|
                2 <= lo <= 10 && 1 <= s <= 4 && straight_flush_at(h1, lo, s);
            assert(straight_flush_at(h2, lo, s));
        }
        if spec_is_straight_flush(h2) {
            let (lo, s): (int, int) = choose|lo: int, s: int|
                2 <= lo <= 10 && 1 <= s <= 4 && straight_flush_at(h2, lo, s);
            assert(straight_flush_at(h1, lo, s));
        }
    }
    assert forall|m: int|
        #[trigger] spec_rank_count_at_least(h1, m) == spec_rank_count_at_least(h2, m) by {
        if spec_rank_count_at_least(h1, m) {
            let r = choose|r: int| 2 <= r <= 14 && cnt_rank(h1, r) >= m;
            assert(cnt_rank(h2, r) >= m);
        }
        if spec_rank_count_at_least(h2, m) {
            let r = choose|r: int| 2 <= r <= 14 && cnt_rank(h2, r) >= m;
            assert(cnt_rank(h1, r) >= m);
        }
    }
    assert(spec_is_full_house(h1) == spec_is_full_house(h2)) by {
        if spec_is_full_house(h1) {
            let (r1, r2): (int, int) = choose|r1: int, r2: int|
                2 <= r1 <= 14 && 2 <= r2 <= 14 && r1 != r2 && cnt_rank(h1, r1) >= 3 && cnt_rank(
                    h1,
                    r2,
                ) >= 2;
            assert(cnt_rank(h2, r1) >= 3 && cnt_rank(h2, r2) >= 2);
        }
        if spec_is_full_house(h2) {
            let (r1, r2): (int, int) = choose|r1: int, r2: int|
                2 <= r1 <= 14 && 2 <= r2 <= 14 && r1 != r2 && cnt_rank(h2, r1) >= 3 && cnt_rank(
                    h2,
                    r2,
                ) >= 2;
            assert(cnt_rank(h1, r1) >= 3 && cnt_rank(h1, r2) >= 2);
        }
    }
    assert(spec_two_pair_ranks(h1) == spec_two_pair_ranks(h2)) by {
        if spec_two_pair_ranks(h1) {
            let (r1, r2): (int, int) = choose|r1: int, r2: int|
                2 <= r1 <= 14 && 2 <= r2 <= 14 && r1 != r2 && cnt_rank(h1, r1) >= 2 && cnt_rank(
                    h1,
                    r2,
                ) >= 2;
            assert(cnt_rank(h2, r1) >= 2 && cnt_rank(h2, r2) >= 2);
        }
        if spec_two_pair_ranks(h2) {
            let (r1, r2): (int, int) = choose|r1: int, r2: int|
                2 <= r1 <= 14 && 2 <= r2 <= 14 && r1 != r2 && cnt_rank(h2, r1) >= 2 && cnt_rank(
                    h2,
                    r2,
                ) >= 2;
            assert(cnt_rank(h1, r1) >= 2 && cnt_rank(h1, r2) >= 2);
        }
    }
    assert(spec_is_flush(h1) == spec_is_flush(h2)) by {
        if spec_is_flush(h1) {
            let s = choose|s: int| 1 <= s <= 4 && cnt_suit(h1, s) >= 5;
            assert(cnt_suit(h2, s) >= 5);
        }
        if spec_is_flush(h2) {
            let s = choose|s: int| 1 <= s <= 4 && cnt_suit(h2, s) >= 5;
            assert(cnt_suit(h1, s) >= 5);
        }
    }
    assert(spec_is_straight(h1) == spec_is_straight(h2)) by {
        if spec_is_straight(h1) {
            let lo = choose|lo: int| 2 <= lo <= 10 && straight_at(h1, lo);
            assert(straight_at(h2, lo));
        }
        if spec_is_straight(h2) {
            let lo = choose|lo: int| 2 <= lo <= 10 && straight_at(h2, lo);
            assert(straight_at(h1, lo));
        }
    }
}

/// Some rank occurs at least `m` times among the cards.
fn rank_count_at_least(hand: &Vec<Card>, m: usize) -> (b: bool)
    ensures
        b == spec_rank_count_at_least(hand@, m as int),
{
    let mut r: u8 = 2;
    while r <= 14
        invariant
            2 <= r <= 15,
            forall|k: int| 2 <= k < r ==> cnt_rank(hand@, k) < m,
        decreases 15 - r,
    {
        if count_rank(hand, r) >= m {
            return true;
        }
        r = r + 1;
    }
    false
}

pub fn is_pair(hand: &Vec<Card>) -> (b: bool)
    ensures
        b == spec_is_pair(hand@),
{
    rank_count_at_least(hand, 2)
}

pub fn is_three_of_a_kind(hand: &Vec<Card>) -> (b: bool)
    ensures
        b == spec_is_three_of_a_kind(hand@),
{
    rank_count_at_least(hand, 3)
}

pub fn is_four_of_a_kind(hand: &Vec<Card>) -> (b: bool)
    ensures
        b == spec_is_four_of_a_kind(hand@),
{
    rank_count_at_least(hand, 4)
}

/// Two distinct ranks each occur at least twice among the cards.
fn two_pair_ranks(hand: &Vec<Card>) -> (b: bool)
    ensures
        b == spec_two_pair_ranks(hand@),
{
    let mut r1: u8 = 2;
    while r1 <= 14
        invariant
            2 <= r1 <= 15,
            forall|k: int| 2 <= k < r1 ==> cnt_rank(hand@, k) < 2,
        decreases 15 - r1,
    {
        if count_rank(hand, r1) >= 2 {
            let mut r2: u8 = r1 + 1;
            while r2 <= 14
                invariant
                    2 <= r1 < r2 <= 15,
                    cnt_rank(hand@, r1 as int) >= 2,
                    forall|k: int| r1 < k < r2 ==> cnt_rank(hand@, k) < 2,
                decreases 15 - r2,
            {
                if count_rank(hand, r2) >= 2 {
                    return true;
                }
                r2 = r2 + 1;
            }
            // r1 is the only rank with a pair
            proof {
                assert forall|a: int, b: int|
                    2 <= a <= 14 && 2 <= b <= 14 && a != b implies !(cnt_rank(hand@, a) >= 2
                    && cnt_rank(hand@, b) >= 2) by {
                    if a != r1 {
                        assert(cnt_rank(hand@, a) < 2);
                    } else {
                        assert(cnt_rank(hand@, b) < 2);
                    }
                }
            }
            return false;
        }
        r1 = r1 + 1;
    }
    false
}

pub fn is_two_pairs(hand: &Vec<Card>) -> (b: bool)
    ensures
        b == spec_is_two_pairs(hand@),
{
    two_pair_ranks(hand) && !is_three_of_a_kind(hand)
}

pub fn is_full_house(hand: &Vec<Card>) -> (b: bool)
    ensures
        b == spec_is_full_house(hand@),
{
    let trips = is_three_of_a_kind(hand);
    let pairs = two_pair_ranks(hand);
    proof {
        if trips && pairs {
            let t = choose|t: int| 2 <= t <= 14 && cnt_rank(hand@, t) >= 3;
            let (a, b): (int, int) = choose|a: int, b: int|
                2 <= a <= 14 && 2 <= b <= 14 && a != b && cnt_rank(hand@, a) >= 2 && cnt_rank(
                    hand@,
                    b,
                ) >= 2;
            if a != t {
                assert(cnt_rank(hand@, t) >= 3 && cnt_rank(hand@, a) >= 2 && t != a);
            } else {
                assert(cnt_rank(hand@, t) >= 3 && cnt_rank(hand@, b) >= 2 && t != b);
            }
        }
        if spec_is_full_house(hand@) {
            let (r1, r2): (int, int) = choose|r1: int, r2: int|
                2 <= r1 <= 14 && 2 <= r2 <= 14 && r1 != r2 && cnt_rank(hand@, r1) >= 3 && cnt_rank(
                    hand@,
                    r2,
                ) >= 2;
            assert(cnt_rank(hand@, r1) >= 2);
        }
    }
    trips && pairs
}

pub fn is_flush(hand: &Vec<Card>) -> (b: bool)
    ensures
        b == spec_is_flush(hand@),
{
    let mut s: u8 = 1;
    while s <= 4
        invariant
            1 <= s <= 5,
            forall|k: int| 1 <= k < s ==> cnt_suit(hand@, k) < 5,
        decreases 5 - s,
    {
        if count_suit(hand, s) >= 5 {
            return true;
        }
        s = s + 1;
    }
    false
}

/// All five ranks `lo` through `lo + 4` are present among the cards.
fn straight_from(hand: &Vec<Card>, lo: u8) -> (b: bool)
    requires
        lo <= 250,
    ensures
        b == straight_at(hand@, lo as int),
{
    count_rank(hand, lo) >= 1 && count_rank(hand, lo + 1) >= 1 && count_rank(hand, lo + 2) >= 1
        && count_rank(hand, lo + 3) >= 1 && count_rank(hand, lo + 4) >= 1
}

pub fn is_straight(hand: &Vec<Card>) -> (b: bool)
    ensures
        b == spec_is_straight(hand@),
{
    let mut lo: u8 = 2;
    while lo <= 10
        invariant
            2 <= lo <= 11,
            forall|k: int| 2 <= k < lo ==> !straight_at(hand@, k),
        decreases 11 - lo,
    {
        if straight_from(hand, lo) {
            return true;
        }
        lo = lo + 1;
    }
    false
}

/// The five cards of suit `s` with ranks `lo` through `lo + 4` are all present.
fn straight_flush_from(hand: &Vec<Card>, lo: u8, s: u8) -> (b: bool)
    requires
        lo <= 250,
    ensures
        b == straight_flush_at(hand@, lo as int, s as int),
{
    contains_card(hand, lo, s) && contains_card(hand, lo + 1, s) && contains_card(hand, lo + 2, s)
        && contains_card(hand, lo + 3, s) && contains_card(hand, lo + 4, s)
}

pub fn is_straight_flush(hand: &Vec<Card>) -> (b: bool)
    ensures
        b == spec_is_straight_flush(hand@),
{
    let mut s: u8 = 1;
    while s <= 4
        invariant
            1 <= s <= 5,
            forall|a: int, b: int| 2 <= a <= 10 && 1 <= b < s ==> !straight_flush_at(hand@, a, b),
        decreases 5 - s,
    {
        let mut lo: u8 = 2;
        while lo <= 10
            invariant
                1 <= s <= 4,
                2 <= lo <= 11,
                forall|a: int, b: int| 2 <= a <= 10 && 1 <= b < s ==> !straight_flush_at(
                    hand@,
                    a,
                    b,
                ),
                forall|a: int| 2 <= a < lo ==> !straight_flush_at(hand@, a, s as int),
            decreases 11 - lo,
        {
            if straight_flush_from(hand, lo, s) {
                return true;
            }
            lo = lo + 1;
        }
        s = s + 1;
    }
    false
}

pub fn is_royal_flush(hand: &Vec<Card>) -> (b: bool)
    ensures
        b == spec_is_royal_flush(hand@),
{
    let mut s: u8 = 1;
    while s <= 4
        invariant
            1 <= s <= 5,
            forall|k: int| 1 <= k < s ==> !royal_at(hand@, k),
        decreases 5 - s,
    {
        if straight_flush_from(hand, 10, s) {
            proof {
                assert(royal_at(hand@, s as int));
            }
            return true;
        }
        s = s + 1;
    }
    false
}

/// Classifies a hand: evaluates the category predicates from best to worst
/// and returns the first that the hand satisfies.
pub fn handle_the_hand(hand: &Vec<Card>) -> (c: Category)
    ensures
        c == spec_classify(hand@),
{
    if is_royal_flush(hand) {
        Category::RoyalFlush
    } else if is_straight_flush(hand) {
        Category::StraightFlush
    } else if is_four_of_a_kind(hand) {
        Category::FourOfAKind
    } else if is_full_house(hand) {
        Category::FullHouse
    } else if is_flush(hand) {
        Category::Flush
    } else if is_straight(hand) {
        Category::Straight
    } else if is_three_of_a_kind(hand) {
        Category::ThreeOfAKind
    } else if is_two_pairs(hand) {
        Category::TwoPair
    } else if is_pair(hand) {
        Category::Pair
    } else {
        Category::HighCard
    }
}

/// The display name of each category.
pub open spec fn spec_name(c: Category) -> Seq<char> {
    match c {
        Category::RoyalFlush => "Royal Flush"@,
        Category::StraightFlush => "Straight Flush"@,
        Category::FourOfAKind => "Four of a Kind"@,
        Category::FullHouse => "Full House"@,
        Category::Flush => "Flush"@,
        Category::Straight => "Straight"@,
        Category::ThreeOfAKind => "Three of a Kind"@,
        Category::TwoPair => "Two Pairs"@,
        Category::Pair => "Pair"@,
        Category::HighCard => "High Card"@,
    }
}

impl Category {
    /// The category's display name.
    pub fn name(&self) -> (s: &'static str)
        ensures
            s@ == spec_name(*self),
    {
        match self {
            Category::RoyalFlush => "Royal Flush",
            Category::StraightFlush => "Straight Flush",
            Category::FourOfAKind => "Four of a Kind",
            Category::FullHouse => "Full House",
            Category::Flush => "Flush",
            Category::Straight => "Straight",
            Category::ThreeOfAKind => "Three of a Kind",
            Category::TwoPair => "Two Pairs",
            Category::Pair => "Pair",
            Category::HighCard => "High Card",
        }
    }
}

} // verus!
