use poker_sim::classify::Category;
use poker_sim::tally::Tally;

const ALL_CATEGORIES: [Category; 10] = [
    Category::RoyalFlush,
    Category::StraightFlush,
    Category::FourOfAKind,
    Category::FullHouse,
    Category::Flush,
    Category::Straight,
    Category::ThreeOfAKind,
    Category::TwoPair,
    Category::Pair,
    Category::HighCard,
];

#[test]
fn new_tally_is_empty() {
    let t = Tally::new();
    for c in ALL_CATEGORIES {
        assert_eq!(t.get(c), 0);
    }
    assert_eq!(t.total_count(), 0);
}

#[test]
fn record_increments_one_counter() {
    let mut t = Tally::new();
    t.record(Category::Flush);
    t.record(Category::Flush);
    t.record(Category::HighCard);
    assert_eq!(t.get(Category::Flush), 2);
    assert_eq!(t.get(Category::HighCard), 1);
    assert_eq!(t.get(Category::Pair), 0);
    assert_eq!(t.total_count(), 3);
}

#[test]
fn merging_disjoint_tallies_sums_per_category() {
    let mut a = Tally::new();
    a.record(Category::RoyalFlush);
    for _ in 0..10 {
        a.record(Category::Pair);
    }
    let mut b = Tally::new();
    for _ in 0..5 {
        b.record(Category::Pair);
    }
    for _ in 0..20 {
        b.record(Category::HighCard);
    }
    a.merge(&b);
    assert_eq!(a.get(Category::RoyalFlush), 1);
    assert_eq!(a.get(Category::Pair), 15);
    assert_eq!(a.get(Category::HighCard), 20);
    for c in [
        Category::StraightFlush,
        Category::FourOfAKind,
        Category::FullHouse,
        Category::Flush,
        Category::Straight,
        Category::ThreeOfAKind,
        Category::TwoPair,
    ] {
        assert_eq!(a.get(c), 0);
    }
    assert_eq!(a.total_count(), 36);
}

#[test]
fn merge_adds_totals() {
    let mut a = Tally::new();
    for _ in 0..7 {
        a.record(Category::TwoPair);
    }
    let mut b = Tally::new();
    for _ in 0..4 {
        b.record(Category::TwoPair);
    }
    a.merge(&b);
    assert_eq!(a.get(Category::TwoPair), 11);
    assert_eq!(a.total_count(), 11);
}
