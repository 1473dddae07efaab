use poker_sim::classify::Category;
use poker_sim::engine::{run_batch, split_trials};

const ALL_CATEGORIES: [Category; 10] = [
    Category::RoyalFlush,
    Category::StraightFlush,
    Category::FourOfAKind,
    Category::FullHouse,
    Category::Flush,
    Category::Straight,
    Category::ThreeOfAKind,
    Category::TwoPair,
    Category::Pair,
    Category::HighCard,
];

#[test]
fn counts_partition_the_trials() {
    let t = run_batch(500);
    let sum: u64 = ALL_CATEGORIES.iter().map(|&c| t.get(c)).sum();
    assert_eq!(sum, 500);
    assert_eq!(t.total_count(), 500);
}

#[test]
fn empty_batch() {
    let t = run_batch(0);
    assert_eq!(t.total_count(), 0);
}

#[test]
fn split_uneven() {
    let v = split_trials(10, 3);
    assert_eq!(v.len(), 3);
    assert_eq!(v.iter().sum::<usize>(), 10);
    for &share in &v {
        assert!(share == 3 || share == 4);
    }
}

#[test]
fn split_even() {
    let v = split_trials(12, 4);
    assert_eq!(v, vec![3, 3, 3, 3]);
}

#[test]
fn split_over_one_worker() {
    let v = split_trials(9, 1);
    assert_eq!(v, vec![9]);
}

#[test]
fn split_fewer_trials_than_workers() {
    let v = split_trials(2, 5);
    assert_eq!(v.len(), 5);
    assert_eq!(v.iter().sum::<usize>(), 2);
    for &share in &v {
        assert!(share <= 1);
    }
}

#[test]
fn split_large_count() {
    let v = split_trials(1_000_000, 7);
    assert_eq!(v.len(), 7);
    assert_eq!(v.iter().sum::<usize>(), 1_000_000);
}

#[test]
fn rare_categories_stay_rare() {
    // A loose statistical guard at a small scale: over 20000 random
    // seven-card hands a royal flush (about one hand in 30000) must not
    // appear in bulk, and the commonest categories must dominate.
    let t = run_batch(20_000);
    assert!(t.get(Category::RoyalFlush) < 100);
    assert!(t.get(Category::Pair) + t.get(Category::HighCard) > 5_000);
}
