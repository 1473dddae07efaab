use poker_sim::card::Card;
use poker_sim::classify::{
    handle_the_hand, is_flush, is_four_of_a_kind, is_full_house, is_pair, is_royal_flush,
    is_straight, is_straight_flush, is_three_of_a_kind, is_two_pairs, Category,
};

// Suits: 1 = spades, 2 = hearts, 3 = diamonds, 4 = clubs.
fn hand(cards: &[(u8, u8)]) -> Vec<Card> {
    cards.iter().map(|&(value, suit)| Card::new(value, suit)).collect()
}

#[test]
fn pair_hand() {
    let h = hand(&[(2, 1), (2, 2), (5, 3), (9, 4), (11, 1), (13, 2), (14, 3)]);
    assert_eq!(handle_the_hand(&h), Category::Pair);
}

#[test]
fn three_of_a_kind_hand() {
    let h = hand(&[(2, 1), (2, 2), (2, 3), (5, 3), (9, 4), (11, 1), (13, 2)]);
    assert_eq!(handle_the_hand(&h), Category::ThreeOfAKind);
}

#[test]
fn two_pair_hand() {
    let h = hand(&[(2, 1), (2, 2), (5, 3), (5, 4), (9, 4), (11, 1), (13, 2)]);
    assert_eq!(handle_the_hand(&h), Category::TwoPair);
}

#[test]
fn full_house_hand() {
    let h = hand(&[(2, 1), (2, 2), (2, 3), (5, 3), (5, 4), (9, 4), (11, 1)]);
    assert_eq!(handle_the_hand(&h), Category::FullHouse);
}

#[test]
fn four_of_a_kind_hand() {
    let h = hand(&[(2, 1), (2, 2), (2, 3), (2, 4), (5, 3), (9, 4), (11, 1)]);
    assert_eq!(handle_the_hand(&h), Category::FourOfAKind);
}

#[test]
fn flush_hand() {
    let h = hand(&[(2, 1), (5, 1), (7, 1), (9, 1), (11, 1), (13, 2), (14, 3)]);
    assert_eq!(handle_the_hand(&h), Category::Flush);
}

#[test]
fn straight_hand() {
    let h = hand(&[(2, 1), (3, 2), (4, 3), (5, 4), (6, 1), (9, 2), (11, 3)]);
    assert_eq!(handle_the_hand(&h), Category::Straight);
}

#[test]
fn royal_flush_beats_plain_flush_and_straight() {
    // Five consecutive spades topped by the ace: both a flush and a
    // straight, and classified by the highest matching tier only.
    let h = hand(&[(10, 1), (11, 1), (12, 1), (13, 1), (14, 1), (2, 2), (3, 3)]);
    assert!(is_flush(&h));
    assert!(is_straight(&h));
    assert_eq!(handle_the_hand(&h), Category::RoyalFlush);
}

#[test]
fn straight_flush_hand() {
    let h = hand(&[(5, 1), (6, 1), (7, 1), (8, 1), (9, 1), (2, 2), (3, 3)]);
    assert!(!is_royal_flush(&h));
    assert_eq!(handle_the_hand(&h), Category::StraightFlush);
}

#[test]
fn flush_with_straight_of_mixed_suits_is_flush() {
    // A straight 5..9 across suits and five spades, but no five
    // consecutive cards of one suit.
    let h = hand(&[(5, 1), (6, 1), (7, 1), (8, 2), (9, 1), (11, 1), (3, 3)]);
    assert!(is_flush(&h));
    assert!(is_straight(&h));
    assert!(!is_straight_flush(&h));
    assert_eq!(handle_the_hand(&h), Category::Flush);
}

#[test]
fn high_card_hand() {
    let h = hand(&[(2, 1), (4, 2), (6, 3), (8, 4), (10, 1), (12, 2), (14, 3)]);
    assert_eq!(handle_the_hand(&h), Category::HighCard);
}

#[test]
fn classification_is_order_independent() {
    let cards = [(2, 1), (2, 2), (2, 3), (5, 3), (5, 4), (9, 4), (11, 1)];
    let forward = hand(&cards);
    let mut backward_cards = cards;
    backward_cards.reverse();
    let backward = hand(&backward_cards);
    let rotated: Vec<Card> =
        (0..7).map(|i| Card::new(cards[(i + 3) % 7].0, cards[(i + 3) % 7].1)).collect();
    assert_eq!(handle_the_hand(&forward), Category::FullHouse);
    assert_eq!(handle_the_hand(&forward), handle_the_hand(&backward));
    assert_eq!(handle_the_hand(&forward), handle_the_hand(&rotated));
}

#[test]
fn classify_is_pure() {
    let h = hand(&[(2, 1), (2, 2), (5, 3), (9, 4), (11, 1), (13, 2), (14, 3)]);
    assert_eq!(handle_the_hand(&h), handle_the_hand(&h));
}

#[test]
fn predicates_on_a_plain_hand() {
    let h = hand(&[(2, 1), (4, 2), (6, 3), (8, 4), (10, 1), (12, 2), (14, 3)]);
    assert!(!is_pair(&h));
    assert!(!is_two_pairs(&h));
    assert!(!is_three_of_a_kind(&h));
    assert!(!is_four_of_a_kind(&h));
    assert!(!is_full_house(&h));
    assert!(!is_flush(&h));
    assert!(!is_straight(&h));
    assert!(!is_straight_flush(&h));
    assert!(!is_royal_flush(&h));
}

#[test]
fn three_pairs_count_as_two_pair() {
    let h = hand(&[(2, 1), (2, 2), (5, 3), (5, 4), (9, 1), (9, 2), (11, 3)]);
    assert!(is_two_pairs(&h));
    assert_eq!(handle_the_hand(&h), Category::TwoPair);
}

#[test]
fn pair_at_the_high_end_is_found() {
    let h = hand(&[(2, 1), (3, 2), (5, 3), (9, 4), (11, 1), (14, 2), (14, 3)]);
    assert!(is_pair(&h));
    assert_eq!(handle_the_hand(&h), Category::Pair);
}

#[test]
fn two_pairs_with_one_at_the_high_end() {
    let h = hand(&[(2, 1), (2, 2), (5, 3), (9, 4), (11, 1), (14, 2), (14, 3)]);
    assert!(is_two_pairs(&h));
    assert_eq!(handle_the_hand(&h), Category::TwoPair);
}

#[test]
fn full_house_is_not_two_pair() {
    let h = hand(&[(2, 1), (2, 2), (2, 3), (5, 3), (5, 4), (9, 4), (11, 1)]);
    assert!(is_full_house(&h));
    assert!(!is_two_pairs(&h));
}

#[test]
fn category_names() {
    assert_eq!(Category::RoyalFlush.name(), "Royal Flush");
    assert_eq!(Category::StraightFlush.name(), "Straight Flush");
    assert_eq!(Category::FourOfAKind.name(), "Four of a Kind");
    assert_eq!(Category::FullHouse.name(), "Full House");
    assert_eq!(Category::Flush.name(), "Flush");
    assert_eq!(Category::Straight.name(), "Straight");
    assert_eq!(Category::ThreeOfAKind.name(), "Three of a Kind");
    assert_eq!(Category::TwoPair.name(), "Two Pairs");
    assert_eq!(Category::Pair.name(), "Pair");
    assert_eq!(Category::HighCard.name(), "High Card");
}
