use poker_sim::card::{Card, Deck};

#[test]
fn dealt_hand_has_seven_distinct_valid_cards() {
    let mut deck = Deck::new();
    let hand = deck.deal();
    assert_eq!(hand.len(), 7);
    for c in &hand {
        assert!((2..=14).contains(&c.value));
        assert!((1..=4).contains(&c.suit));
    }
    for i in 0..hand.len() {
        for j in (i + 1)..hand.len() {
            assert_ne!(hand[i], hand[j]);
        }
    }
}

#[test]
fn dealing_does_not_change_the_deck() {
    let mut deck = Deck::new();
    let first = deck.deal();
    let second = deck.deal();
    assert_eq!(first, second);
}

#[test]
fn deck_from_given_cards_keeps_them() {
    let mut cards: Vec<Card> = Vec::new();
    for suit in 1..=4u8 {
        for value in 2..=14u8 {
            cards.push(Card::new(value, suit));
        }
    }
    let mut deck = Deck::new_from_cards(cards.clone());
    let hand = deck.deal();
    for c in &hand {
        assert!(cards.contains(c));
    }
}

#[test]
fn card_new_sets_the_fields() {
    let c = Card::new(14, 1);
    assert_eq!(c.value, 14);
    assert_eq!(c.suit, 1);
}
