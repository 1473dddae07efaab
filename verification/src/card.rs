//! The card and deck model: 52 distinct cards, one per rank and suit pair,
//! and random decks whose order comes from an outside shuffle.

use vstd::prelude::*;
use rand::seq::SliceRandom;

verus! {

/// A playing card. `value` is the rank, 2 through 14, where 11 through 14
/// stand for jack, queen, king and ace. `suit` is 1 through 4.
#[derive(Clone, Copy, PartialEq, Eq, Structural, Debug)]
pub struct Card {
    pub value: u8,
    pub suit: u8,
}

/// A card drawn from a standard deck: rank 2..=14, suit 1..=4.
pub open spec fn card_ok(c: Card) -> bool {
    &&& 2 <= c.value <= 14
    &&& 1 <= c.suit <= 4
}

impl Card {
    pub fn new(value: u8, suit: u8) -> (c: Card)
        ensures
            c.value == value,
            c.suit == suit,
    {
        Card { value, suit }
    }
}

/// A deck of cards in the order they will be dealt.
#[derive(Clone, Debug)]
pub struct Deck {
    cards: Vec<Card>,
}

/// Relies on rand's `SliceRandom::shuffle`, a Fisher-Yates loop of swaps:
/// it reorders the elements of the vector in place, so the new contents
/// are a permutation of the old.
#[verifier::external_body]
fn shuffle_cards(cards: &mut Vec<Card>)
    ensures
        final(cards)@.to_multiset() == old(cards)@.to_multiset(),
{
    cards.shuffle(&mut rand::thread_rng());
}

/// Every one of the 52 rank and suit pairs occurs in the sequence.
pub open spec fn deck_complete(s: Seq<Card>) -> bool {
    forall|v: int, u: int|
        2 <= v <= 14 && 1 <= u <= 4 ==> #[trigger] s.contains(
            Card { value: v as u8, suit: u as u8 },
        )
}

/// A permutation of a sequence of valid, pairwise distinct cards covering
/// all 52 rank and suit pairs is itself such a sequence.
proof fn lemma_permutation_keeps_deck_shape(s1: Seq<Card>, s2: Seq<Card>)
    requires
        s1.to_multiset() == s2.to_multiset(),
        forall|i: int| 0 <= i < s1.len() ==> card_ok(#[trigger] s1[i]),
        s1.no_duplicates(),
        deck_complete(s1),
    ensures
        s2.len() == s1.len(),
        forall|i: int| 0 <= i < s2.len() ==> card_ok(#[trigger] s2[i]),
        s2.no_duplicates(),
        deck_complete(s2),
{
    broadcast use vstd::seq_lib::group_to_multiset_ensures;

    assert(s1.to_multiset().len() == s1.len());
    assert(s2.to_multiset().len() == s2.len());
    assert forall|i: int| 0 <= i < s2.len() implies card_ok(#[trigger] s2[i]) by {
        assert(s2.contains(s2[i]));
        assert(s2.to_multiset().count(s2[i]) > 0);
        assert(s1.contains(s2[i]));
        let j = choose|j: int| 0 <= j < s1.len() && s1[j] == s2[i];
        assert(card_ok(s1[j]));
    }
    s1.lemma_multiset_has_no_duplicates();
    assert forall|x: Card| s2.to_multiset().contains(x) implies s2.to_multiset().count(x) == 1 by {
        assert(s1.to_multiset().contains(x));
    }
    s2.lemma_multiset_has_no_duplicates_conv();
    assert forall|v: int, u: int| 2 <= v <= 14 && 1 <= u <= 4 implies #[trigger] s2.contains(
        Card { value: v as u8, suit: u as u8 },
    ) by {
        let c = Card { value: v as u8, suit: u as u8 };
        assert(s1.contains(c));
        assert(s1.to_multiset().count(c) > 0);
    }
}

impl View for Deck {
    type V = Seq<Card>;

    closed spec fn view(&self) -> Seq<Card> {
        self.cards@
    }
}

impl Deck {
    /// A well-formed deck: exactly 52 cards, all valid, no card twice, and
    /// every rank and suit pair present once.
    pub open spec fn wf(&self) -> bool {
        &&& self@.len() == 52
        &&& forall|i: int| 0 <= i < 52 ==> card_ok(#[trigger] self@[i])
        &&& self@.no_duplicates()
        &&& deck_complete(self@)
    }

    /// Builds the full 52-card deck, one card per rank and suit pair, in a
    /// random order.
    pub fn new() -> (d: Deck)
        ensures
            d.wf(),
    {
        let mut cards: Vec<Card> = Vec::new();
        let mut suit: u8 = 1;
        while suit <= 4
            invariant
                1 <= suit <= 5,
                cards@.len() == (suit - 1) * 13,
                forall|i: int| 0 <= i < cards@.len() ==> card_ok(#[trigger] cards@[i]),
                forall|i: int| 0 <= i < cards@.len() ==> (#[trigger] cards@[i]).suit < suit,
                cards@.no_duplicates(),
                forall|v: int, u: int|
                    2 <= v <= 14 && 1 <= u < suit ==> #[trigger] cards@.contains(
                        Card { value: v as u8, suit: u as u8 },
                    ),
            decreases 5 - suit,
        {
            let mut value: u8 = 2;
            while value <= 14
                invariant
                    1 <= suit <= 4,
                    2 <= value <= 15,
                    cards@.len() == (suit - 1) * 13 + (value - 2),
                    forall|i: int| 0 <= i < cards@.len() ==> card_ok(#[trigger] cards@[i]),
                    forall|i: int| 0 <= i < cards@.len() ==> ((#[trigger] cards@[i]).suit < suit
                        || (cards@[i].suit == suit && cards@[i].value < value)),
                    cards@.no_duplicates(),
                    forall|v: int, u: int|
                        2 <= v <= 14 && 1 <= u <= 4 && (u < suit || (u == suit && v < value))
                            ==> #[trigger] cards@.contains(
                            Card { value: v as u8, suit: u as u8 },
                        ),
                decreases 15 - value,
            {
                let ghost prev = cards@;
                cards.push(Card { value, suit });
                proof {
                    assert forall|v: int, u: int|
                        2 <= v <= 14 && 1 <= u <= 4 && (u < suit || (u == suit && v < value
                            + 1)) implies #[trigger] cards@.contains(
                        Card { value: v as u8, suit: u as u8 },
                    ) by {
                        let c = Card { value: v as u8, suit: u as u8 };
                        if u < suit || (u == suit && v < value) {
                            assert(prev.contains(c));
                            let j = choose|j: int| 0 <= j < prev.len() && prev[j] == c;
                            assert(cards@[j] == c);
                        } else {
                            assert(c == (Card { value, suit }));
                            assert(cards@[prev.len() as int] == c);
                        }
                    }
                }
                value = value + 1;
            }
            suit = suit + 1;
        }
        let ghost before = cards@;
        shuffle_cards(&mut cards);
        proof {
            lemma_permutation_keeps_deck_shape(before, cards@);
        }
        Deck { cards }
    }

    /// Reorders the given cards at random into a deck holding exactly them.
    pub fn new_from_cards(cards: Vec<Card>) -> (d: Deck)
        ensures
            d@.to_multiset() == cards@.to_multiset(),
    {
        let mut cards = cards;
        shuffle_cards(&mut cards);
        Deck { cards }
    }

    /// Returns the first seven cards of the deck as a hand; the deck itself
    /// is left unchanged. From a well-formed deck the hand is seven valid,
    /// pairwise distinct cards.
    pub fn deal(&mut self) -> (hand: Vec<Card>)
        requires
            old(self).wf(),
        ensures
            *final(self) == *old(self),
            hand@ == old(self)@.take(7),
            hand@.len() == 7,
            forall|i: int| 0 <= i < 7 ==> card_ok(#[trigger] hand@[i]),
            hand@.no_duplicates(),
    {
        let mut hand: Vec<Card> = Vec::new();
        let mut i: usize = 0;
        while i < 7
            invariant
                self.wf(),
                *self == *old(self),
                0 <= i <= 7,
                hand@ == self@.take(i as int),
            decreases 7 - i,
        {
            let c = self.cards[i];
            hand.push(c);
            proof {
                assert(hand@ =~= self@.take(i + 1));
            }
            i = i + 1;
        }
        proof {
            assert forall|k: int| 0 <= k < 7 implies card_ok(#[trigger] hand@[k]) by {
                assert(hand@[k] == self@[k]);
            }
            assert(hand@.no_duplicates()) by {
                assert(forall|a: int, b: int|
                    0 <= a < b < 7 ==> hand@[a] == self@[a] && hand@[b] == self@[b]);
            }
        }
        hand
    }
}

} // verus!
