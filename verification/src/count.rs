//! Counting cards by rank, by suit, and by exact identity. Every hand
//! predicate of the classifier is stated over these counts, and each count
//! depends only on the multiset of cards, never on their order.

use vstd::prelude::*;
use crate::card::Card;

verus! {

/// Holds of the cards of rank `r`.
pub open spec fn rank_pred(r: int) -> spec_fn(Card) -> bool {
    |c: Card| c.value == r
}

/// Holds of the cards of suit `s`.
pub open spec fn suit_pred(s: int) -> spec_fn(Card) -> bool {
    |c: Card| c.suit == s
}

/// Holds of the card of rank `r` and suit `s`.
pub open spec fn card_pred(r: int, s: int) -> spec_fn(Card) -> bool {
    |c: Card| c.value == r && c.suit == s
}

/// How many cards of rank `r` the hand holds.
pub open spec fn cnt_rank(h: Seq<Card>, r: int) -> nat {
    h.filter(rank_pred(r)).len()
}

/// How many cards of suit `s` the hand holds.
pub open spec fn cnt_suit(h: Seq<Card>, s: int) -> nat {
    h.filter(suit_pred(s)).len()
}

/// Whether the hand holds the card of rank `r` and suit `s`.
pub open spec fn has_card(h: Seq<Card>, r: int, s: int) -> bool {
    h.filter(card_pred(r, s)).len() >= 1
}

/// Removing one element lowers the filtered length by one exactly when the
/// element satisfies the predicate.
proof fn lemma_filter_len_remove<A>(s: Seq<A>, p: spec_fn(A) -> bool, j: int)
    requires
        0 <= j < s.len(),
    ensures
        s.filter(p).len() == s.remove(j).filter(p).len() + (if p(s[j]) {
            1int
        } else {
            0int
        }),
{
    broadcast use vstd::seq_lib::group_filter_ensures;

    let left = s.subrange(0, j);
    let mid = Seq::<A>::empty().push(s[j]);
    let right = s.subrange(j + 1, s.len() as int);
    assert(s =~= (left + mid) + right);
    assert(s.remove(j) =~= left + right);
    Seq::filter_distributes_over_add(left + mid, right, p);
    Seq::filter_distributes_over_add(left, mid, p);
    Seq::filter_distributes_over_add(left, right, p);
    Seq::<A>::empty().lemma_filter_len_push(p, s[j]);
    assert(Seq::<A>::empty().filter(p).len() <= 0);
}

/// The filtered length of a sequence depends only on its multiset: two
/// sequences holding the same cards in any orders filter to the same count.
pub proof fn lemma_filter_len_permutation<A>(s1: Seq<A>, s2: Seq<A>, p: spec_fn(A) -> bool)
    requires
        s1.to_multiset() == s2.to_multiset(),
    ensures
        s1.filter(p).len() == s2.filter(p).len(),
    decreases s1.len(),
{
    broadcast use vstd::seq_lib::group_to_multiset_ensures;
    broadcast use vstd::multiset::group_multiset_axioms;

    assert(s1.to_multiset().len() == s1.len());
    assert(s2.to_multiset().len() == s2.len());
    if s1.len() == 0 {
        assert(s1 =~= s2);
    } else {
        let e = s1.last();
        let rest = s1.drop_last();
        assert(s1 =~= rest.push(e));
        assert(s1.to_multiset() =~= rest.to_multiset().insert(e));
        assert(s2.to_multiset().count(e) > 0);
        assert(s2.contains(e));
        let j = choose|j: int| 0 <= j < s2.len() && s2[j] == e;
        assert(s2.remove(j).to_multiset() =~= s2.to_multiset().remove(e));
        assert(rest.to_multiset() =~= s2.remove(j).to_multiset()) by {
            assert forall|x: A|
                rest.to_multiset().count(x) == s2.remove(j).to_multiset().count(x) by {
                assert(s1.to_multiset().count(x) == rest.to_multiset().count(x) + (if x == e {
                    1int
                } else {
                    0int
                }));
            }
        }
        lemma_filter_len_permutation(rest, s2.remove(j), p);
        lemma_filter_len_remove(s2, p, j);
        rest.lemma_filter_len_push(p, e);
    }
}

/// All three counts of a hand stay the same under every reordering.
pub proof fn lemma_counts_permutation(h1: Seq<Card>, h2: Seq<Card>)
    requires
        h1.to_multiset() == h2.to_multiset(),
    ensures
        forall|r: int| #[trigger] cnt_rank(h1, r) == cnt_rank(h2, r),
        forall|s: int| #[trigger] cnt_suit(h1, s) == cnt_suit(h2, s),
        forall|r: int, s: int| #[trigger] has_card(h1, r, s) == has_card(h2, r, s),
{
    assert forall|r: int| #[trigger] cnt_rank(h1, r) == cnt_rank(h2, r) by {
        lemma_filter_len_permutation(h1, h2, rank_pred(r));
    }
    assert forall|s: int| #[trigger] cnt_suit(h1, s) == cnt_suit(h2, s) by {
        lemma_filter_len_permutation(h1, h2, suit_pred(s));
    }
    assert forall|r: int, s: int| #[trigger] has_card(h1, r, s) == has_card(h2, r, s) by {
        lemma_filter_len_permutation(h1, h2, card_pred(r, s));
    }
}

/// Counts how many of the cards have rank `r`.
pub fn count_rank(hand: &Vec<Card>, r: u8) -> (n: usize)
    ensures
        n == cnt_rank(hand@, r as int),
{
    broadcast use Seq::lemma_filter_len_push;
    broadcast use vstd::seq_lib::group_filter_ensures;

    let mut n: usize = 0;
    let mut i: usize = 0;
    while i < hand.len()
        invariant
            0 <= i <= hand@.len(),
            n == cnt_rank(hand@.take(i as int), r as int),
            n <= i,
        decreases hand@.len() - i,
    {
        proof {
            let pr = rank_pred(r as int);
            assert(hand@.take(i + 1) =~= hand@.take(i as int).push(hand@[i as int]));
            hand@.take(i as int).lemma_filter_len_push(pr, hand@[i as int]);
            assert(cnt_rank(hand@.take(i + 1), r as int) == cnt_rank(
                hand@.take(i as int),
                r as int,
            ) + (if pr(hand@[i as int]) {
                1int
            } else {
                0int
            }));
        }
        if hand[i].value == r {
            n = n + 1;
        }
        i = i + 1;
    }
    proof {
        assert(hand@.take(hand@.len() as int) =~= hand@);
    }
    n
}

/// Counts how many of the cards have suit `s`.
pub fn count_suit(hand: &Vec<Card>, s: u8) -> (n: usize)
    ensures
        n == cnt_suit(hand@, s as int),
{
    broadcast use Seq::lemma_filter_len_push;
    broadcast use vstd::seq_lib::group_filter_ensures;

    let mut n: usize = 0;
    let mut i: usize = 0;
    while i < hand.len()
        invariant
            0 <= i <= hand@.len(),
            n == cnt_suit(hand@.take(i as int), s as int),
            n <= i,
        decreases hand@.len() - i,
    {
        proof {
            let pr = suit_pred(s as int);
            assert(hand@.take(i + 1) =~= hand@.take(i as int).push(hand@[i as int]));
            hand@.take(i as int).lemma_filter_len_push(pr, hand@[i as int]);
            assert(cnt_suit(hand@.take(i + 1), s as int) == cnt_suit(
                hand@.take(i as int),
                s as int,
            ) + (if pr(hand@[i as int]) {
                1int
            } else {
                0int
            }));
        }
        if hand[i].suit == s {
            n = n + 1;
        }
        i = i + 1;
    }
    proof {
        assert(hand@.take(hand@.len() as int) =~= hand@);
    }
    n
}

/// Whether the hand holds the exact card of rank `r` and suit `s`.
pub fn contains_card(hand: &Vec<Card>, r: u8, s: u8) -> (b: bool)
    ensures
        b == has_card(hand@, r as int, s as int),
{
    broadcast use Seq::lemma_filter_len_push;
    broadcast use vstd::seq_lib::group_filter_ensures;

    let mut i: usize = 0;
    while i < hand.len()
        invariant
            0 <= i <= hand@.len(),
            !has_card(hand@.take(i as int), r as int, s as int),
        decreases hand@.len() - i,
    {
        proof {
            let pr = card_pred(r as int, s as int);
            assert(hand@.take(i + 1) =~= hand@.take(i as int).push(hand@[i as int]));
            hand@.take(i as int).lemma_filter_len_push(pr, hand@[i as int]);
        }
        if hand[i].value == r && hand[i].suit == s {
            proof {
                assert(has_card(hand@, r as int, s as int)) by {
                    assert(hand@[i as int] == (Card { value: r, suit: s }));
                    hand@.lemma_filter_contains(card_pred(r as int, s as int), i as int);
                    let f = hand@.filter(card_pred(r as int, s as int));
                    assert(f.contains(hand@[i as int]));
                    assert(f.len() >= 1);
                }
            }
            return true;
        }
        i = i + 1;
    }
    proof {
        assert(hand@.take(hand@.len() as int) =~= hand@);
    }
    false
}

} // verus!
