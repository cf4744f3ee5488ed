//! Predicates that tell whether five cards make a given poker rank. Each of
//! them is false of a hand that is not exactly five cards.

use vstd::prelude::*;
use crate::card::Card;

verus! {

/// How many of the cards have rank `n`.
pub open spec fn num_count(cards: Seq<Card>, n: int) -> nat
    decreases cards.len(),
{
    if cards.len() == 0 {
        0
    } else {
        num_count(cards.drop_last(), n) + if cards.last().num == n {
            1nat
        } else {
            0nat
        }
    }
}

/// How many of the cards have a rank in `ranks`.
spec fn count_in(cards: Seq<Card>, ranks: Set<int>) -> nat
    decreases cards.len(),
{
    if cards.len() == 0 {
        0
    } else {
        count_in(cards.drop_last(), ranks) + if ranks.contains(cards.last().num as int) {
            1nat
        } else {
            0nat
        }
    }
}

/// Five cards, all of one suit.
pub open spec fn flush(cards: Seq<Card>) -> bool {
    cards.len() == 5 && forall|i: int, j: int|
        0 <= i < 5 && 0 <= j < 5 ==> #[trigger] cards[i].suit == #[trigger] cards[j].suit
}

/// Each of the ranks `m` to `m + 4` occurs exactly once.
pub open spec fn consecutive_at(cards: Seq<Card>, m: int) -> bool {
    &&& num_count(cards, m) == 1
    &&& num_count(cards, m + 1) == 1
    &&& num_count(cards, m + 2) == 1
    &&& num_count(cards, m + 3) == 1
    &&& num_count(cards, m + 4) == 1
}

/// Each of the ranks `m` and `m + 9` to `m + 12` occurs exactly once: with
/// `m` the Ace, this is Ten, Jack, Queen, King and Ace.
pub open spec fn ace_high_at(cards: Seq<Card>, m: int) -> bool {
    &&& num_count(cards, m) == 1
    &&& num_count(cards, m + 9) == 1
    &&& num_count(cards, m + 10) == 1
    &&& num_count(cards, m + 11) == 1
    &&& num_count(cards, m + 12) == 1
}

/// Five cards whose ranks, less the lowest of them, are 0 to 4, or 0 and 9 to 12.
pub open spec fn straight(cards: Seq<Card>) -> bool {
    cards.len() == 5 && exists|m: int|
        #![trigger consecutive_at(cards, m)]
        #![trigger ace_high_at(cards, m)]
        consecutive_at(cards, m) || ace_high_at(cards, m)
}

/// A flush that is also a straight.
pub open spec fn straight_flush(cards: Seq<Card>) -> bool {
    flush(cards) && straight(cards)
}

/// A straight flush whose highest rank is 13, the King.
pub open spec fn royal_flush(cards: Seq<Card>) -> bool {
    &&& straight_flush(cards)
    &&& exists|i: int| 0 <= i < cards.len() && #[trigger] cards[i].num == 13
    &&& forall|i: int| 0 <= i < cards.len() ==> #[trigger] cards[i].num <= 13
}

/// Five cards, four or more of them of one rank.
pub open spec fn four_of_a_kind(cards: Seq<Card>) -> bool {
    cards.len() == 5 && exists|n: int| #[trigger] num_count(cards, n) >= 4
}

proof fn lemma_num_count_bound(cards: Seq<Card>, n: int)
    ensures
        num_count(cards, n) <= cards.len(),
    decreases cards.len(),
{
    if cards.len() > 0 {
        lemma_num_count_bound(cards.drop_last(), n);
    }
}

/// A rank that is counted is the rank of one of the cards.
proof fn lemma_counted_rank_is_held(cards: Seq<Card>, n: int)
    requires
        num_count(cards, n) > 0,
    ensures
        exists|i: int| 0 <= i < cards.len() && #[trigger] cards[i].num == n,
    decreases cards.len(),
{
    if cards.last().num != n {
        lemma_counted_rank_is_held(cards.drop_last(), n);
        let i = choose|i: int| 0 <= i < cards.len() - 1 && #[trigger] cards.drop_last()[i].num == n;
        assert(cards[i] == cards.drop_last()[i]);
    } else {
        assert(cards[cards.len() - 1].num == n);
    }
}

proof fn lemma_count_in_insert(cards: Seq<Card>, ranks: Set<int>, n: int)
    requires
        !ranks.contains(n),
    ensures
        count_in(cards, ranks.insert(n)) == count_in(cards, ranks) + num_count(cards, n),
    decreases cards.len(),
{
    if cards.len() > 0 {
        lemma_count_in_insert(cards.drop_last(), ranks, n);
    }
}

proof fn lemma_count_in_empty(cards: Seq<Card>)
    ensures
        count_in(cards, Set::empty()) == 0,
    decreases cards.len(),
{
    if cards.len() > 0 {
        lemma_count_in_empty(cards.drop_last());
    }
}

/// Where every card is counted, every rank is in the set.
proof fn lemma_count_in_all(cards: Seq<Card>, ranks: Set<int>)
    ensures
        count_in(cards, ranks) <= cards.len(),
        count_in(cards, ranks) == cards.len() ==> forall|i: int|
            0 <= i < cards.len() ==> ranks.contains(#[trigger] cards[i].num as int),
    decreases cards.len(),
{
    if cards.len() > 0 {
        let rest = cards.drop_last();
        lemma_count_in_all(rest, ranks);
        if count_in(cards, ranks) == cards.len() {
            assert forall|i: int| 0 <= i < cards.len() implies ranks.contains(
                #[trigger] cards[i].num as int,
            ) by {
                if i < cards.len() - 1 {
                    assert(cards[i] == rest[i]);
                }
            }
        }
    }
}

/// The number of cards of rank `num`.
fn get_num_count(cards: &Vec<Card>, num: u32) -> (r: usize)
    ensures
        r == num_count(cards@, num as int),
{
    let mut r: usize = 0;
    for i in 0..cards.len()
        invariant
            r == num_count(cards@.subrange(0, i as int), num as int),
    {
        proof {
            lemma_num_count_bound(cards@.subrange(0, i as int), num as int);
            assert(cards@.subrange(0, i + 1).drop_last() =~= cards@.subrange(0, i as int));
        }
        if cards[i].num as u32 == num {
            r = r + 1;
        }
    }
    assert(cards@.subrange(0, cards@.len() as int) =~= cards@);
    r
}

/// Flush predication
///
/// flush: five cards of one suit
pub fn is_flush(cards: &Vec<Card>) -> (r: bool)
    ensures
        r == flush(cards@),
{
    if cards.len() != 5 {
        return false;
    }
    for i in 1..5usize
        invariant
            cards@.len() == 5,
            forall|j: int| 0 <= j < i ==> #[trigger] cards@[j].suit == cards@[0].suit,
    {
        if cards[i].suit != cards[i - 1].suit {
            return false;
        }
    }
    true
}

/// Straight predication
///
/// straight: five cards whose ranks follow one another, the Ace low
/// (A2345) or high (TJQKA)
pub fn is_straight(cards: &Vec<Card>) -> (r: bool)
    ensures
        r == straight(cards@),
{
    if cards.len() != 5 {
        return false;
    }
    for i in 0..5usize
        invariant
            cards@.len() == 5,
            forall|j: int|
                0 <= j < i ==> !consecutive_at(cards@, #[trigger] cards@[j].num as int)
                    && !ace_high_at(cards@, cards@[j].num as int),
    {
        let m = cards[i].num as u32;
        let low = get_num_count(cards, m) == 1;
        let consecutive = low && get_num_count(cards, m + 1) == 1 && get_num_count(cards, m + 2)
            == 1 && get_num_count(cards, m + 3) == 1 && get_num_count(cards, m + 4) == 1;
        let ace_high = low && get_num_count(cards, m + 9) == 1 && get_num_count(cards, m + 10)
            == 1 && get_num_count(cards, m + 11) == 1 && get_num_count(cards, m + 12) == 1;
        if consecutive || ace_high {
            assert(consecutive_at(cards@, m as int) || ace_high_at(cards@, m as int));
            return true;
        }
    }
    assert forall|m: int| !consecutive_at(cards@, m) && !ace_high_at(cards@, m) by {
        if num_count(cards@, m) > 0 {
            lemma_counted_rank_is_held(cards@, m);
        }
    }
    false
}

/// Straight Flush predication
pub fn is_straight_flush(cards: &Vec<Card>) -> (r: bool)
    ensures
        r == straight_flush(cards@),
{
    is_flush(cards) && is_straight(cards)
}

/// Royal Flush predication
pub fn is_royal_flush(cards: &Vec<Card>) -> (r: bool)
    ensures
        r == royal_flush(cards@),
{
    if !is_straight_flush(cards) {
        return false;
    }
    let mut max = cards[0].num;
    for i in 1..5usize
        invariant
            cards@.len() == 5,
            forall|j: int| 0 <= j < i ==> #[trigger] cards@[j].num <= max,
            exists|j: int| 0 <= j < i && #[trigger] cards@[j].num == max,
    {
        if cards[i].num > max {
            max = cards[i].num;
        }
    }
    max == 13
}

/// Four of a Kind predication
pub fn is_foru_of_a_kind(cards: &Vec<Card>) -> (r: bool)
    ensures
        r == four_of_a_kind(cards@),
{
    if cards.len() != 5 {
        return false;
    }
    for i in 0..5usize
        invariant
            cards@.len() == 5,
            forall|j: int| 0 <= j < i ==> num_count(cards@, #[trigger] cards@[j].num as int) < 4,
    {
        if get_num_count(cards, cards[i].num as u32) >= 4 {
            return true;
        }
    }
    assert forall|n: int| #[trigger] num_count(cards@, n) < 4 by {
        if num_count(cards@, n) > 0 {
            lemma_counted_rank_is_held(cards@, n);
        }
    }
    false
}

/// None of the ranks is made by fewer or more than five cards.
pub proof fn lemma_only_five_cards_rank(cards: Seq<Card>)
    requires
        cards.len() != 5,
    ensures
        !flush(cards),
        !straight(cards),
        !straight_flush(cards),
        !royal_flush(cards),
        !four_of_a_kind(cards),
{
}

/// Five cards that hold each of five different ranks once hold no other rank.
proof fn lemma_five_ranks_cover(cards: Seq<Card>, a: int, b: int, c: int, d: int, e: int)
    requires
        cards.len() == 5,
        a != b && a != c && a != d && a != e,
        b != c && b != d && b != e,
        c != d && c != e,
        d != e,
        num_count(cards, a) == 1,
        num_count(cards, b) == 1,
        num_count(cards, c) == 1,
        num_count(cards, d) == 1,
        num_count(cards, e) == 1,
    ensures
        forall|i: int|
            0 <= i < 5 ==> set![a, b, c, d, e].contains(#[trigger] cards[i].num as int),
{
    lemma_count_in_empty(cards);
    lemma_count_in_insert(cards, Set::empty(), a);
    lemma_count_in_insert(cards, set![a], b);
    lemma_count_in_insert(cards, set![a, b], c);
    lemma_count_in_insert(cards, set![a, b, c], d);
    lemma_count_in_insert(cards, set![a, b, c, d], e);
    lemma_count_in_all(cards, set![a, b, c, d, e]);
}

/// Ten, Jack, Queen, King and Ace of one suit make a royal flush, in
/// whatever order they come.
pub proof fn lemma_royal_flush_any_order(cards: Seq<Card>)
    requires
        cards.len() == 5,
        forall|i: int, j: int|
            0 <= i < 5 && 0 <= j < 5 ==> #[trigger] cards[i].suit == #[trigger] cards[j].suit,
        num_count(cards, 1) == 1,
        num_count(cards, 10) == 1,
        num_count(cards, 11) == 1,
        num_count(cards, 12) == 1,
        num_count(cards, 13) == 1,
    ensures
        royal_flush(cards),
{
    assert(ace_high_at(cards, 1));
    lemma_counted_rank_is_held(cards, 13);
    lemma_five_ranks_cover(cards, 1, 10, 11, 12, 13);
}

/// Among cards of ranks 1 to 13, the royal flushes are the flushes of
/// Ten to Ace and the flushes of Nine to King: both are straight flushes
/// whose highest rank is the King.
pub proof fn lemma_royal_flush_exactly(cards: Seq<Card>)
    requires
        forall|i: int| 0 <= i < cards.len() ==> 1 <= #[trigger] cards[i].num <= 13,
    ensures
        royal_flush(cards) <==> flush(cards) && (ace_high_at(cards, 1) || consecutive_at(
            cards,
            9,
        )),
{
    if flush(cards) && ace_high_at(cards, 1) {
        lemma_royal_flush_any_order(cards);
    }
    if flush(cards) && consecutive_at(cards, 9) {
        lemma_counted_rank_is_held(cards, 13);
        lemma_five_ranks_cover(cards, 9, 10, 11, 12, 13);
    }
    if royal_flush(cards) {
        let m = choose|m: int| consecutive_at(cards, m) || ace_high_at(cards, m);
        let k = choose|k: int| 0 <= k < cards.len() && #[trigger] cards[k].num == 13;
        if consecutive_at(cards, m) {
            lemma_five_ranks_cover(cards, m, m + 1, m + 2, m + 3, m + 4);
            lemma_counted_rank_is_held(cards, m + 4);
            assert(set![m, m + 1, m + 2, m + 3, m + 4].contains(cards[k].num as int));
            assert(m == 9);
        } else {
            lemma_five_ranks_cover(cards, m, m + 9, m + 10, m + 11, m + 12);
            lemma_counted_rank_is_held(cards, m + 12);
            lemma_counted_rank_is_held(cards, m);
            assert(m == 1);
        }
    }
}

} // verus!
