//! A deck of the 52 cards that deals them in random order, each one once.
//!
//! A card of the deck is named by an identifier below 52: its suit is the
//! identifier divided by 13 (spades, hearts, diamonds, clubs), its rank the
//! remainder plus one.

use vstd::prelude::*;
use rand::rngs::ThreadRng;
use rand::Rng;
use crate::card::{Card, Suits};

verus! {

/// rand's handle on the generator of the current thread, carried as it is.
#[verifier::external_type_specification]
#[verifier::external_body]
pub struct ExThreadRng(ThreadRng);

/// Relies on rand::thread_rng: a handle on this thread's generator, freshly
/// seeded; nothing is promised of the numbers it gives.
pub assume_specification[ rand::thread_rng ]() -> ThreadRng;

/// Relies on rand::Rng::gen_range: a value drawn from `0..n`, so below `n`.
/// It panics on an empty range, which `requires` leaves out.
#[verifier::external_body]
fn random_below(rng: &mut ThreadRng, n: usize) -> (r: usize)
    requires
        n > 0,
    ensures
        r < n,
{
    rng.gen_range(0..n)
}

/// The suit of the identifiers `13 i` to `13 i + 12`.
pub open spec fn suit_of_index(i: int) -> Suits {
    if i == 0 {
        Suits::Spades
    } else if i == 1 {
        Suits::Hearts
    } else if i == 2 {
        Suits::Diamonds
    } else {
        Suits::Clubs
    }
}

/// The card that the identifier `id` names.
pub open spec fn card_of_id(id: u8) -> Card {
    Card { suit: suit_of_index(id as int / 13), num: (id % 13 + 1) as u8 }
}

/// The identifiers of a new deck: 0 to 51, in order.
pub open spec fn full_deck() -> Seq<u8> {
    Seq::new(52, |i: int| i as u8)
}

/// Dealing `card` takes the deck from `before` to `after`: one of the
/// identifiers left is taken out, and the card is the one it names.
pub open spec fn deal_step(before: Seq<u8>, after: Seq<u8>, card: Card) -> bool {
    exists|i: int|
        0 <= i < before.len() && after == before.remove(i) && card == card_of_id(
            #[trigger] before[i],
        )
}

/// The cards not dealt yet, and the generator that picks the next one.
#[derive(Debug)]
pub struct CardDeck {
    rng: ThreadRng,
    rest: Vec<u8>,
}

impl View for CardDeck {
    type V = Seq<u8>;

    /// The identifiers of the cards not dealt yet.
    closed spec fn view(&self) -> Seq<u8> {
        self.rest@
    }
}

impl Default for CardDeck {
    fn default() -> (r: CardDeck)
        ensures
            r@ == full_deck(),
            r.wf(),
    {
        Self::new()
    }
}

impl CardDeck {
    /// No identifier is left twice, and each names a card.
    pub open spec fn wf(&self) -> bool {
        &&& self@.no_duplicates()
        &&& forall|i: int| 0 <= i < self@.len() ==> #[trigger] self@[i] < 52
    }

    /// A deck that holds all 52 cards.
    pub fn new() -> (r: CardDeck)
        ensures
            r@ == full_deck(),
            r.wf(),
    {
        let mut rest: Vec<u8> = Vec::new();
        for id in 0..52u8
            invariant
                rest@ == Seq::new(id as nat, |i: int| i as u8),
        {
            rest.push(id);
        }
        assert(rest@ =~= full_deck());
        CardDeck { rng: rand::thread_rng(), rest }
    }

    /// Takes a freshly seeded generator; the cards left stay as they are.
    pub fn shuffle(&mut self)
        ensures
            final(self)@ == old(self)@,
    {
        self.rng = rand::thread_rng();
    }

    /// Deals one of the cards left, drawn at random; `None` once the deck
    /// is empty.
    pub fn deal(&mut self) -> (r: Option<Card>)
        requires
            old(self).wf(),
        ensures
            final(self).wf(),
            old(self)@.len() == 0 ==> r is None && final(self)@ == old(self)@,
            old(self)@.len() > 0 ==> r is Some && deal_step(old(self)@, final(self)@, r->Some_0),
    {
        if self.rest.len() == 0 {
            return None;
        }
        let ghost before = self.rest@;
        let i = random_below(&mut self.rng, self.rest.len());
        let id = self.rest.remove(i);
        assert(self.rest@ == before.remove(i as int));
        assert forall|a: int, b: int|
            0 <= a < b < self.rest@.len() implies self.rest@[a] != self.rest@[b] by {
            let a0 = if a < i { a } else { a + 1 };
            let b0 = if b < i { b } else { b + 1 };
            assert(before[a0] != before[b0]);
        }
        assert forall|k: int| 0 <= k < self.rest@.len() implies #[trigger] self.rest@[k] < 52 by {
            if k >= i {
                assert(before[k + 1] < 52);
            }
        }
        let suit = match id / 13 {
            0 => Suits::Spades,
            1 => Suits::Hearts,
            2 => Suits::Diamonds,
            _ => Suits::Clubs,
        };
        Some(Card::from(suit, id % 13 + 1))
    }

    /// The number of cards left.
    pub fn len(&self) -> (r: usize)
        ensures
            r == self@.len(),
    {
        self.rest.len()
    }

    /// Whether every card was dealt.
    pub fn is_empty(&self) -> (r: bool)
        ensures
            r == (self@.len() == 0),
    {
        self.rest.len() == 0
    }
}

/// Different identifiers name different cards.
proof fn lemma_card_of_id_injective(a: u8, b: u8)
    requires
        a < 52,
        b < 52,
        card_of_id(a) == card_of_id(b),
    ensures
        a == b,
{
    assert(a as int / 13 == b as int / 13);
}

/// What holds after the first `k` cards of `dealt` were dealt from a new deck.
spec fn dealt_so_far(decks: Seq<Seq<u8>>, dealt: Seq<Card>, k: int) -> bool {
    &&& decks[k].len() + k == 52
    &&& decks[k].no_duplicates()
    &&& forall|p: int| 0 <= p < decks[k].len() ==> #[trigger] decks[k][p] < 52
    &&& forall|id: u8|
        id < 52 ==> decks[k].contains(id) || exists|j: int|
            0 <= j < k && #[trigger] dealt[j] == card_of_id(id)
    &&& forall|j: int, p: int|
        0 <= j < k && 0 <= p < decks[k].len() ==> #[trigger] dealt[j] != #[trigger] card_of_id(
            decks[k][p],
        )
    &&& forall|j1: int, j2: int| 0 <= j1 < j2 < k ==> #[trigger] dealt[j1] != #[trigger] dealt[j2]
}

proof fn lemma_dealt_so_far(decks: Seq<Seq<u8>>, dealt: Seq<Card>, k: int)
    requires
        decks.len() == dealt.len() + 1,
        decks[0] == full_deck(),
        forall|k: int|
            0 <= k < dealt.len() ==> deal_step(#[trigger] decks[k], decks[k + 1], dealt[k]),
        0 <= k <= dealt.len(),
    ensures
        dealt_so_far(decks, dealt, k),
    decreases k,
{
    if k == 0 {
        assert forall|id: u8| id < 52 implies decks[0].contains(id) by {
            assert(decks[0][id as int] == id);
        }
    } else {
        let k0 = k - 1;
        lemma_dealt_so_far(decks, dealt, k0);
        let before = decks[k0];
        let after = decks[k];
        assert(deal_step(before, after, dealt[k0]));
        let i = choose|i: int|
            0 <= i < before.len() && after == before.remove(i) && dealt[k0] == card_of_id(
                #[trigger] before[i],
            );
        assert forall|a: int, b: int| 0 <= a < b < after.len() implies after[a] != after[b] by {
            let a0 = if a < i { a } else { a + 1 };
            let b0 = if b < i { b } else { b + 1 };
            assert(before[a0] != before[b0]);
        }
        assert forall|p: int| 0 <= p < after.len() implies #[trigger] after[p] < 52 && after[p]
            != before[i] && exists|q: int| 0 <= q < before.len() && before[q] == after[p] by {
            let q = if p < i { p } else { p + 1 };
            assert(before[q] == after[p]);
            assert(before[q] < 52);
        }
        assert forall|id: u8| id < 52 implies after.contains(id) || exists|j: int|
            0 <= j < k && #[trigger] dealt[j] == card_of_id(id) by {
            if before.contains(id) {
                let q = choose|q: int| 0 <= q < before.len() && before[q] == id;
                if q == i {
                    assert(dealt[k0] == card_of_id(id));
                } else {
                    let p = if q < i { q } else { q - 1 };
                    assert(after[p] == id);
                }
            } else {
                let j = choose|j: int| 0 <= j < k0 && #[trigger] dealt[j] == card_of_id(id);
                assert(dealt[j] == card_of_id(id));
            }
        }
        assert forall|j: int, p: int| 0 <= j < k && 0 <= p < after.len() implies dealt[j]
            != card_of_id(after[p]) by {
            let q = choose|q: int| 0 <= q < before.len() && before[q] == after[p];
            if j < k0 {
                assert(dealt[j] != card_of_id(before[q]));
            } else {
                if dealt[j] == card_of_id(after[p]) {
                    lemma_card_of_id_injective(before[i], after[p]);
                }
            }
        }
        assert forall|j1: int, j2: int| 0 <= j1 < j2 < k implies dealt[j1] != dealt[j2] by {
            if j2 == k0 {
                assert(dealt[j1] != card_of_id(before[i]));
            }
        }
    }
}

/// Dealing from a new deck until it is empty hands out 52 cards, all of
/// them different, and among them every rank of every suit.
pub proof fn lemma_deal_until_empty(decks: Seq<Seq<u8>>, dealt: Seq<Card>)
    requires
        decks.len() == dealt.len() + 1,
        decks[0] == full_deck(),
        decks.last().len() == 0,
        forall|k: int|
            0 <= k < dealt.len() ==> deal_step(#[trigger] decks[k], decks[k + 1], dealt[k]),
    ensures
        dealt.len() == 52,
        dealt.no_duplicates(),
        forall|c: Card| 1 <= c.num <= 13 ==> #[trigger] dealt.contains(c),
{
    let n = dealt.len() as int;
    lemma_dealt_so_far(decks, dealt, n);
    assert forall|c: Card| 1 <= c.num <= 13 implies #[trigger] dealt.contains(c) by {
        let id = id_of_card(c);
        assert(!decks[n].contains(id));
        let j = choose|j: int| 0 <= j < n && #[trigger] dealt[j] == card_of_id(id);
        assert(dealt[j] == c);
    }
}

/// The identifier that names a card.
proof fn id_of_card(c: Card) -> (id: u8)
    requires
        1 <= c.num <= 13,
    ensures
        id < 52,
        card_of_id(id) == c,
{
    let r = (c.num - 1) as u8;
    assert(r as int / 13 == 0 && r % 13 == r);
    match c.suit {
        Suits::Spades => r,
        Suits::Hearts => {
            assert((r + 13) as int / 13 == 1 && (r + 13) % 13 == r);
            (r + 13) as u8
        },
        Suits::Diamonds => {
            assert((r + 26) as int / 13 == 2 && (r + 26) % 13 == r);
            (r + 26) as u8
        },
        Suits::Clubs => {
            assert((r + 39) as int / 13 == 3 && (r + 39) % 13 == r);
            (r + 39) as u8
        },
    }
}

} // verus!
