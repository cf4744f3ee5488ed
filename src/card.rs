//! Cards and hands, and their text form: a rank character followed by a
//! suit character (`As`, `Th`, `Qd`, `7c`).

use vstd::prelude::*;
use vstd::string::*;

verus! {

#[derive(Debug, PartialEq, Eq, Structural, Clone, Copy, Hash)]
pub enum Suits {
    Spades,
    Hearts,
    Diamonds,
    Clubs,
}

/// A playing card. `num` is the rank: 1 for the Ace, 2 to 10, then 11, 12
/// and 13 for Jack, Queen and King; 0 stands for an unknown rank.
#[derive(Debug, PartialEq, Eq, Structural, Clone, Copy, Hash)]
pub struct Card {
    pub suit: Suits,
    pub num: u8,
}

/// The rank that a rank character stands for.
pub open spec fn rank_of_char(c: char) -> Option<u8> {
    match c {
        'A' => Some(1u8),
        '2' => Some(2u8),
        '3' => Some(3u8),
        '4' => Some(4u8),
        '5' => Some(5u8),
        '6' => Some(6u8),
        '7' => Some(7u8),
        '8' => Some(8u8),
        '9' => Some(9u8),
        'T' => Some(10u8),
        'J' => Some(11u8),
        'Q' => Some(12u8),
        'K' => Some(13u8),
        _ => None,
    }
}

/// The suit that a suit character stands for.
pub open spec fn suit_of_char(c: char) -> Option<Suits> {
    match c {
        's' => Some(Suits::Spades),
        'h' => Some(Suits::Hearts),
        'd' => Some(Suits::Diamonds),
        'c' => Some(Suits::Clubs),
        _ => None,
    }
}

/// The card that a text stands for: exactly a rank character and a suit character.
pub open spec fn parse_card(s: Seq<char>) -> Option<Card> {
    if s.len() == 2 && rank_of_char(s[0]) is Some && suit_of_char(s[1]) is Some {
        Some(Card { suit: suit_of_char(s[1])->Some_0, num: rank_of_char(s[0])->Some_0 })
    } else {
        None
    }
}

/// The character written for a rank; the unknown rank 0 is written `0`.
pub open spec fn rank_char(num: u8) -> char {
    match num {
        1 => 'A',
        2 => '2',
        3 => '3',
        4 => '4',
        5 => '5',
        6 => '6',
        7 => '7',
        8 => '8',
        9 => '9',
        10 => 'T',
        11 => 'J',
        12 => 'Q',
        13 => 'K',
        _ => '0',
    }
}

/// The character written for a suit.
pub open spec fn suit_char(suit: Suits) -> char {
    match suit {
        Suits::Spades => 's',
        Suits::Hearts => 'h',
        Suits::Diamonds => 'd',
        Suits::Clubs => 'c',
    }
}

/// The text of a card: its rank character, then its suit character.
pub open spec fn card_text(c: Card) -> Seq<char> {
    seq![rank_char(c.num), suit_char(c.suit)]
}

fn parse_rank(c: char) -> (r: Option<u8>)
    ensures
        r == rank_of_char(c),
{
    match c {
        'A' => Some(1),
        '2' => Some(2),
        '3' => Some(3),
        '4' => Some(4),
        '5' => Some(5),
        '6' => Some(6),
        '7' => Some(7),
        '8' => Some(8),
        '9' => Some(9),
        'T' => Some(10),
        'J' => Some(11),
        'Q' => Some(12),
        'K' => Some(13),
        _ => None,
    }
}

fn parse_suit(c: char) -> (r: Option<Suits>)
    ensures
        r == suit_of_char(c),
{
    match c {
        's' => Some(Suits::Spades),
        'h' => Some(Suits::Hearts),
        'd' => Some(Suits::Diamonds),
        'c' => Some(Suits::Clubs),
        _ => None,
    }
}

/// The card written as the rank character `rank` and the suit character `suit`.
fn parse_pair(rank: char, suit: char) -> (r: Option<Card>)
    ensures
        r == parse_card(seq![rank, suit]),
{
    let ghost s = seq![rank, suit];
    assert(s[0] == rank && s[1] == suit);
    let suit = match parse_suit(suit) {
        Some(x) => x,
        None => return None,
    };
    let num = match parse_rank(rank) {
        Some(x) => x,
        None => return None,
    };
    Some(Card::from(suit, num))
}

impl Card {
    pub fn from(suit: Suits, num: u8) -> (r: Card)
        ensures
            r == (Card { suit, num }),
    {
        Card { suit, num }
    }

    /// Reads a card from its text, `None` unless the text is exactly a rank
    /// character and a suit character.
    pub fn from_str(s: &str) -> (r: Option<Card>)
        ensures
            r == parse_card(s@),
    {
        if s.unicode_len() != 2 {
            return None;
        }
        let rank = s.get_char(0);
        let suit = s.get_char(1);
        assert(s@ =~= seq![rank, suit]);
        parse_pair(rank, suit)
    }

    /// Reads every text of `list` as a card, in order; `None` as soon as one
    /// of them is not a card.
    pub fn from_strs(list: Vec<&str>) -> (r: Option<Vec<Card>>)
        ensures
            r is None <==> exists|i: int| 0 <= i < list@.len() && #[trigger] parse_card(list@[i]@) is None,
            r is Some ==> r->Some_0@ == list@.map_values(|t: &str| parse_card(t@)->Some_0),
    {
        let mut cards: Vec<Card> = Vec::new();
        for i in 0..list.len()
            invariant
                cards@.len() == i,
                forall|j: int| 0 <= j < i ==> parse_card(#[trigger] list@[j]@) is Some,
                forall|j: int| 0 <= j < i ==> #[trigger] cards@[j] == parse_card(list@[j]@)->Some_0,
        {
            match Card::from_str(list[i]) {
                Some(c) => cards.push(c),
                None => return None,
            }
        }
        assert(cards@ =~= list@.map_values(|t: &str| parse_card(t@)->Some_0));
        Some(cards)
    }

    /// The text of the card: its rank character, then its suit character.
    pub fn to_string(&self) -> (r: String)
        requires
            self.num <= 13,
        ensures
            r@ == card_text(*self),
    {
        let mut r = String::from_str(rank_text(self.num));
        r.append(suit_text(self.suit));
        assert(r@ =~= card_text(*self));
        r
    }
}

fn rank_text(num: u8) -> (r: &'static str)
    requires
        num <= 13,
    ensures
        r@ =~= seq![rank_char(num)],
{
    proof {
        reveal_strlit("A");
        reveal_strlit("2");
        reveal_strlit("3");
        reveal_strlit("4");
        reveal_strlit("5");
        reveal_strlit("6");
        reveal_strlit("7");
        reveal_strlit("8");
        reveal_strlit("9");
        reveal_strlit("T");
        reveal_strlit("J");
        reveal_strlit("Q");
        reveal_strlit("K");
        reveal_strlit("0");
    }
    match num {
        1 => "A",
        2 => "2",
        3 => "3",
        4 => "4",
        5 => "5",
        6 => "6",
        7 => "7",
        8 => "8",
        9 => "9",
        10 => "T",
        11 => "J",
        12 => "Q",
        13 => "K",
        _ => "0",
    }
}

fn suit_text(suit: Suits) -> (r: &'static str)
    ensures
        r@ =~= seq![suit_char(suit)],
{
    proof {
        reveal_strlit("s");
        reveal_strlit("h");
        reveal_strlit("d");
        reveal_strlit("c");
    }
    match suit {
        Suits::Spades => "s",
        Suits::Hearts => "h",
        Suits::Diamonds => "d",
        Suits::Clubs => "c",
    }
}

/// Reading the text of a card gives the card back.
pub proof fn lemma_parse_card_text(c: Card)
    requires
        1 <= c.num <= 13,
    ensures
        parse_card(card_text(c)) == Some(c),
{
}

/// Writing a card read from a rank character and a suit character gives
/// the same two characters back.
pub proof fn lemma_card_text_round_trip(s: Seq<char>)
    requires
        s.len() == 2,
        rank_of_char(s[0]) is Some,
        suit_of_char(s[1]) is Some,
    ensures
        parse_card(s) is Some,
        card_text(parse_card(s)->Some_0) == s,
{
    assert(card_text(parse_card(s)->Some_0) =~= s);
}

/// The two characters of card `k` in a hand's text.
pub open spec fn chunk(s: Seq<char>, k: int) -> Seq<char> {
    s.subrange(2 * k, 2 * k + 2)
}

/// The cards of a hand's text: exactly ten characters, five cards of two
/// characters each, in the order they are written.
pub open spec fn parse_hand(s: Seq<char>) -> Option<Seq<Card>> {
    if s.len() == 10 && forall|k: int| 0 <= k < 5 ==> #[trigger] parse_card(chunk(s, k)) is Some {
        Some(Seq::new(5, |k: int| parse_card(chunk(s, k))->Some_0))
    } else {
        None
    }
}

/// The ranks of a poker hand, highest first.
pub enum HandRank {
    RoyalFlush,
    StraightFlush,
    FourOfAKind,
    FullHouse,
    Flush,
    Straight,
    ThreeOfAKind,
    TwoPair,
    OnePair,
    HighCard,
}

/// Five cards, in the order they were given.
#[derive(Debug)]
pub struct Hand {
    pub cards: Vec<Card>,
}

impl Hand {
    /// Reads a hand from the text of its five cards; `None` unless the text
    /// is ten characters that make five cards.
    pub fn from_str(s: &str) -> (r: Option<Hand>)
        ensures
            r is None <==> parse_hand(s@) is None,
            r is Some ==> r->Some_0.cards@ == parse_hand(s@)->Some_0,
            r is Some ==> r->Some_0.cards@.len() == 5,
    {
        if s.unicode_len() != 10 {
            return None;
        }
        let mut cards: Vec<Card> = Vec::new();
        for k in 0..5usize
            invariant
                s@.len() == 10,
                cards@.len() == k,
                forall|j: int| 0 <= j < k ==> #[trigger] parse_card(chunk(s@, j)) is Some,
                forall|j: int| 0 <= j < k ==> #[trigger] cards@[j] == parse_card(chunk(s@, j))->Some_0,
        {
            let rank = s.get_char(2 * k);
            let suit = s.get_char(2 * k + 1);
            assert(chunk(s@, k as int) =~= seq![rank, suit]);
            match parse_pair(rank, suit) {
                Some(c) => cards.push(c),
                None => return None,
            }
        }
        assert(cards@ =~= parse_hand(s@)->Some_0);
        Some(Hand { cards })
    }
}

} // verus!
