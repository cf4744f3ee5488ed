use poker_utils::card::{Card, Hand, Suits};

#[test]
fn test_from_str() {
    // number
    let ranks = [
        "As", "2s", "3s", "4s", "5s", "6s", "7s", "8s", "9s", "Ts", "Js", "Qs", "Ks",
    ];
    for (i, s) in ranks.into_iter().enumerate() {
        let suit = Suits::Spades;
        let num = i as u8 + 1;
        assert_eq!(Card::from_str(s).unwrap(), Card::from(suit, num));
    }

    // suits
    let suits = [
        ("As", Suits::Spades),
        ("Ah", Suits::Hearts),
        ("Ad", Suits::Diamonds),
        ("Ac", Suits::Clubs),
    ];
    for (s, suit) in suits {
        assert_eq!(Card::from_str(s).unwrap(), Card::from(suit, 1));
    }
}

#[test]
fn test_from_strs() {
    let cards = Card::from_strs(vec!["As", "2s", "3s", "4s", "5s"]).unwrap();

    assert_eq!(
        cards,
        vec![
            Card::from(Suits::Spades, 1),
            Card::from(Suits::Spades, 2),
            Card::from(Suits::Spades, 3),
            Card::from(Suits::Spades, 4),
            Card::from(Suits::Spades, 5),
        ]
    )
}

#[test]
fn test_hand_from_str() {
    assert!(Hand::from_str("As2s3s4s5s").is_some());
}

#[test]
fn from_str_rejects_unknown_characters() {
    assert_eq!(Card::from_str("1s"), None);
    assert_eq!(Card::from_str("as"), None);
    assert_eq!(Card::from_str("AS"), None);
    assert_eq!(Card::from_str("Ax"), None);
    assert_eq!(Card::from_str("sA"), None);
}

#[test]
fn from_str_rejects_wrong_lengths() {
    assert_eq!(Card::from_str(""), None);
    assert_eq!(Card::from_str("A"), None);
    assert_eq!(Card::from_str("Ast"), None);
    assert_eq!(Card::from_str("10s"), None);
}

#[test]
fn from_str_reads_each_face() {
    assert_eq!(Card::from_str("Th"), Some(Card::from(Suits::Hearts, 10)));
    assert_eq!(Card::from_str("Jd"), Some(Card::from(Suits::Diamonds, 11)));
    assert_eq!(Card::from_str("Qd"), Some(Card::from(Suits::Diamonds, 12)));
    assert_eq!(Card::from_str("Kc"), Some(Card::from(Suits::Clubs, 13)));
    assert_eq!(Card::from_str("7c"), Some(Card::from(Suits::Clubs, 7)));
}

#[test]
fn to_string_writes_rank_then_suit() {
    assert_eq!(Card::from(Suits::Spades, 1).to_string(), "As");
    assert_eq!(Card::from(Suits::Hearts, 10).to_string(), "Th");
    assert_eq!(Card::from(Suits::Diamonds, 12).to_string(), "Qd");
    assert_eq!(Card::from(Suits::Clubs, 7).to_string(), "7c");
    assert_eq!(Card::from(Suits::Clubs, 13).to_string(), "Kc");
    assert_eq!(Card::from(Suits::Hearts, 0).to_string(), "0h");
}

#[test]
fn to_string_inverts_from_str_on_every_card() {
    for rank in "A23456789TJQK".chars() {
        for suit in "shdc".chars() {
            let text: String = [rank, suit].iter().collect();
            let card = Card::from_str(&text).unwrap();
            assert_eq!(card.to_string(), text);
        }
    }
}

#[test]
fn from_strs_fails_on_any_invalid_element() {
    assert_eq!(Card::from_strs(vec!["As", "Xs", "3s"]), None);
    assert_eq!(Card::from_strs(vec!["Xs"]), None);
    assert_eq!(Card::from_strs(vec!["As", "2s", "3"]), None);
    assert_eq!(Card::from_strs(vec![]), Some(vec![]));
    assert_eq!(
        Card::from_strs(vec!["Kc", "Ah"]),
        Some(vec![Card::from(Suits::Clubs, 13), Card::from(Suits::Hearts, 1)])
    );
}

#[test]
fn hand_from_str_keeps_text_order() {
    let hand = Hand::from_str("Kc2dAhTs9s").unwrap();
    assert_eq!(
        hand.cards,
        vec![
            Card::from(Suits::Clubs, 13),
            Card::from(Suits::Diamonds, 2),
            Card::from(Suits::Hearts, 1),
            Card::from(Suits::Spades, 10),
            Card::from(Suits::Spades, 9),
        ]
    );
}

#[test]
fn hand_from_str_rejects_bad_text() {
    assert!(Hand::from_str("As2s3s4s").is_none());
    assert!(Hand::from_str("As2s3s4s5s6s").is_none());
    assert!(Hand::from_str("As2s3s4s5x").is_none());
    assert!(Hand::from_str("As2s3s4s5").is_none());
    assert!(Hand::from_str("").is_none());
    assert!(Hand::from_str("As2s3s4sé").is_none());
}
