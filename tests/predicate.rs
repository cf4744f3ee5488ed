use poker_utils::card::{Card, Hand};
use poker_utils::predicate::{
    is_flush, is_foru_of_a_kind, is_royal_flush, is_straight, is_straight_flush,
};

fn cards(s: &str) -> Vec<Card> {
    Hand::from_str(s).unwrap().cards
}

fn card_list(list: Vec<&str>) -> Vec<Card> {
    Card::from_strs(list).unwrap()
}

#[test]
fn test_is_flush() {
    for (s, expect) in [
        ("As2s3s4s5s", true),
        ("Ah2h3h4h5h", true),
        ("Ah2h3d4h5h", false),
    ] {
        assert_eq!(is_flush(&cards(s)), expect);
    }
}

#[test]
fn test_is_straight() {
    for (s, expect) in [
        ("As2d3c4s5s", true),
        ("4s5d6c7s8s", true),
        ("TsJsQsKsAs", true),
        ("JsQdKcAs2s", false),
        ("JsQdKcAsTs", true),
        ("3s2d4c6s5s", true),
        ("3s2d4cAs5s", true),
    ] {
        assert_eq!(is_straight(&cards(s)), expect);
    }
}

#[test]
fn test_is_straight_flush() {
    for (s, expect) in [
        ("As2s3s4s5s", true),
        ("6s2s3s4s5s", true),
        ("8s6s7s4s5s", true),
        ("JsKsQsAs2s", false),
        ("JsKsQsAsTs", true),
        ("JsKsQsAsTc", false),
        ("JcKcQcAcTc", true),
    ] {
        assert_eq!(is_straight_flush(&cards(s)), expect);
    }
}

#[test]
fn test_is_royal_flush() {
    for (s, expect) in [
        ("TsJsQsKsAs", true),
        ("ThJhQhKhAh", true),
        ("TdJdQdKdAd", true),
        // non-sorted
        ("TcJcQcKcAc", true),
        ("TcJcQcAcKc", true),
        ("TcJcAcQcKc", true),
        ("TcKcAcQcJc", true),
        // wrong suits
        ("TcKcAcQcJs", false),
        ("TcKhAcQcJs", false),
        ("TcKhAcQcJs", false),
        // wrong straight
        ("As2s3s4s5s", false),
        ("6s2s3s4s5s", false),
        ("6s7s3s4s5s", false),
        ("6s7s8s4s5s", false),
    ] {
        assert_eq!(is_royal_flush(&cards(s)), expect);
    }
}

#[test]
fn test_is_foru_of_a_kind() {
    for (s, expect) in [
        ("AsAsAsAs2s", true),
        ("5s5s5s5s2s", true),
        ("7s7s7s7s2s", true),
        ("KsKsKsKs2s", true),
        ("2sKsKsKsKs", true),
        ("2sKsKsKs2s", false),
        ("2sKsKs2s2s", false),
        ("QsKs2s2s2s", false),
    ] {
        assert_eq!(is_foru_of_a_kind(&cards(s)), expect);
    }
}

#[test]
fn flush_examples_from_lists() {
    assert!(is_flush(&card_list(vec!["As", "2s", "3s", "4s", "5s"])));
    assert!(!is_flush(&card_list(vec!["Ah", "2h", "3d", "4h", "5h"])));
}

#[test]
fn straight_examples_from_lists() {
    assert!(is_straight(&card_list(vec!["As", "2d", "3c", "4s", "5s"])));
    assert!(is_straight(&card_list(vec!["Ts", "Js", "Qd", "Kc", "As"])));
    assert!(!is_straight(&card_list(vec!["Js", "Qd", "Kc", "As", "2s"])));
}

#[test]
fn straight_needs_distinct_ranks() {
    assert!(!is_straight(&cards("2s3d4c5s5h")));
    assert!(!is_straight(&cards("2s3d4c5s7h")));
    assert!(is_straight(&cards("9sTdJcQsKh")));
}

#[test]
fn four_of_a_kind_examples_from_lists() {
    assert!(is_foru_of_a_kind(&card_list(vec!["As", "As", "As", "As", "2s"])));
    assert!(!is_foru_of_a_kind(&card_list(vec!["2s", "Ks", "Ks", "Ks", "2s"])));
    assert!(is_foru_of_a_kind(&cards("9s9h9d9c9s")));
}

#[test]
fn royal_flush_in_any_order() {
    for s in ["TcKcAcQcJc", "AcKcQcJcTc", "KdAdTdJdQd", "JhTsQsAsKs"] {
        let expect = !s.contains('h');
        assert_eq!(is_royal_flush(&cards(s)), expect);
    }
}

#[test]
fn royal_flush_accepts_king_high_straight_flush() {
    // the highest rank is the King: 9-T-J-Q-K of one suit passes too
    assert!(is_royal_flush(&cards("9sTsJsQsKs")));
    assert!(!is_royal_flush(&cards("8s9sTsJsQs")));
    assert!(!is_royal_flush(&cards("As2s3s4s5s")));
}

#[test]
fn predicates_are_false_for_four_or_six_cards() {
    let four = card_list(vec!["As", "As", "As", "As"]);
    let six = card_list(vec!["Ts", "Js", "Qs", "Ks", "As", "As"]);
    let six_quads = card_list(vec!["As", "As", "As", "As", "2s", "3s"]);
    for hand in [&four, &six, &six_quads, &Vec::new()] {
        assert!(!is_flush(hand));
        assert!(!is_straight(hand));
        assert!(!is_straight_flush(hand));
        assert!(!is_royal_flush(hand));
        assert!(!is_foru_of_a_kind(hand));
    }
}
