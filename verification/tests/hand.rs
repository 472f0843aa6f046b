use scoring::hand::{Hand, Rank};

fn hand_of(ranks: &[Rank]) -> Hand {
    let mut hand = Hand::new();
    for rank in ranks {
        hand.append(*rank);
    }
    hand
}

#[test]
fn empty_hand_is_worth_zero() {
    let hand = Hand::new();
    assert_eq!(hand.value(), 0);
    assert!(!hand.is_bust());
}

#[test]
fn hand_without_aces_is_the_fixed_sum() {
    assert_eq!(hand_of(&[Rank::Two, Rank::Five, Rank::Nine]).value(), 16);
    assert_eq!(hand_of(&[Rank::Nine, Rank::Two, Rank::Five]).value(), 16);
    assert_eq!(hand_of(&[Rank::Five, Rank::Nine, Rank::Two]).value(), 16);
}

#[test]
fn court_cards_and_ten_count_ten() {
    assert_eq!(hand_of(&[Rank::Ten, Rank::Jack]).value(), 20);
    assert_eq!(hand_of(&[Rank::Queen, Rank::King]).value(), 20);
}

#[test]
fn single_ace_counts_eleven() {
    assert_eq!(hand_of(&[Rank::Queen, Rank::Ace]).value(), 21);
}

#[test]
fn multiple_aces_demote_correctly() {
    // Queen(10) + Ace(11) reaches 21; a second Ace would bust, so both
    // Aces end up counting 1: 10 + 1 + 1.
    assert_eq!(hand_of(&[Rank::Queen, Rank::Ace, Rank::Ace]).value(), 12);
}

#[test]
fn full_demotion_can_still_bust() {
    let hand = hand_of(&[Rank::King, Rank::King, Rank::Ace, Rank::Ace]);
    assert_eq!(hand.value(), 22);
    assert!(hand.is_bust());
}

#[test]
fn ace_rescues_a_would_be_bust() {
    assert_eq!(hand_of(&[Rank::King, Rank::Queen, Rank::Ace]).value(), 21);
}

#[test]
fn hard_bust_has_no_rescue() {
    let hand = hand_of(&[Rank::King, Rank::Seven, Rank::Five]);
    assert_eq!(hand.value(), 22);
    assert!(hand.is_bust());
}

#[test]
fn bust_agrees_with_value() {
    let hands = [
        hand_of(&[]),
        hand_of(&[Rank::Queen, Rank::Ace]),
        hand_of(&[Rank::King, Rank::Seven, Rank::Five]),
        hand_of(&[Rank::King, Rank::King, Rank::Ace, Rank::Ace]),
    ];
    for hand in hands.iter() {
        assert_eq!(hand.is_bust(), hand.value() > 21);
    }
}

#[test]
fn value_is_idempotent() {
    let hand = hand_of(&[Rank::Queen, Rank::Ace, Rank::Ace]);
    let first = hand.value();
    let second = hand.value();
    assert_eq!(first, second);
    assert_eq!(first, 12);
}

#[test]
fn value_is_order_independent_with_aces() {
    assert_eq!(hand_of(&[Rank::Ace, Rank::Queen, Rank::Ace]).value(), 12);
    assert_eq!(hand_of(&[Rank::Ace, Rank::Ace, Rank::Queen]).value(), 12);
}
