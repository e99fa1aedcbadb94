use playing_cards::card::Card;
use playing_cards::deck::{Deck, DeckType, Hand};
use playing_cards::rank::Rank;
use playing_cards::suit::Suit;

#[test]
fn deck_creation() {
    let french_deck = Deck::new(DeckType::FRENCH);
    assert_eq!(french_deck.len(), 52);
    let spanish_deck = Deck::new(DeckType::SPANISH);
    assert_eq!(spanish_deck.len(), 40);
}

#[test]
fn test_eq() {
    let deck = Deck::new(DeckType::FRENCH);
    let deck_copy = deck.clone();
    assert_eq!(deck, deck_copy);
}

#[test]
fn test_shuffle() {
    let deck = Deck::new(DeckType::FRENCH);
    let mut spanish_deck_copy = deck.clone();
    spanish_deck_copy.shuffle();
    assert_ne!(deck, spanish_deck_copy);
}

#[test]
fn test_pop_peek() {
    let mut deck = Deck::new(DeckType::FRENCH);
    assert!(deck.peek().is_some());
    let first_peek = *deck.peek().unwrap();
    assert_eq!(first_peek, Card::new(Rank::Ace, Suit::FrenchSpades));
    let second_peek = *deck.peek().unwrap();
    assert_eq!(first_peek, second_peek);

    let first_pop = {
        let card = deck.pop();
        assert!(card.is_some());
        card.unwrap()
    };
    assert_eq!(first_peek, first_pop);
    let second_pop = {
        let card = deck.pop();
        assert!(card.is_some());
        card.unwrap()
    };
    assert_ne!(first_pop, second_pop);
}

#[test]
fn test_pop_all_cards() {
    let mut deck = Deck::new(DeckType::FRENCH);
    let mut deck2 = Deck::new(DeckType::FRENCH);
    for _ in 0..deck.len() {
        assert!(deck.peek().is_some());
        assert!(deck2.peek().is_some());
        assert_eq!(deck.pop(), deck2.pop());
    }
    assert!(deck.pop().is_none());
    assert!(deck2.pop().is_none());
    assert!(deck.is_empty());
    assert!(deck2.is_empty());
}

#[test]
fn test_from_card_vec() {
    let deck = Deck::new(DeckType::FRENCH);
    let deck2 = Deck::from(deck.cards.clone());
    assert_eq!(deck, deck2);
}

#[test]
fn test_push_card() {
    let mut deck = Deck::new(DeckType::FRENCH);
    assert_eq!(deck.len(), 52);
    let card = Card::new(Rank::Rey, Suit::SpanishCups);
    deck.push(card.clone());
    assert_eq!(deck.len(), 53);
    assert_eq!(deck.pop().unwrap(), card);
}

#[test]
fn french_deck_order_is_suit_major() {
    let deck = Deck::new(DeckType::FRENCH);
    assert_eq!(deck.cards[0], Card::new(Rank::Two, Suit::FrenchHearts));
    assert_eq!(deck.cards[12], Card::new(Rank::Ace, Suit::FrenchHearts));
    assert_eq!(deck.cards[13], Card::new(Rank::Two, Suit::FrenchDiamonds));
    assert_eq!(deck.cards[51], Card::new(Rank::Ace, Suit::FrenchSpades));
}

#[test]
fn spanish_deck_order_keeps_three_and_one_last() {
    let mut deck = Deck::new(DeckType::SPANISH);
    assert_eq!(deck.cards[0], Card::new(Rank::Two, Suit::SpanishCups));
    assert_eq!(deck.cards[8], Card::new(Rank::Three, Suit::SpanishCups));
    assert_eq!(deck.cards[9], Card::new(Rank::One, Suit::SpanishCups));
    assert_eq!(deck.cards[10], Card::new(Rank::Two, Suit::SpanishCoins));
    assert_eq!(deck.peek(), Some(&Card::new(Rank::One, Suit::SpanishSwords)));
    assert_eq!(deck.pop(), Some(Card::new(Rank::One, Suit::SpanishSwords)));
    assert_eq!(deck.pop(), Some(Card::new(Rank::Three, Suit::SpanishSwords)));
}

#[test]
fn fresh_spanish_decks_are_equal() {
    assert_eq!(Deck::new(DeckType::SPANISH), Deck::new(DeckType::SPANISH));
    assert_ne!(Deck::new(DeckType::SPANISH), Deck::new(DeckType::FRENCH));
}

#[test]
fn empty_deck_gives_nothing() {
    let mut deck: Hand = Deck::from(Vec::new());
    assert!(deck.is_empty());
    assert_eq!(deck.len(), 0);
    assert_eq!(deck.peek(), None);
    assert_eq!(deck.pop(), None);
    assert_eq!(deck.pop(), None);
    assert!(deck.is_empty());
}

#[test]
fn hand_from_cards_keeps_order_and_duplicates() {
    let a = Card::new(Rank::Ace, Suit::FrenchSpades);
    let k = Card::new(Rank::King, Suit::FrenchHearts);
    let mut hand: Hand = Deck::from(vec![a, k, a]);
    assert_eq!(hand.cards, vec![a, k, a]);
    assert_eq!(hand.len(), 3);
    assert_eq!(hand.pop(), Some(a));
    assert_eq!(hand.pop(), Some(k));
    assert_eq!(hand.pop(), Some(a));
    assert_eq!(hand.pop(), None);
}

#[test]
fn push_then_pop_on_empty_hand() {
    let c = Card::new(Rank::Caballo, Suit::SpanishCoins);
    let mut hand = Deck::from(Vec::new());
    hand.push(c);
    assert_eq!(hand.peek(), Some(&c));
    assert_eq!(hand.pop(), Some(c));
    assert!(hand.is_empty());
}

#[test]
fn shuffle_keeps_the_same_cards() {
    let fresh = Deck::new(DeckType::SPANISH);
    let mut deck = fresh.clone();
    deck.shuffle();
    assert_eq!(deck.len(), 40);
    for card in fresh.cards.iter() {
        let before = fresh.cards.iter().filter(|c| *c == card).count();
        let after = deck.cards.iter().filter(|c| *c == card).count();
        assert_eq!(before, after);
    }
}

#[test]
fn shuffle_of_one_card_keeps_it() {
    let c = Card::new(Rank::Sota, Suit::SpanishClubs);
    let mut hand = Deck::from(vec![c]);
    hand.shuffle();
    assert_eq!(hand.cards, vec![c]);
}

#[test]
fn deck_text_joins_cards() {
    let hand = Deck::from(vec![
        Card::new(Rank::Ace, Suit::FrenchSpades),
        Card::new(Rank::King, Suit::FrenchHearts),
    ]);
    assert_eq!(hand.to_string(), "[A \u{2660}\u{fe0e}], [K \u{2665}]");
    assert_eq!(Deck::from(Vec::new()).to_string(), "");
    let one = Deck::from(vec![Card::new(Rank::Ten, Suit::SpanishCups)]);
    assert_eq!(one.to_string(), "[10 \u{1f3c6}]");
}
