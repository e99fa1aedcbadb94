use rand::seq::SliceRandom;
use vstd::prelude::*;

use crate::card::{card_text, Card};
use crate::rank::Rank;
use crate::suit::Suit;

verus! {

/// The card-game tradition a standard deck is built for.
pub enum DeckType {
    FRENCH,
    SPANISH,
}

/// An ordered pile of cards. The end of `cards` is the top of the deck.
#[derive(Clone, Debug, Hash)]
pub struct Deck {
    pub cards: Vec<Card>,
}

/// A hand of cards is a deck by another name.
pub type Hand = Deck;

impl View for Deck {
    type V = Seq<Card>;

    open spec fn view(&self) -> Seq<Card> {
        self.cards@
    }
}

/// The ranks of a tradition, in the order a deck is built in.
pub open spec fn tradition_ranks(t: DeckType) -> Seq<Rank> {
    match t {
        DeckType::FRENCH => Rank::FRENCH_RANKS@,
        DeckType::SPANISH => Rank::SPANISH_RANKS@,
    }
}

/// The suits of a tradition, in the order a deck is built in.
pub open spec fn tradition_suits(t: DeckType) -> Seq<Suit> {
    match t {
        DeckType::FRENCH => Suit::FRENCH_SUITS@,
        DeckType::SPANISH => Suit::SPANISH_SUITS@,
    }
}

/// Every pairing of a suit with a rank, suit by suit, and within a suit rank
/// by rank.
pub open spec fn all_pairings(ranks: Seq<Rank>, suits: Seq<Suit>) -> Seq<Card> {
    Seq::new(
        suits.len() * ranks.len(),
        |k: int| Card { rank: ranks[k % ranks.len() as int], suit: suits[k / ranks.len() as int] },
    )
}

/// The cards of a fresh, unshuffled deck of a tradition, bottom to top.
pub open spec fn standard_deck(t: DeckType) -> Seq<Card> {
    all_pairings(tradition_ranks(t), tradition_suits(t))
}

/// A French deck holds 52 cards and a Spanish one 40: four suits of 13 and
/// of 10 ranks.
pub proof fn lemma_standard_deck_len(t: DeckType)
    ensures
        t is FRENCH ==> standard_deck(t).len() == 52,
        t is SPANISH ==> standard_deck(t).len() == 40,
{
    match t {
        DeckType::FRENCH => {
            assert(Rank::FRENCH_RANKS@.len() == 13);
            assert(Suit::FRENCH_SUITS@.len() == 4);
            assert(standard_deck(t).len() == 4 * 13);
        },
        DeckType::SPANISH => {
            assert(Rank::SPANISH_RANKS@.len() == 10);
            assert(Suit::SPANISH_SUITS@.len() == 4);
            assert(standard_deck(t).len() == 4 * 10);
        },
    }
}

/// The card on top of a pile, if there is one.
pub open spec fn top_card(s: Seq<Card>) -> Option<Card> {
    if s.len() > 0 {
        Some(s.last())
    } else {
        None
    }
}

/// A pile with its top card taken off; an empty pile stays empty.
pub open spec fn without_top(s: Seq<Card>) -> Seq<Card> {
    if s.len() > 0 {
        s.drop_last()
    } else {
        s
    }
}

/// The text of a pile: its cards' texts, bottom to top, joined by `", "`.
pub open spec fn deck_text(s: Seq<Card>) -> Seq<char>
    decreases s.len(),
{
    if s.len() == 0 {
        Seq::empty()
    } else if s.len() == 1 {
        card_text(s[0])
    } else {
        deck_text(s.drop_last()) + seq![',', ' '] + card_text(s.last())
    }
}

/// The pile left after popping `n` times.
pub open spec fn after_pops(s: Seq<Card>, n: nat) -> Seq<Card>
    decreases n,
{
    if n == 0 {
        s
    } else {
        after_pops(without_top(s), (n - 1) as nat)
    }
}

/// What `n` pops in a row hand out, first pop first.
pub open spec fn popped_cards(s: Seq<Card>, n: nat) -> Seq<Option<Card>>
    decreases n,
{
    if n == 0 {
        Seq::empty()
    } else {
        seq![top_card(s)] + popped_cards(without_top(s), (n - 1) as nat)
    }
}

/// Popping `n` times, no more than the pile holds, leaves its bottom part and
/// hands out its top `n` cards from the top down.
pub proof fn lemma_pops(s: Seq<Card>, n: nat)
    requires
        n <= s.len(),
    ensures
        after_pops(s, n) == s.take(s.len() - n),
        popped_cards(s, n).len() == n,
        forall|i: int| 0 <= i < n ==> #[trigger] popped_cards(s, n)[i] == Some(s[s.len() - 1 - i]),
    decreases n,
{
    if n == 0 {
        assert(s.take(s.len() as int) =~= s);
    } else {
        let rest = without_top(s);
        lemma_pops(rest, (n - 1) as nat);
        assert(rest.take(rest.len() - (n - 1)) =~= s.take(s.len() - n));
        let p = popped_cards(s, n);
        assert forall|i: int| 0 <= i < n implies #[trigger] p[i] == Some(s[s.len() - 1 - i]) by {
            if i > 0 {
                assert(p[i] == popped_cards(rest, (n - 1) as nat)[i - 1]);
            }
        }
    }
}

/// What peeking shows is the card that the next pop takes off, and the pop
/// leaves the rest of the pile beneath it. After as many pops as the pile
/// holds cards it is empty: peeking shows nothing and a further pop hands out
/// nothing and changes nothing.
pub proof fn lemma_peek_then_pop(s: Seq<Card>)
    ensures
        s.len() > 0 ==> top_card(s) == Some(s.last()) && without_top(s).push(s.last()) == s,
        after_pops(s, s.len()) == Seq::<Card>::empty(),
        top_card(after_pops(s, s.len())) is None,
        without_top(after_pops(s, s.len())) == after_pops(s, s.len()),
{
    if s.len() > 0 {
        assert(without_top(s).push(s.last()) =~= s);
    }
    lemma_pops(s, s.len());
    assert(s.take(0) =~= Seq::<Card>::empty());
}

/// Two fresh decks of one tradition are equal card for card.
pub proof fn lemma_standard_decks_equal(t: DeckType, a: Deck, b: Deck)
    requires
        a@ == standard_deck(t),
        b@ == standard_deck(t),
    ensures
        a@ == b@,
{
}

/// Two fresh decks of one tradition, popped in lockstep, hand out the same
/// cards, the top card first, and run empty after the same number of pops.
pub proof fn lemma_lockstep_pops(t: DeckType, a: Seq<Card>, b: Seq<Card>)
    requires
        a == standard_deck(t),
        b == standard_deck(t),
    ensures
        forall|n: nat| #[trigger] popped_cards(a, n) == popped_cards(b, n),
        forall|n: nat| (#[trigger] after_pops(a, n)).len() == 0 <==> after_pops(b, n).len() == 0,
        popped_cards(a, a.len()).len() == a.len(),
        forall|i: int|
            0 <= i < a.len() ==> #[trigger] popped_cards(a, a.len())[i] == Some(
                a[a.len() - 1 - i],
            ),
        after_pops(a, a.len()).len() == 0,
        after_pops(b, b.len()).len() == 0,
{
    lemma_pops(a, a.len());
    lemma_peek_then_pop(a);
}

/// A card pushed onto a pile is the one the next pop hands back, and that
/// pop leaves the pile as it was before the push, at its old length.
pub proof fn lemma_push_then_pop(s: Seq<Card>, c: Card)
    ensures
        top_card(s.push(c)) == Some(c),
        without_top(s.push(c)) == s,
        without_top(s.push(c)).len() == s.len(),
{
    assert(s.push(c).drop_last() =~= s);
}

/// A deck made from a deck's cards holds the same cards in the same order.
pub proof fn lemma_from_round_trip(d: Deck, cards: Vec<Card>)
    requires
        cards@ == d@,
    ensures
        <Deck as vstd::std_specs::convert::FromSpec<Vec<Card>>>::from_spec(cards)@ == d@,
{
}

/// Relies on rand's `SliceRandom::shuffle`, driven by the thread-local
/// generator of `rand::rng`: it reorders the cards by swapping them in place,
/// so the same cards come out, each as often as it went in.
#[verifier::external_body]
fn shuffle_cards(cards: &mut Vec<Card>)
    ensures
        final(cards)@.len() == old(cards)@.len(),
        final(cards)@.to_multiset() == old(cards)@.to_multiset(),
{
    let mut rng = rand::rng();
    cards.shuffle(&mut rng);
}

/// Appends every pairing of `suits` with `ranks` to an empty pile.
fn pair_all<const NR: usize, const NS: usize>(ranks: &[Rank; NR], suits: &[Suit; NS]) -> (cards:
    Vec<Card>)
    requires
        NR > 0,
    ensures
        cards@ == all_pairings(ranks@, suits@),
{
    let mut cards: Vec<Card> = Vec::new();
    let ghost nr = NR as int;
    let mut i: usize = 0;
    while i < NS
        invariant
            NR > 0,
            nr == NR as int,
            ranks@.len() == nr,
            suits@.len() == NS,
            i <= NS,
            cards@.len() == i * nr,
            forall|k: int|
                0 <= k < cards@.len() ==> #[trigger] cards@[k] == (Card {
                    rank: ranks@[k % nr],
                    suit: suits@[k / nr],
                }),
        decreases NS - i,
    {
        let suit = suits[i];
        let mut j: usize = 0;
        while j < NR
            invariant
                NR > 0,
                nr == NR as int,
                ranks@.len() == nr,
                suits@.len() == NS,
                i < NS,
                suit == suits@[i as int],
                j <= NR,
                cards@.len() == i * nr + j,
                forall|k: int|
                    0 <= k < cards@.len() ==> #[trigger] cards@[k] == (Card {
                        rank: ranks@[k % nr],
                        suit: suits@[k / nr],
                    }),
            decreases NR - j,
        {
            proof {
                vstd::arithmetic::div_mod::lemma_fundamental_div_mod_converse(
                    i * nr + j,
                    nr,
                    i as int,
                    j as int,
                );
            }
            cards.push(Card::new(ranks[j], suit));
            j = j + 1;
        }
        proof {
            assert((i + 1) * nr == i * nr + nr) by (nonlinear_arith);
        }
        i = i + 1;
    }
    proof {
        assert(NS * nr == suits@.len() * ranks@.len());
    }
    assert(cards@ =~= all_pairings(ranks@, suits@));
    cards
}

impl Deck {
    /// A full, unshuffled deck of a tradition: every suit of the tradition in
    /// turn, each with all its ranks. The top card comes last.
    pub fn new(deck_type: DeckType) -> (deck: Deck)
        ensures
            deck@ == standard_deck(deck_type),
            deck_type is FRENCH ==> deck@.len() == 52,
            deck_type is SPANISH ==> deck@.len() == 40,
    {
        let cards = match deck_type {
            DeckType::FRENCH => pair_all(&Rank::FRENCH_RANKS, &Suit::FRENCH_SUITS),
            DeckType::SPANISH => pair_all(&Rank::SPANISH_RANKS, &Suit::SPANISH_SUITS),
        };
        proof {
            lemma_standard_deck_len(deck_type);
        }
        Deck { cards }
    }

    /// Puts the cards in a random order. The deck keeps exactly the cards it
    /// had.
    pub fn shuffle(&mut self)
        ensures
            final(self)@.len() == old(self)@.len(),
            final(self)@.to_multiset() == old(self)@.to_multiset(),
    {
        shuffle_cards(&mut self.cards);
    }

    /// Puts `card` on top of the deck.
    pub fn push(&mut self, card: Card)
        ensures
            final(self)@ == old(self)@.push(card),
    {
        self.cards.push(card);
    }

    /// Takes the top card off the deck; `None` when the deck is empty.
    pub fn pop(&mut self) -> (card: Option<Card>)
        ensures
            card == top_card(old(self)@),
            final(self)@ == without_top(old(self)@),
    {
        self.cards.pop()
    }

    /// The top card, left in place; `None` when the deck is empty.
    pub fn peek(&self) -> (card: Option<&Card>)
        ensures
            card is None <==> top_card(self@) is None,
            card matches Some(c) ==> top_card(self@) == Some(*c),
    {
        let n = self.cards.len();
        if n == 0 {
            None
        } else {
            Some(&self.cards[n - 1])
        }
    }

    pub fn len(&self) -> (n: usize)
        ensures
            n == self@.len(),
    {
        self.cards.len()
    }

    pub fn is_empty(&self) -> (b: bool)
        ensures
            b == (self@.len() == 0),
    {
        self.cards.len() == 0
    }

    /// The deck as text: its cards bottom to top, e.g. `[A ♠︎], [K ♥]`.
    pub fn to_string(&self) -> (s: String)
        ensures
            s@ == deck_text(self@),
    {
        let separator = ", ";
        proof {
            reveal_strlit(", ");
        }
        assert(separator@ =~= seq![',', ' ']);
        let mut s = String::new();
        let mut i: usize = 0;
        while i < self.cards.len()
            invariant
                i <= self@.len(),
                separator@ == seq![',', ' '],
                s@ == deck_text(self@.take(i as int)),
            decreases self@.len() - i,
        {
            if i > 0 {
                s.append(separator);
            }
            let text = self.cards[i].to_string();
            s.append(text.as_str());
            proof {
                let next = self@.take(i + 1);
                assert(next.drop_last() =~= self@.take(i as int));
                assert(next.last() == self@[i as int]);
                if i == 0 {
                    assert(next.len() == 1);
                    assert(deck_text(next) == card_text(next[0]));
                } else {
                    assert(deck_text(next) == deck_text(next.drop_last()) + seq![',', ' ']
                        + card_text(next.last()));
                }
            }
            assert(s@ =~= deck_text(self@.take(i + 1)));
            i = i + 1;
        }
        assert(self@.take(i as int) =~= self@);
        s
    }
}

impl From<Vec<Card>> for Deck {
    /// Wraps a pile of cards as they are, in their order.
    fn from(cards: Vec<Card>) -> (deck: Deck) {
        Deck { cards }
    }
}

impl vstd::std_specs::convert::FromSpecImpl<Vec<Card>> for Deck {
    open spec fn obeys_from_spec() -> bool {
        true
    }

    open spec fn from_spec(cards: Vec<Card>) -> Deck {
        Deck { cards }
    }
}

impl PartialEq for Deck {
    /// Two decks are equal when they hold the same cards in the same order.
    fn eq(&self, other: &Deck) -> (r: bool) {
        if self.cards.len() != other.cards.len() {
            return false;
        }
        let mut i: usize = 0;
        while i < self.cards.len()
            invariant
                self@.len() == other@.len(),
                i <= self@.len(),
                forall|k: int| 0 <= k < i ==> self@[k] == other@[k],
            decreases self@.len() - i,
        {
            if self.cards[i] != other.cards[i] {
                return false;
            }
            i = i + 1;
        }
        assert(self@ =~= other@);
        true
    }
}

impl vstd::std_specs::cmp::PartialEqSpecImpl for Deck {
    open spec fn obeys_eq_spec() -> bool {
        true
    }

    open spec fn eq_spec(&self, other: &Deck) -> bool {
        self@ == other@
    }
}

impl Eq for Deck {
}

} // verus!
