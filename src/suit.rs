use vstd::prelude::*;

verus! {

/// The suit of a playing card, across the French and Spanish traditions.
#[derive(Clone, Copy, Debug, PartialEq, Eq, Hash, Structural)]
pub enum Suit {
    FrenchHearts,
    FrenchDiamonds,
    FrenchClubs,
    FrenchSpades,
    SpanishCups,
    SpanishCoins,
    SpanishClubs,
    SpanishSwords,
}

/// The glyph that a suit is shown as. Some glyphs carry a variation
/// selector, so they are two characters long.
pub open spec fn suit_symbol(s: Suit) -> Seq<char> {
    match s {
        Suit::FrenchHearts => seq!['\u{2665}'],
        Suit::FrenchDiamonds => seq!['\u{2666}', '\u{fe0e}'],
        Suit::FrenchClubs => seq!['\u{2663}', '\u{fe0e}'],
        Suit::FrenchSpades => seq!['\u{2660}', '\u{fe0e}'],
        Suit::SpanishCups => seq!['\u{1f3c6}'],
        Suit::SpanishCoins => seq!['\u{1f7e1}'],
        Suit::SpanishClubs => seq!['\u{1faa0}'],
        Suit::SpanishSwords => seq!['\u{1f5e1}', '\u{fe0f}'],
    }
}

impl Suit {
    /// The four suits of a French deck.
    pub const FRENCH_SUITS: [Suit; 4] = [
        Suit::FrenchHearts,
        Suit::FrenchDiamonds,
        Suit::FrenchClubs,
        Suit::FrenchSpades,
    ];

    /// The four suits of a Spanish deck.
    pub const SPANISH_SUITS: [Suit; 4] = [
        Suit::SpanishCups,
        Suit::SpanishCoins,
        Suit::SpanishClubs,
        Suit::SpanishSwords,
    ];

    /// The glyph this suit is shown as.
    pub fn symbol(&self) -> (s: &'static str)
        ensures
            s@ == suit_symbol(*self),
    {
        let s = match self {
            Suit::FrenchHearts => "♥",
            Suit::FrenchDiamonds => "♦︎",
            Suit::FrenchClubs => "♣︎",
            Suit::FrenchSpades => "♠︎",
            Suit::SpanishCups => "🏆",
            Suit::SpanishCoins => "🟡",
            Suit::SpanishClubs => "🪠",
            Suit::SpanishSwords => "🗡️",
        };
        proof {
            reveal_strlit("♥");
            reveal_strlit("♦︎");
            reveal_strlit("♣︎");
            reveal_strlit("♠︎");
            reveal_strlit("🏆");
            reveal_strlit("🟡");
            reveal_strlit("🪠");
            reveal_strlit("🗡️");
        }
        assert(s@ =~= suit_symbol(*self));
        s
    }

    /// The suit as an owned string, as it is printed.
    pub fn to_string(&self) -> (s: String)
        ensures
            s@ == suit_symbol(*self),
    {
        String::from_str(self.symbol())
    }
}

} // verus!
