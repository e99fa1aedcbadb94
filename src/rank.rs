use vstd::prelude::*;

verus! {

/// The rank of a playing card, across the French and Spanish traditions.
#[derive(Clone, Copy, Debug, PartialEq, Eq, Hash, Structural)]
pub enum Rank {
    One,
    Two,
    Three,
    Four,
    Five,
    Six,
    Seven,
    Eight,
    Nine,
    Ten,
    Jack,
    Queen,
    King,
    Ace,
    Sota,
    Caballo,
    Rey,
}

/// The text that a rank is shown as.
pub open spec fn rank_symbol(r: Rank) -> Seq<char> {
    match r {
        Rank::One => seq!['1'],
        Rank::Two => seq!['2'],
        Rank::Three => seq!['3'],
        Rank::Four => seq!['4'],
        Rank::Five => seq!['5'],
        Rank::Six => seq!['6'],
        Rank::Seven => seq!['7'],
        Rank::Eight => seq!['8'],
        Rank::Nine => seq!['9'],
        Rank::Ten => seq!['1', '0'],
        Rank::Jack => seq!['J'],
        Rank::Queen => seq!['Q'],
        Rank::King => seq!['K'],
        Rank::Ace => seq!['A'],
        Rank::Sota => seq!['S'],
        Rank::Caballo => seq!['C'],
        Rank::Rey => seq!['R'],
    }
}

impl Rank {
    /// The ranks of a French deck, from low to high.
    pub const FRENCH_RANKS: [Rank; 13] = [
        Rank::Two,
        Rank::Three,
        Rank::Four,
        Rank::Five,
        Rank::Six,
        Rank::Seven,
        Rank::Eight,
        Rank::Nine,
        Rank::Ten,
        Rank::Jack,
        Rank::Queen,
        Rank::King,
        Rank::Ace,
    ];

    /// The ranks of a Spanish deck, in the order a deck is built in.
    pub const SPANISH_RANKS: [Rank; 10] = [
        Rank::Two,
        Rank::Four,
        Rank::Five,
        Rank::Six,
        Rank::Seven,
        Rank::Sota,
        Rank::Caballo,
        Rank::Rey,
        Rank::Three,
        Rank::One,
    ];

    /// The text this rank is shown as, e.g. `"10"` or `"A"`.
    pub fn symbol(&self) -> (s: &'static str)
        ensures
            s@ == rank_symbol(*self),
    {
        let s = match self {
            Rank::One => "1",
            Rank::Two => "2",
            Rank::Three => "3",
            Rank::Four => "4",
            Rank::Five => "5",
            Rank::Six => "6",
            Rank::Seven => "7",
            Rank::Eight => "8",
            Rank::Nine => "9",
            Rank::Ten => "10",
            Rank::Jack => "J",
            Rank::Queen => "Q",
            Rank::King => "K",
            Rank::Ace => "A",
            Rank::Sota => "S",
            Rank::Caballo => "C",
            Rank::Rey => "R",
        };
        proof {
            reveal_strlit("1");
            reveal_strlit("2");
            reveal_strlit("3");
            reveal_strlit("4");
            reveal_strlit("5");
            reveal_strlit("6");
            reveal_strlit("7");
            reveal_strlit("8");
            reveal_strlit("9");
            reveal_strlit("10");
            reveal_strlit("J");
            reveal_strlit("Q");
            reveal_strlit("K");
            reveal_strlit("A");
            reveal_strlit("S");
            reveal_strlit("C");
            reveal_strlit("R");
        }
        assert(s@ =~= rank_symbol(*self));
        s
    }

    /// The rank as an owned string, as it is printed.
    pub fn to_string(&self) -> (s: String)
        ensures
            s@ == rank_symbol(*self),
    {
        String::from_str(self.symbol())
    }
}

} // verus!
