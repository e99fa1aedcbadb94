use vstd::prelude::*;

use crate::rank::{rank_symbol, Rank};
use crate::suit::{suit_symbol, Suit};

verus! {

/// Cells of blank space between the border and the corner symbols.
pub const PADDING: usize = 1;

/// The box-drawing characters of a card's border.
pub const VERT: char = '│';
pub const HORI: char = '─';
pub const TOP_LEFT: char = '╭';
pub const TOP_RIGHT: char = '╮';
pub const BOTTOM_LEFT: char = '╰';
pub const BOTTOM_RIGHT: char = '╯';

/// A playing card: a rank and a suit. Any pairing is allowed, including a
/// rank of one tradition with a suit of the other.
#[derive(Clone, Copy, Debug, PartialEq, Eq, Hash, Structural)]
pub struct Card {
    pub rank: Rank,
    pub suit: Suit,
}

/// `n` made odd: an even number loses one, an odd one stays.
pub open spec fn make_odd(n: int) -> int {
    n + n % 2 - 1
}

/// The number of rows of a card drawn for a requested height.
pub open spec fn card_height(height: int) -> int {
    make_odd(height)
}

/// The number of columns of a card drawn for a requested height: about four
/// thirds of its rows, made odd.
pub open spec fn card_width(height: int) -> int {
    make_odd(card_height(height) * 4 / 3)
}

/// `n` copies of the character `c`.
pub open spec fn repeat_char(c: char, n: int) -> Seq<char> {
    Seq::new(n as nat, |_i: int| c)
}

pub open spec fn blanks(n: int) -> Seq<char> {
    repeat_char(' ', n)
}

/// Row `y` of a card `w` columns wide and `h` rows high that shows `rank` and
/// `suit`: a rounded border, the rank and suit in the top-left corner, the
/// suit and rank in the bottom-right corner, and the suit in the middle row.
pub open spec fn card_row(rank: Seq<char>, suit: Seq<char>, h: int, w: int, y: int) -> Seq<char> {
    let pad = PADDING as int;
    if y == 0 {
        seq![TOP_LEFT] + repeat_char(HORI, w - 2) + seq![TOP_RIGHT]
    } else if y == h - 1 {
        seq![BOTTOM_LEFT] + repeat_char(HORI, w - 2) + seq![BOTTOM_RIGHT]
    } else {
        let inner = if y == pad {
            blanks(pad) + rank + blanks(w - pad - rank.len() - 2)
        } else if y == pad + 1 {
            blanks(pad) + suit + blanks(w - pad - suit.len() - 2)
        } else if y == h - 1 - pad {
            blanks(w - pad - rank.len() - 2) + rank + blanks(pad)
        } else if y == h - 2 - pad {
            blanks(w - pad - suit.len() - 2) + suit + blanks(pad)
        } else if y == h / 2 {
            let offset = (w - 2) / 2;
            blanks(offset) + suit + blanks(w - 2 - offset - suit.len())
        } else {
            blanks(w - 2)
        };
        seq![VERT] + inner + seq![VERT]
    }
}

/// The rows of `card` drawn for a requested height.
pub open spec fn card_rows(card: Card, height: int) -> Seq<Seq<char>> {
    Seq::new(
        card_height(height) as nat,
        |y: int|
            card_row(
                rank_symbol(card.rank),
                suit_symbol(card.suit),
                card_height(height),
                card_width(height),
                y,
            ),
    )
}

/// The text of a card, e.g. `[A ♠︎]`.
pub open spec fn card_text(card: Card) -> Seq<char> {
    seq!['['] + rank_symbol(card.rank) + seq![' '] + suit_symbol(card.suit) + seq![']']
}

proof fn lemma_symbol_lengths(card: Card)
    ensures
        1 <= rank_symbol(card.rank).len() <= 2,
        1 <= suit_symbol(card.suit).len() <= 2,
{
}

/// A card drawn at any allowed height has `card_height(height)` rows, five
/// for a height of five, all `card_width(height)` characters wide; the first
/// and last rows carry the rounded corners and every other row starts and ends
/// with a vertical border.
pub proof fn lemma_card_rows_shape(card: Card, height: int)
    requires
        5 <= height,
    ensures
        card_rows(card, height).len() == card_height(height),
        height == 5 ==> card_rows(card, height).len() == 5,
        forall|y: int|
            0 <= y < card_height(height) ==> #[trigger] card_rows(card, height)[y].len()
                == card_width(height),
        card_rows(card, height)[0][0] == TOP_LEFT,
        card_rows(card, height)[0][card_width(height) - 1] == TOP_RIGHT,
        card_rows(card, height)[card_height(height) - 1][0] == BOTTOM_LEFT,
        card_rows(card, height)[card_height(height) - 1][card_width(height) - 1] == BOTTOM_RIGHT,
        forall|y: int|
            0 < y < card_height(height) - 1 ==> #[trigger] card_rows(card, height)[y][0] == VERT
                && card_rows(card, height)[y][card_width(height) - 1] == VERT,
{
    lemma_symbol_lengths(card);
    let h = card_height(height);
    let w = card_width(height);
    assert(5 <= h);
    assert(5 <= w);
}

/// Appends `n` copies of the one character of `piece`.
fn push_repeated(line: &mut String, piece: &str, n: usize)
    requires
        piece@.len() == 1,
    ensures
        final(line)@ == old(line)@ + repeat_char(piece@[0], n as int),
{
    let mut i: usize = 0;
    while i < n
        invariant
            piece@.len() == 1,
            i <= n,
            line@ == old(line)@ + repeat_char(piece@[0], i as int),
        decreases n - i,
    {
        line.append(piece);
        i = i + 1;
        assert(line@ =~= old(line)@ + repeat_char(piece@[0], i as int));
    }
}

/// Builds row `y` of a card; see `card_row`.
fn render_row(rank: &str, suit: &str, h: usize, w: usize, y: usize) -> (line: String)
    requires
        5 <= h,
        5 <= w,
        1 <= rank@.len() <= 2,
        1 <= suit@.len() <= 2,
        y < h,
    ensures
        line@ == card_row(rank@, suit@, h as int, w as int, y as int),
{
    proof {
        reveal_strlit("│");
        reveal_strlit("─");
        reveal_strlit(" ");
        reveal_strlit("╭");
        reveal_strlit("╮");
        reveal_strlit("╰");
        reveal_strlit("╯");
    }
    let rank_len = rank.unicode_len();
    let suit_len = suit.unicode_len();
    let mut line = String::new();
    if y == 0 || y == h - 1 {
        // top and bottom border
        if y == 0 {
            line.append("╭");
        } else {
            line.append("╰");
        }
        push_repeated(&mut line, "─", w - 2);
        if y == 0 {
            line.append("╮");
        } else {
            line.append("╯");
        }
        assert(line@ =~= card_row(rank@, suit@, h as int, w as int, y as int));
        return line;
    }
    line.append("│");
    if y == PADDING || y == PADDING + 1 {
        // top left
        push_repeated(&mut line, " ", PADDING);
        if y == PADDING {
            line.append(rank);
            push_repeated(&mut line, " ", w - PADDING - rank_len - 2);
        } else {
            line.append(suit);
            push_repeated(&mut line, " ", w - PADDING - suit_len - 2);
        }
    } else if y == h - 1 - PADDING || y == h - 2 - PADDING {
        // bottom right
        if y == h - 1 - PADDING {
            push_repeated(&mut line, " ", w - PADDING - rank_len - 2);
            line.append(rank);
        } else {
            push_repeated(&mut line, " ", w - PADDING - suit_len - 2);
            line.append(suit);
        }
        push_repeated(&mut line, " ", PADDING);
    } else if y == h / 2 {
        // center
        let offset = (w - 2) / 2;
        push_repeated(&mut line, " ", offset);
        line.append(suit);
        push_repeated(&mut line, " ", w - 2 - offset - suit_len);
    } else {
        push_repeated(&mut line, " ", w - 2);
    }
    line.append("│");
    assert(line@ =~= card_row(rank@, suit@, h as int, w as int, y as int));
    line
}

impl Card {
    pub fn new(rank: Rank, suit: Suit) -> (c: Card)
        ensures
            c == (Card { rank, suit }),
    {
        Card { rank, suit }
    }

    /// The card as text, e.g. `[A ♠︎]`.
    pub fn to_string(&self) -> (s: String)
        ensures
            s@ == card_text(*self),
    {
        proof {
            reveal_strlit("[");
            reveal_strlit(" ");
            reveal_strlit("]");
        }
        let mut s = String::from_str("[");
        s.append(self.rank.symbol());
        s.append(" ");
        s.append(self.suit.symbol());
        s.append("]");
        assert(s@ =~= card_text(*self));
        s
    }

    /// Draws the card as lines of box-drawing text, `height` rounded down to
    /// an odd number of lines, each as wide as the card (`card_width`).
    /// A card needs at least five lines to show all it holds.
    pub fn render_utf8(&self, height: usize) -> (lines: Vec<String>)
        requires
            5 <= height,
            height as int * 4 <= usize::MAX,
        ensures
            lines@.len() == card_height(height as int),
            forall|y: int|
                0 <= y < lines@.len() ==> #[trigger] lines@[y]@ == card_rows(*self, height as int)[y],
    {
        let h = height + height % 2 - 1;
        let mut w = h * 4 / 3;
        w = w + w % 2 - 1;
        let rank_str = self.rank.symbol();
        let suit_str = self.suit.symbol();
        proof {
            lemma_symbol_lengths(*self);
        }
        let ghost rows = card_rows(*self, height as int);
        let mut lines: Vec<String> = Vec::new();
        let mut y: usize = 0;
        while y < h
            invariant
                h == card_height(height as int),
                w == card_width(height as int),
                5 <= h,
                5 <= w,
                rank_str@ == rank_symbol(self.rank),
                suit_str@ == suit_symbol(self.suit),
                1 <= rank_str@.len() <= 2,
                1 <= suit_str@.len() <= 2,
                rows == card_rows(*self, height as int),
                y <= h,
                lines@.len() == y,
                forall|i: int| 0 <= i < y ==> #[trigger] lines@[i]@ == rows[i],
            decreases h - y,
        {
            let line = render_row(rank_str, suit_str, h, w, y);
            lines.push(line);
            y = y + 1;
        }
        lines
    }
}

} // verus!
