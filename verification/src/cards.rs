//! Cards, their symbols, and the level that decides how they rank.

use vstd::prelude::*;
use vstd::string::*;

verus! {

/// Suit of a card; both jokers carry [`Suit::Joker`].
#[derive(Clone, Copy, Debug, PartialEq, Eq, Hash, Structural)]
pub enum Suit {
    Spades,
    Hearts,
    Diamonds,
    Clubs,
    Joker,
}

/// Face rank of a card.
#[derive(Clone, Copy, Debug, PartialEq, Eq, Hash, Structural)]
pub enum Rank {
    Two,
    Three,
    Four,
    Five,
    Six,
    Seven,
    Eight,
    Nine,
    Ten,
    J,
    Q,
    K,
    A,
    BlackJoker,
    RedJoker,
}

/// A card of the double deck.
#[derive(Clone, Copy, Debug, PartialEq, Eq, Hash, Structural)]
pub struct Card {
    pub suit: Suit,
    pub rank: Rank,
}

/// The level that a hand is played at.
#[derive(Clone, Copy, Debug, PartialEq, Eq, Hash, Structural)]
pub enum HandLevel {
    Two,
    Three,
    Four,
    Five,
    Six,
    Seven,
    Eight,
    Nine,
    Ten,
    J,
    Q,
    K,
    A,
}

/// What the rules need to know about the hand in progress.
#[derive(Clone, Copy, Debug, PartialEq, Eq, Hash, Structural)]
pub struct RuleContext {
    pub hand_level: HandLevel,
}

/// A symbol as it stands in a hand: a card, or text that names none.
#[derive(Clone, Copy, Debug, PartialEq, Eq, Hash, Structural)]
pub enum Symbol {
    /// A well-formed card symbol.
    Known(Card),
    /// Names no card, but starts with the joker sign.
    OddJoker,
    /// Names no card.
    Odd,
}

/// The rank of the cards of a level.
pub open spec fn level_rank(level: HandLevel) -> Rank {
    match level {
        HandLevel::Two => Rank::Two,
        HandLevel::Three => Rank::Three,
        HandLevel::Four => Rank::Four,
        HandLevel::Five => Rank::Five,
        HandLevel::Six => Rank::Six,
        HandLevel::Seven => Rank::Seven,
        HandLevel::Eight => Rank::Eight,
        HandLevel::Nine => Rank::Nine,
        HandLevel::Ten => Rank::Ten,
        HandLevel::J => Rank::J,
        HandLevel::Q => Rank::Q,
        HandLevel::K => Rank::K,
        HandLevel::A => Rank::A,
    }
}

/// Place of a level on the ladder from two (0) to ace (12).
pub open spec fn level_step(level: HandLevel) -> int {
    match level {
        HandLevel::Two => 0,
        HandLevel::Three => 1,
        HandLevel::Four => 2,
        HandLevel::Five => 3,
        HandLevel::Six => 4,
        HandLevel::Seven => 5,
        HandLevel::Eight => 6,
        HandLevel::Nine => 7,
        HandLevel::Ten => 8,
        HandLevel::J => 9,
        HandLevel::Q => 10,
        HandLevel::K => 11,
        HandLevel::A => 12,
    }
}

/// The level at a place of the ladder; places beyond its end give the ace.
pub open spec fn level_at(step: int) -> HandLevel {
    if step <= 0 {
        HandLevel::Two
    } else if step == 1 {
        HandLevel::Three
    } else if step == 2 {
        HandLevel::Four
    } else if step == 3 {
        HandLevel::Five
    } else if step == 4 {
        HandLevel::Six
    } else if step == 5 {
        HandLevel::Seven
    } else if step == 6 {
        HandLevel::Eight
    } else if step == 7 {
        HandLevel::Nine
    } else if step == 8 {
        HandLevel::Ten
    } else if step == 9 {
        HandLevel::J
    } else if step == 10 {
        HandLevel::Q
    } else if step == 11 {
        HandLevel::K
    } else {
        HandLevel::A
    }
}

/// Text of a level in messages and snapshots.
pub open spec fn level_text(level: HandLevel) -> Seq<char> {
    rank_text(level_rank(level))
}

/// Natural order of the ranks: two is 2, ace is 14; jokers are outside of it (0).
pub open spec fn natural(rank: Rank) -> int {
    match rank {
        Rank::Two => 2,
        Rank::Three => 3,
        Rank::Four => 4,
        Rank::Five => 5,
        Rank::Six => 6,
        Rank::Seven => 7,
        Rank::Eight => 8,
        Rank::Nine => 9,
        Rank::Ten => 10,
        Rank::J => 11,
        Rank::Q => 12,
        Rank::K => 13,
        Rank::A => 14,
        Rank::BlackJoker => 0,
        Rank::RedJoker => 0,
    }
}

pub open spec fn is_joker_rank(rank: Rank) -> bool {
    rank == Rank::BlackJoker || rank == Rank::RedJoker
}

/// A card whose suit and rank go together.
pub open spec fn card_ok(card: Card) -> bool {
    card.suit == Suit::Joker <==> is_joker_rank(card.rank)
}

/// The heart of the current level stands for any card but a joker.
pub open spec fn wild(card: Card, ctx: RuleContext) -> bool {
    card.suit == Suit::Hearts && card.rank == level_rank(ctx.hand_level)
}

/// How ranks compare in a hand: jokers on top, then the level, then the natural order.
pub open spec fn rank_order(rank: Rank, ctx: RuleContext) -> int {
    if rank == Rank::RedJoker {
        16
    } else if rank == Rank::BlackJoker {
        15
    } else if rank == level_rank(ctx.hand_level) {
        14
    } else {
        natural(rank) - 1
    }
}

pub open spec fn suit_char(suit: Suit) -> char {
    match suit {
        Suit::Spades => '♠',
        Suit::Hearts => '♥',
        Suit::Diamonds => '♦',
        Suit::Clubs => '♣',
        Suit::Joker => '🃏',
    }
}

pub open spec fn rank_text(rank: Rank) -> Seq<char> {
    match rank {
        Rank::Two => seq!['2'],
        Rank::Three => seq!['3'],
        Rank::Four => seq!['4'],
        Rank::Five => seq!['5'],
        Rank::Six => seq!['6'],
        Rank::Seven => seq!['7'],
        Rank::Eight => seq!['8'],
        Rank::Nine => seq!['9'],
        Rank::Ten => seq!['1', '0'],
        Rank::J => seq!['J'],
        Rank::Q => seq!['Q'],
        Rank::K => seq!['K'],
        Rank::A => seq!['A'],
        Rank::BlackJoker => seq!['b'],
        Rank::RedJoker => seq!['R'],
    }
}

/// The symbol of a card: its suit sign followed by its rank.
pub open spec fn symbol_text(card: Card) -> Seq<char> {
    seq![suit_char(card.suit)] + rank_text(card.rank)
}

/// The card that a text names, if it names one.
pub open spec fn card_named(text: Seq<char>) -> Option<Card> {
    if exists|card: Card| card_ok(card) && text == #[trigger] symbol_text(card) {
        Some(choose|card: Card| card_ok(card) && text == #[trigger] symbol_text(card))
    } else {
        None
    }
}

/// Message about a text that names no card.
pub open spec fn not_a_card(text: Seq<char>) -> Seq<char> {
    "invalid card symbol: "@ + text
}

/// The cards that texts name, in order, or a message about the first that names none.
pub open spec fn cards_named(list: Seq<String>) -> Result<Seq<Card>, Seq<char>>
    decreases list.len(),
{
    if list.len() == 0 {
        Ok(Seq::empty())
    } else {
        match cards_named(list.drop_last()) {
            Err(message) => Err(message),
            Ok(front) => match card_named(list.last()@) {
                Some(card) => Ok(front.push(card)),
                None => Err(not_a_card(list.last()@)),
            },
        }
    }
}

/// A message about a prefix is a message about the whole.
pub proof fn lemma_cards_named_prefix(list: Seq<String>, i: int)
    requires
        0 <= i <= list.len(),
        cards_named(list.take(i)) is Err,
    ensures
        cards_named(list) == cards_named(list.take(i)),
    decreases list.len() - i,
{
    if i < list.len() {
        assert(list.take(i + 1).drop_last() =~= list.take(i));
        lemma_cards_named_prefix(list, i + 1);
    } else {
        assert(list.take(i) =~= list);
    }
}

/// What a text in a hand stands for.
pub open spec fn symbol_named(text: Seq<char>) -> Symbol {
    match card_named(text) {
        Some(card) => Symbol::Known(card),
        None => if text.len() > 0 && text[0] == '🃏' {
            Symbol::OddJoker
        } else {
            Symbol::Odd
        },
    }
}

/// What the texts of a hand stand for, in order.
pub open spec fn symbols_named(texts: Seq<String>) -> Seq<Symbol> {
    texts.map_values(|s: String| symbol_named(s@))
}

/// No two cards share a symbol.
pub proof fn symbols_are_distinct(a: Card, b: Card)
    requires
        card_ok(a),
        card_ok(b),
        symbol_text(a) == symbol_text(b),
    ensures
        a == b,
{
    let s = symbol_text(a);
    let t = symbol_text(b);
    assert(s[0] == suit_char(a.suit));
    assert(t[0] == suit_char(b.suit));
    assert(a.suit == b.suit);
    assert(s.skip(1) =~= rank_text(a.rank));
    assert(t.skip(1) =~= rank_text(b.rank));
    let x = rank_text(a.rank);
    let y = rank_text(b.rank);
    assert(x == y);
    assert(x.len() == y.len() && x[0] == y[0]);
}

/// Every card can be read back from its symbol.
pub proof fn symbol_round_trip(card: Card)
    requires
        card_ok(card),
    ensures
        card_named(symbol_text(card)) == Some(card),
{
    let text = symbol_text(card);
    let found = choose|c: Card| card_ok(c) && text == #[trigger] symbol_text(c);
    assert(card_ok(card) && text == symbol_text(card));
    symbols_are_distinct(card, found);
}

/// A text that names a card is that card's symbol.
pub proof fn lemma_named_is_symbol(text: Seq<char>)
    ensures
        match card_named(text) {
            Some(card) => card_ok(card) && text == symbol_text(card),
            None => true,
        },
{
}

impl HandLevel {
    /// The rank of this level's cards.
    pub fn to_rank(self) -> (rank: Rank)
        ensures
            rank == level_rank(self),
    {
        match self {
            HandLevel::Two => Rank::Two,
            HandLevel::Three => Rank::Three,
            HandLevel::Four => Rank::Four,
            HandLevel::Five => Rank::Five,
            HandLevel::Six => Rank::Six,
            HandLevel::Seven => Rank::Seven,
            HandLevel::Eight => Rank::Eight,
            HandLevel::Nine => Rank::Nine,
            HandLevel::Ten => Rank::Ten,
            HandLevel::J => Rank::J,
            HandLevel::Q => Rank::Q,
            HandLevel::K => Rank::K,
            HandLevel::A => Rank::A,
        }
    }

    fn step(self) -> (n: u8)
        ensures
            n == level_step(self),
    {
        match self {
            HandLevel::Two => 0,
            HandLevel::Three => 1,
            HandLevel::Four => 2,
            HandLevel::Five => 3,
            HandLevel::Six => 4,
            HandLevel::Seven => 5,
            HandLevel::Eight => 6,
            HandLevel::Nine => 7,
            HandLevel::Ten => 8,
            HandLevel::J => 9,
            HandLevel::Q => 10,
            HandLevel::K => 11,
            HandLevel::A => 12,
        }
    }

    /// Moves `delta` places up the ladder, stopping at the ace.
    pub fn promote_by(self, delta: u8) -> (level: HandLevel)
        ensures
            level == level_at(level_step(self) + delta),
    {
        let target: u16 = self.step() as u16 + delta as u16;
        match target {
            0 => HandLevel::Two,
            1 => HandLevel::Three,
            2 => HandLevel::Four,
            3 => HandLevel::Five,
            4 => HandLevel::Six,
            5 => HandLevel::Seven,
            6 => HandLevel::Eight,
            7 => HandLevel::Nine,
            8 => HandLevel::Ten,
            9 => HandLevel::J,
            10 => HandLevel::Q,
            11 => HandLevel::K,
            _ => HandLevel::A,
        }
    }

    /// Text of the level in messages and snapshots.
    pub fn as_api_str(self) -> (text: &'static str)
        ensures
            text@ == level_text(self),
    {
        rank_str(self.to_rank())
    }

    /// The level that a text names; anything but a rank from two to ace is rejected.
    pub fn from_api_str(text: &str) -> (level: Option<HandLevel>)
        ensures
            match level {
                Some(l) => text@ == level_text(l),
                None => forall|l: HandLevel| text@ != #[trigger] level_text(l),
            },
    {
        assert(text@.skip(0) =~= text@);
        let rank = rank_of(text, 0);
        proof {
            if let Some(r) = rank {
                if is_joker_rank(r) {
                    assert forall|l: HandLevel| text@ != #[trigger] level_text(l) by {
                        assert(rank_text(r)[0] != rank_text(level_rank(l))[0]);
                    }
                }
            }
        }
        match rank {
            Some(Rank::Two) => Some(HandLevel::Two),
            Some(Rank::Three) => Some(HandLevel::Three),
            Some(Rank::Four) => Some(HandLevel::Four),
            Some(Rank::Five) => Some(HandLevel::Five),
            Some(Rank::Six) => Some(HandLevel::Six),
            Some(Rank::Seven) => Some(HandLevel::Seven),
            Some(Rank::Eight) => Some(HandLevel::Eight),
            Some(Rank::Nine) => Some(HandLevel::Nine),
            Some(Rank::Ten) => Some(HandLevel::Ten),
            Some(Rank::J) => Some(HandLevel::J),
            Some(Rank::Q) => Some(HandLevel::Q),
            Some(Rank::K) => Some(HandLevel::K),
            Some(Rank::A) => Some(HandLevel::A),
            _ => None,
        }
    }
}

/// The text of a rank.
pub fn rank_str(rank: Rank) -> (text: &'static str)
    ensures
        text@ == rank_text(rank),
{
    proof {
        reveal_strlit("2");
        reveal_strlit("3");
        reveal_strlit("4");
        reveal_strlit("5");
        reveal_strlit("6");
        reveal_strlit("7");
        reveal_strlit("8");
        reveal_strlit("9");
        reveal_strlit("10");
        reveal_strlit("J");
        reveal_strlit("Q");
        reveal_strlit("K");
        reveal_strlit("A");
        reveal_strlit("b");
        reveal_strlit("R");
        assert("2"@ =~= rank_text(Rank::Two));
        assert("3"@ =~= rank_text(Rank::Three));
        assert("4"@ =~= rank_text(Rank::Four));
        assert("5"@ =~= rank_text(Rank::Five));
        assert("6"@ =~= rank_text(Rank::Six));
        assert("7"@ =~= rank_text(Rank::Seven));
        assert("8"@ =~= rank_text(Rank::Eight));
        assert("9"@ =~= rank_text(Rank::Nine));
        assert("10"@ =~= rank_text(Rank::Ten));
        assert("J"@ =~= rank_text(Rank::J));
        assert("Q"@ =~= rank_text(Rank::Q));
        assert("K"@ =~= rank_text(Rank::K));
        assert("A"@ =~= rank_text(Rank::A));
        assert("b"@ =~= rank_text(Rank::BlackJoker));
        assert("R"@ =~= rank_text(Rank::RedJoker));
    }
    match rank {
        Rank::Two => "2",
        Rank::Three => "3",
        Rank::Four => "4",
        Rank::Five => "5",
        Rank::Six => "6",
        Rank::Seven => "7",
        Rank::Eight => "8",
        Rank::Nine => "9",
        Rank::Ten => "10",
        Rank::J => "J",
        Rank::Q => "Q",
        Rank::K => "K",
        Rank::A => "A",
        Rank::BlackJoker => "b",
        Rank::RedJoker => "R",
    }
}

/// The rank whose text fills `text` from place `from` to its end.
fn rank_of(text: &str, from: usize) -> (rank: Option<Rank>)
    requires
        from <= 1,
    ensures
        match rank {
            Some(r) => from <= text@.len() && text@.skip(from as int) == rank_text(r),
            None => from > text@.len() || forall|r: Rank|
                text@.skip(from as int) != #[trigger] rank_text(r),
        },
{
    let n: usize = text.unicode_len();
    if n < from {
        return None;
    }
    let ghost tail = text@.skip(from as int);
    if n == from + 2 {
        assert(tail[0] == text@[from as int] && tail[1] == text@[from + 1]);
        if text.get_char(from) == '1' && text.get_char(from + 1) == '0' {
            assert(tail =~= rank_text(Rank::Ten));
            return Some(Rank::Ten);
        }
        proof {
            assert forall|r: Rank| tail != #[trigger] rank_text(r) by {
                assert(rank_text(r).len() == 2 ==> r == Rank::Ten);
            }
        }
        return None;
    }
    if n != from + 1 {
        proof {
            assert forall|r: Rank| tail != #[trigger] rank_text(r) by {
                assert(rank_text(r).len() == 1 || rank_text(r).len() == 2);
            }
        }
        return None;
    }
    assert(tail =~= seq![text@[from as int]]);
    let c = text.get_char(from);
    let rank = if c == '2' {
        Some(Rank::Two)
    } else if c == '3' {
        Some(Rank::Three)
    } else if c == '4' {
        Some(Rank::Four)
    } else if c == '5' {
        Some(Rank::Five)
    } else if c == '6' {
        Some(Rank::Six)
    } else if c == '7' {
        Some(Rank::Seven)
    } else if c == '8' {
        Some(Rank::Eight)
    } else if c == '9' {
        Some(Rank::Nine)
    } else if c == 'J' {
        Some(Rank::J)
    } else if c == 'Q' {
        Some(Rank::Q)
    } else if c == 'K' {
        Some(Rank::K)
    } else if c == 'A' {
        Some(Rank::A)
    } else if c == 'b' {
        Some(Rank::BlackJoker)
    } else if c == 'R' {
        Some(Rank::RedJoker)
    } else {
        None
    };
    proof {
        if rank is None {
            assert forall|r: Rank| tail != #[trigger] rank_text(r) by {
                assert(tail[0] == c);
            }
        }
    }
    rank
}

fn suit_of(c: char) -> (suit: Option<Suit>)
    ensures
        match suit {
            Some(s) => c == suit_char(s),
            None => forall|s: Suit| c != #[trigger] suit_char(s),
        },
{
    if c == '♠' {
        Some(Suit::Spades)
    } else if c == '♥' {
        Some(Suit::Hearts)
    } else if c == '♦' {
        Some(Suit::Diamonds)
    } else if c == '♣' {
        Some(Suit::Clubs)
    } else if c == '🃏' {
        Some(Suit::Joker)
    } else {
        None
    }
}

/// The card that a text names, if it names one.
pub fn read_card(text: &str) -> (card: Option<Card>)
    ensures
        card == card_named(text@),
{
    proof {
        lemma_named_is_symbol(text@);
        if let Some(card) = card_named(text@) {
            assert(text@[0] == suit_char(card.suit));
            assert(text@.skip(1) =~= rank_text(card.rank));
        }
    }
    let n: usize = text.unicode_len();
    if n == 0 {
        return None;
    }
    let suit = match suit_of(text.get_char(0)) {
        Some(s) => s,
        None => {
            return None;
        },
    };
    let rank = match rank_of(text, 1) {
        Some(r) => r,
        None => {
            return None;
        },
    };
    let card = Card { suit, rank };
    proof {
        assert(text@ =~= seq![text@[0]] + text@.skip(1));
        assert(text@ == symbol_text(card));
    }
    let joker_rank = match rank {
        Rank::BlackJoker | Rank::RedJoker => true,
        _ => false,
    };
    if (suit == Suit::Joker) != joker_rank {
        proof {
            if let Some(other) = card_named(text@) {
                assert(suit_char(other.suit) == suit_char(suit));
                let x = rank_text(other.rank);
                let y = rank_text(rank);
                assert(x == y);
                assert(x.len() == y.len() && x[0] == y[0]);
            }
        }
        return None;
    }
    proof {
        symbol_round_trip(card);
    }
    Some(card)
}

/// The card that a symbol names; any other text is rejected.
pub fn parse_card_symbol(symbol: &str) -> (card: Result<Card, String>)
    ensures
        match card {
            Ok(c) => card_named(symbol@) == Some(c),
            Err(message) => card_named(symbol@) is None && message@ == not_a_card(symbol@),
        },
{
    match read_card(symbol) {
        Some(card) => Ok(card),
        None => {
            let mut message = "invalid card symbol: ".to_owned();
            message.append(symbol);
            Err(message)
        },
    }
}

/// The cards that texts name, in order; the first text that names none is reported.
pub fn parse_cards(list: &[String]) -> (cards: Result<Vec<Card>, String>)
    ensures
        match cards {
            Ok(c) => cards_named(list@) == Ok::<Seq<Card>, Seq<char>>(c@),
            Err(message) => cards_named(list@) == Err::<Seq<Card>, Seq<char>>(message@),
        },
        cards matches Ok(c) ==> c@.len() == list@.len(),
{
    let mut out: Vec<Card> = Vec::new();
    assert(list@.take(0) =~= Seq::<String>::empty());
    for i in 0..list.len()
        invariant
            out@.len() == i,
            cards_named(list@.take(i as int)) == Ok::<Seq<Card>, Seq<char>>(out@),
    {
        assert(list@.take(i + 1).drop_last() =~= list@.take(i as int));
        match parse_card_symbol(list[i].as_str()) {
            Ok(card) => {
                out.push(card);
            },
            Err(message) => {
                proof {
                    lemma_cards_named_prefix(list@, i + 1);
                }
                return Err(message);
            },
        }
    }
    assert(list@.take(list@.len() as int) =~= list@);
    Ok(out)
}

/// What a text in a hand stands for.
pub fn read_symbol(text: &str) -> (symbol: Symbol)
    ensures
        symbol == symbol_named(text@),
{
    match read_card(text) {
        Some(card) => Symbol::Known(card),
        None => if text.unicode_len() > 0 && text.get_char(0) == '🃏' {
            Symbol::OddJoker
        } else {
            Symbol::Odd
        },
    }
}

/// What the texts of a hand stand for, in order.
pub fn read_symbols(texts: &[String]) -> (symbols: Vec<Symbol>)
    ensures
        symbols@ == symbols_named(texts@),
{
    let mut out: Vec<Symbol> = Vec::new();
    for i in 0..texts.len()
        invariant
            out@ =~= symbols_named(texts@.take(i as int)),
    {
        out.push(read_symbol(texts[i].as_str()));
        assert(texts@.take(i + 1).drop_last() =~= texts@.take(i as int));
    }
    assert(texts@.take(texts@.len() as int) =~= texts@);
    out
}

/// The symbol of a card.
pub fn card_symbol(card: Card) -> (text: String)
    ensures
        text@ == symbol_text(card),
{
    proof {
        reveal_strlit("♠");
        reveal_strlit("♥");
        reveal_strlit("♦");
        reveal_strlit("♣");
        reveal_strlit("🃏");
        assert("♠"@ =~= seq!['♠']);
        assert("♥"@ =~= seq!['♥']);
        assert("♦"@ =~= seq!['♦']);
        assert("♣"@ =~= seq!['♣']);
        assert("🃏"@ =~= seq!['🃏']);
    }
    let sign: &str = match card.suit {
        Suit::Spades => "♠",
        Suit::Hearts => "♥",
        Suit::Diamonds => "♦",
        Suit::Clubs => "♣",
        Suit::Joker => "🃏",
    };
    let mut text = sign.to_owned();
    text.append(rank_str(card.rank));
    text
}

/// Whether a card is the wild card of the current level.
pub fn is_wild(card: Card, ctx: RuleContext) -> (b: bool)
    ensures
        b == wild(card, ctx),
{
    card.suit == Suit::Hearts && card.rank == ctx.hand_level.to_rank()
}

/// The natural order value of a rank, 0 for jokers.
pub fn natural_of(rank: Rank) -> (value: u8)
    ensures
        value == natural(rank),
{
    match rank {
        Rank::Two => 2,
        Rank::Three => 3,
        Rank::Four => 4,
        Rank::Five => 5,
        Rank::Six => 6,
        Rank::Seven => 7,
        Rank::Eight => 8,
        Rank::Nine => 9,
        Rank::Ten => 10,
        Rank::J => 11,
        Rank::Q => 12,
        Rank::K => 13,
        Rank::A => 14,
        Rank::BlackJoker => 0,
        Rank::RedJoker => 0,
    }
}

/// The natural order value of a rank; jokers have none.
pub fn natural_rank_value(rank: Rank) -> (value: Result<u8, String>)
    ensures
        match value {
            Ok(v) => !is_joker_rank(rank) && v == natural(rank),
            Err(_) => is_joker_rank(rank),
        },
{
    let v: u8 = natural_of(rank);
    if v == 0 {
        Err("jokers have no natural rank".to_owned())
    } else {
        Ok(v)
    }
}

/// How high a card ranks in a hand of the given level.
pub fn level_order_value(card: Card, ctx: RuleContext) -> (value: u8)
    ensures
        value == rank_order(card.rank, ctx),
{
    match card.rank {
        Rank::RedJoker => 16,
        Rank::BlackJoker => 15,
        rank => if rank == ctx.hand_level.to_rank() {
            14
        } else {
            natural_of(rank) - 1
        },
    }
}

} // verus!
