//! What a set of cards amounts to: the ordinary combinations and the bombs.

use vstd::prelude::*;
use vstd::string::*;
use crate::cards::{
    Card, Rank, RuleContext, Suit, card_ok, cards_named, is_joker_rank, is_wild, level_order_value,
    natural, natural_of, parse_cards, rank_order, wild,
};
use crate::tally::{copy_all, count_where, lemma_tally_step, tally};
use crate::wildcard_resolver::{WildcardResolver, fits, resolution, substitute, substituted};

verus! {

/// Combinations that only beat their own kind.
#[derive(Clone, Copy, Debug, PartialEq, Eq, Structural)]
pub enum OrdinaryKind {
    Single,
    Pair,
    Triple,
    /// Three of a rank with a pair.
    FullHouse,
    /// Five ranks in a row.
    Straight,
    /// Three pairs in a row.
    Tube,
    /// Two triples in a row.
    Plate,
}

/// Combinations that beat every ordinary one.
#[derive(Clone, Copy, Debug, PartialEq, Eq, Structural)]
pub enum BombKind {
    SameRank { n: u8 },
    StraightFlush,
    FourJoker,
}

#[derive(Clone, Copy, Debug, PartialEq, Eq, Structural)]
pub enum CombinationKind {
    Ordinary(OrdinaryKind),
    Bomb(BombKind),
}

#[derive(Clone, Copy, Debug, PartialEq, Eq, Structural)]
pub enum CombinationClass {
    Ordinary,
    Bomb,
}

/// A legal combination and the value by which it compares with its own kind.
#[derive(Clone, Copy, Debug, PartialEq, Eq, Structural)]
pub struct Combination {
    pub kind: CombinationKind,
    pub primary: u8,
}

pub open spec fn kind_class(kind: CombinationKind) -> CombinationClass {
    match kind {
        CombinationKind::Ordinary(_) => CombinationClass::Ordinary,
        CombinationKind::Bomb(_) => CombinationClass::Bomb,
    }
}

impl Combination {
    /// Ordinary or bomb.
    pub fn class(&self) -> (class: CombinationClass)
        ensures
            class == kind_class(self.kind),
    {
        match self.kind {
            CombinationKind::Ordinary(_) => CombinationClass::Ordinary,
            CombinationKind::Bomb(_) => CombinationClass::Bomb,
        }
    }

    /// Whether this is a bomb.
    pub fn is_bomb(&self) -> (b: bool)
        ensures
            b == (kind_class(self.kind) == CombinationClass::Bomb),
    {
        match self.kind {
            CombinationKind::Ordinary(_) => false,
            CombinationKind::Bomb(_) => true,
        }
    }
}

/// The rank at a natural value; the ace also stands below the two, at 1.
pub open spec fn rank_at(value: int) -> Rank {
    if value == 2 {
        Rank::Two
    } else if value == 3 {
        Rank::Three
    } else if value == 4 {
        Rank::Four
    } else if value == 5 {
        Rank::Five
    } else if value == 6 {
        Rank::Six
    } else if value == 7 {
        Rank::Seven
    } else if value == 8 {
        Rank::Eight
    } else if value == 9 {
        Rank::Nine
    } else if value == 10 {
        Rank::Ten
    } else if value == 11 {
        Rank::J
    } else if value == 12 {
        Rank::Q
    } else if value == 13 {
        Rank::K
    } else {
        Rank::A
    }
}

/// Cards of a rank.
pub open spec fn of_rank(rank: Rank) -> spec_fn(Card) -> bool {
    |c: Card| c.rank == rank
}

/// How many cards have a rank.
pub open spec fn count_rank(cards: Seq<Card>, rank: Rank) -> nat {
    tally(cards, of_rank(rank))
}

/// All cards have the rank of the first.
pub open spec fn one_rank(cards: Seq<Card>) -> bool {
    forall|i: int| 0 <= i < cards.len() ==> (#[trigger] cards[i]).rank == cards[0].rank
}

/// All cards have the suit of the first.
pub open spec fn one_suit(cards: Seq<Card>) -> bool {
    forall|i: int| 0 <= i < cards.len() ==> (#[trigger] cards[i]).suit == cards[0].suit
}

/// Each of the `k` ranks that end in `top` occurs exactly `m` times.
pub open spec fn run_to(cards: Seq<Card>, top: int, k: int, m: nat) -> bool {
    forall|v: int| top - k < v <= top ==> count_rank(cards, #[trigger] rank_at(v)) == m
}

/// The highest natural value, from `top` down, at which a run of `k` ranks ends.
pub open spec fn run_top(cards: Seq<Card>, top: int, k: int, m: nat) -> Option<int>
    decreases top,
{
    if k < 1 || top < k {
        None
    } else if run_to(cards, top, k, m) {
        Some(top)
    } else {
        run_top(cards, top - 1, k, m)
    }
}

/// The highest natural value, from `top` down, of a rank that occurs three times.
pub open spec fn triple_top(cards: Seq<Card>, top: int) -> Option<int>
    decreases top,
{
    if top < 2 {
        None
    } else if count_rank(cards, rank_at(top)) == 3 {
        Some(top)
    } else {
        triple_top(cards, top - 1)
    }
}

pub open spec fn has_pair(cards: Seq<Card>) -> bool {
    exists|rank: Rank| #[trigger] count_rank(cards, rank) == 2
}

pub open spec fn ordinary(kind: OrdinaryKind, primary: int) -> Option<Combination> {
    Some(Combination { kind: CombinationKind::Ordinary(kind), primary: primary as u8 })
}

pub open spec fn bomb(kind: BombKind, primary: int) -> Option<Combination> {
    Some(Combination { kind: CombinationKind::Bomb(kind), primary: primary as u8 })
}

/// The combination that cards form when each counts for what it shows.
///
/// Same-rank combinations and the full house compare by the order of their rank (of the
/// triple); straights, tubes and plates by the natural value of their highest rank.
pub open spec fn combination_shown(cards: Seq<Card>, ctx: RuleContext) -> Option<Combination> {
    let n = cards.len();
    let order = rank_order(cards[0].rank, ctx);
    if n == 0 || n > 10 {
        None
    } else if n == 1 {
        ordinary(OrdinaryKind::Single, order)
    } else if one_rank(cards) {
        if n == 2 {
            ordinary(OrdinaryKind::Pair, order)
        } else if is_joker_rank(cards[0].rank) {
            None
        } else if n == 3 {
            ordinary(OrdinaryKind::Triple, order)
        } else {
            bomb(BombKind::SameRank { n: n as u8 }, order)
        }
    } else if n == 4 {
        if count_rank(cards, Rank::RedJoker) == 2 && count_rank(cards, Rank::BlackJoker) == 2 {
            bomb(BombKind::FourJoker, 16)
        } else {
            None
        }
    } else if n == 5 {
        match run_top(cards, 14, 5, 1) {
            Some(top) => if one_suit(cards) {
                bomb(BombKind::StraightFlush, top)
            } else {
                ordinary(OrdinaryKind::Straight, top)
            },
            None => match triple_top(cards, 14) {
                Some(top) if has_pair(cards) => ordinary(
                    OrdinaryKind::FullHouse,
                    rank_order(rank_at(top), ctx),
                ),
                _ => None,
            },
        }
    } else if n == 6 {
        match run_top(cards, 14, 3, 2) {
            Some(top) => ordinary(OrdinaryKind::Tube, top),
            None => match run_top(cards, 14, 2, 3) {
                Some(top) => ordinary(OrdinaryKind::Plate, top),
                None => None,
            },
        }
    } else {
        None
    }
}

/// The cards that a wild card may stand for, suit by suit from the ace down.
pub open spec fn deck_card(i: int) -> Card {
    Card {
        suit: if i / 13 == 0 {
            Suit::Spades
        } else if i / 13 == 1 {
            Suit::Hearts
        } else if i / 13 == 2 {
            Suit::Diamonds
        } else {
            Suit::Clubs
        },
        rank: rank_at(14 - i % 13),
    }
}

/// The first combination found when the wild cards from place `pos` on stand for each card
/// in turn, the one at `pos` from the deck's `t`-th card on.
pub open spec fn combination_sought(
    cards: Seq<Card>,
    ctx: RuleContext,
    pos: int,
    t: int,
) -> Option<Combination>
    decreases cards.len() - pos, 52 - t,
{
    if pos >= cards.len() {
        combination_shown(cards, ctx)
    } else if pos < 0 || !wild(cards[pos], ctx) {
        combination_sought(cards, ctx, pos + 1, 0)
    } else if t >= 52 {
        None
    } else {
        match combination_sought(cards.update(pos, deck_card(t)), ctx, pos + 1, 0) {
            Some(found) => Some(found),
            None => combination_sought(cards, ctx, pos, t + 1),
        }
    }
}

/// The combination of cards whose wild cards stand for `targets`, or, where no targets are
/// given, for whatever makes a combination.
pub open spec fn combination_of(
    cards: Seq<Card>,
    targets: Option<Seq<Card>>,
    ctx: RuleContext,
) -> Option<Combination> {
    match targets {
        None => combination_sought(cards, ctx, 0, 0),
        Some(list) => if fits(cards, list, ctx) {
            combination_shown(substituted(cards, list, ctx), ctx)
        } else {
            None
        },
    }
}

/// Every rank but a joker stands at its natural value.
pub proof fn lemma_rank_at(rank: Rank)
    requires
        !is_joker_rank(rank),
    ensures
        2 <= natural(rank) <= 14,
        rank_at(natural(rank)) == rank,
{
}

/// The rank at a natural value.
pub fn rank_from_value(value: u8) -> (rank: Rank)
    ensures
        rank == rank_at(value as int),
{
    match value {
        2 => Rank::Two,
        3 => Rank::Three,
        4 => Rank::Four,
        5 => Rank::Five,
        6 => Rank::Six,
        7 => Rank::Seven,
        8 => Rank::Eight,
        9 => Rank::Nine,
        10 => Rank::Ten,
        11 => Rank::J,
        12 => Rank::Q,
        13 => Rank::K,
        _ => Rank::A,
    }
}

/// Counts the cards of a rank.
pub fn number_of_rank(cards: &[Card], rank: Rank) -> (n: usize)
    ensures
        n == count_rank(cards@, rank),
        n <= cards@.len(),
{
    let has = |c: Card| -> (b: bool)
        ensures
            b == (c.rank == rank),
        { c.rank == rank };
    count_where(cards, has, Ghost(of_rank(rank)))
}

/// The number of cards at each natural value, the ace at 1 as well as at 14.
pub fn count_by_value(cards: &[Card]) -> (counts: Vec<usize>)
    ensures
        counts@.len() == 15,
        forall|v: int| 1 <= v <= 14 ==> #[trigger] counts@[v] == count_rank(cards@, rank_at(v)),
{
    let mut counts: Vec<usize> = vec![0; 15];
    for i in 0..cards.len()
        invariant
            counts@.len() == 15,
            forall|v: int|
                1 <= v <= 14 ==> #[trigger] counts@[v] == count_rank(
                    cards@.take(i as int),
                    rank_at(v),
                ),
            forall|v: int| 1 <= v <= 14 ==> #[trigger] counts@[v] <= i,
    {
        let value: usize = natural_of(cards[i].rank) as usize;
        proof {
            assert forall|v: int| 1 <= v <= 14 implies count_rank(
                cards@.take(i + 1),
                #[trigger] rank_at(v),
            ) == count_rank(cards@.take(i as int), rank_at(v)) + if cards@[i as int].rank
                == rank_at(v) {
                1nat
            } else {
                0nat
            } by {
                lemma_tally_step(cards@, of_rank(rank_at(v)), i as int);
            }
        }
        if value >= 2 {
            let n: usize = counts[value];
            counts[value] = n + 1;
            if value == 14 {
                counts[1] = n + 1;
            }
        }
    }
    assert(cards@.take(cards@.len() as int) =~= cards@);
    counts
}

fn ends_run(counts: &Vec<usize>, top: usize, k: usize, m: usize, Ghost(cards): Ghost<Seq<Card>>) -> (b:
    bool)
    requires
        counts@.len() == 15,
        forall|v: int| 1 <= v <= 14 ==> #[trigger] counts@[v] == count_rank(cards, rank_at(v)),
        1 <= k <= top <= 14,
    ensures
        b == run_to(cards, top as int, k as int, m as nat),
{
    for j in 0..k
        invariant
            counts@.len() == 15,
            forall|v: int| 1 <= v <= 14 ==> #[trigger] counts@[v] == count_rank(cards, rank_at(v)),
            1 <= k <= top <= 14,
            forall|v: int| top - j < v <= top ==> count_rank(cards, #[trigger] rank_at(v)) == m,
    {
        if counts[top - j] != m {
            assert(count_rank(cards, rank_at(top - j)) != m);
            return false;
        }
    }
    true
}

fn find_run(counts: &Vec<usize>, k: usize, m: usize, Ghost(cards): Ghost<Seq<Card>>) -> (top:
    Option<u8>)
    requires
        counts@.len() == 15,
        forall|v: int| 1 <= v <= 14 ==> #[trigger] counts@[v] == count_rank(cards, rank_at(v)),
        1 <= k <= 14,
    ensures
        match top {
            Some(t) => run_top(cards, 14, k as int, m as nat) == Some(t as int),
            None => run_top(cards, 14, k as int, m as nat) is None,
        },
        top matches Some(t) ==> t <= 14,
{
    let mut top: usize = 14;
    while top >= k
        invariant
            counts@.len() == 15,
            forall|v: int| 1 <= v <= 14 ==> #[trigger] counts@[v] == count_rank(cards, rank_at(v)),
            1 <= k <= 14,
            top <= 14,
            run_top(cards, 14, k as int, m as nat) == run_top(
                cards,
                top as int,
                k as int,
                m as nat,
            ),
        decreases top,
    {
        if ends_run(counts, top, k, m, Ghost(cards)) {
            return Some(top as u8);
        }
        top = top - 1;
    }
    None
}

fn find_triple(counts: &Vec<usize>, Ghost(cards): Ghost<Seq<Card>>) -> (top: Option<u8>)
    requires
        counts@.len() == 15,
        forall|v: int| 1 <= v <= 14 ==> #[trigger] counts@[v] == count_rank(cards, rank_at(v)),
    ensures
        match top {
            Some(t) => triple_top(cards, 14) == Some(t as int),
            None => triple_top(cards, 14) is None,
        },
        top matches Some(t) ==> 2 <= t <= 14,
{
    let mut top: usize = 14;
    while top >= 2
        invariant
            counts@.len() == 15,
            forall|v: int| 1 <= v <= 14 ==> #[trigger] counts@[v] == count_rank(cards, rank_at(v)),
            top <= 14,
            triple_top(cards, 14) == triple_top(cards, top as int),
        decreases top,
    {
        if counts[top] == 3 {
            return Some(top as u8);
        }
        top = top - 1;
    }
    None
}

fn any_pair(cards: &[Card], counts: &Vec<usize>) -> (b: bool)
    requires
        counts@.len() == 15,
        forall|v: int| 1 <= v <= 14 ==> #[trigger] counts@[v] == count_rank(cards@, rank_at(v)),
    ensures
        b == has_pair(cards@),
{
    for v in 2..15
        invariant
            counts@.len() == 15,
            forall|v: int|
                1 <= v <= 14 ==> #[trigger] counts@[v] == count_rank(cards@, rank_at(v)),
            forall|w: int| 2 <= w < v ==> count_rank(cards@, #[trigger] rank_at(w)) != 2,
    {
        if counts[v] == 2 {
            assert(count_rank(cards@, rank_at(v as int)) == 2);
            return true;
        }
    }
    if number_of_rank(cards, Rank::RedJoker) == 2 || number_of_rank(cards, Rank::BlackJoker) == 2 {
        return true;
    }
    proof {
        assert forall|rank: Rank| #[trigger] count_rank(cards@, rank) != 2 by {
            if !is_joker_rank(rank) {
                lemma_rank_at(rank);
                assert(count_rank(cards@, rank_at(natural(rank))) != 2);
            }
        }
    }
    false
}

fn shares_rank(cards: &[Card]) -> (b: bool)
    requires
        cards@.len() > 0,
    ensures
        b == one_rank(cards@),
{
    for i in 0..cards.len()
        invariant
            cards@.len() > 0,
            forall|j: int| 0 <= j < i ==> (#[trigger] cards@[j]).rank == cards@[0].rank,
    {
        if cards[i].rank != cards[0].rank {
            return false;
        }
    }
    true
}

fn shares_suit(cards: &[Card]) -> (b: bool)
    requires
        cards@.len() > 0,
    ensures
        b == one_suit(cards@),
{
    for i in 0..cards.len()
        invariant
            cards@.len() > 0,
            forall|j: int| 0 <= j < i ==> (#[trigger] cards@[j]).suit == cards@[0].suit,
    {
        if cards[i].suit != cards[0].suit {
            return false;
        }
    }
    true
}

fn new_ordinary(kind: OrdinaryKind, primary: u8) -> (c: Option<Combination>)
    ensures
        c == ordinary(kind, primary as int),
{
    Some(Combination { kind: CombinationKind::Ordinary(kind), primary })
}

fn new_bomb(kind: BombKind, primary: u8) -> (c: Option<Combination>)
    ensures
        c == bomb(kind, primary as int),
{
    Some(Combination { kind: CombinationKind::Bomb(kind), primary })
}

/// The combination that cards form when each counts for what it shows.
pub fn classify(cards: &[Card], ctx: RuleContext) -> (c: Option<Combination>)
    ensures
        c == combination_shown(cards@, ctx),
{
    let n: usize = cards.len();
    if n == 0 || n > 10 {
        return None;
    }
    let order: u8 = level_order_value(cards[0], ctx);
    if n == 1 {
        return new_ordinary(OrdinaryKind::Single, order);
    }
    if shares_rank(cards) {
        let joker = match cards[0].rank {
            Rank::BlackJoker | Rank::RedJoker => true,
            _ => false,
        };
        return if n == 2 {
            new_ordinary(OrdinaryKind::Pair, order)
        } else if joker {
            None
        } else if n == 3 {
            new_ordinary(OrdinaryKind::Triple, order)
        } else {
            new_bomb(BombKind::SameRank { n: n as u8 }, order)
        };
    }
    if n == 4 {
        return if number_of_rank(cards, Rank::RedJoker) == 2 && number_of_rank(
            cards,
            Rank::BlackJoker,
        ) == 2 {
            new_bomb(BombKind::FourJoker, 16)
        } else {
            None
        };
    }
    if n == 5 {
        let counts = count_by_value(cards);
        return match find_run(&counts, 5, 1, Ghost(cards@)) {
            Some(top) => if shares_suit(cards) {
                new_bomb(BombKind::StraightFlush, top)
            } else {
                new_ordinary(OrdinaryKind::Straight, top)
            },
            None => match find_triple(&counts, Ghost(cards@)) {
                Some(top) => if any_pair(cards, &counts) {
                    let rank = rank_from_value(top);
                    new_ordinary(
                        OrdinaryKind::FullHouse,
                        level_order_value(Card { suit: Suit::Spades, rank }, ctx),
                    )
                } else {
                    None
                },
                None => None,
            },
        };
    }
    if n == 6 {
        let counts = count_by_value(cards);
        return match find_run(&counts, 3, 2, Ghost(cards@)) {
            Some(top) => new_ordinary(OrdinaryKind::Tube, top),
            None => match find_run(&counts, 2, 3, Ghost(cards@)) {
                Some(top) => new_ordinary(OrdinaryKind::Plate, top),
                None => None,
            },
        };
    }
    None
}

/// The `i`-th card that a wild card may stand for.
pub fn nth_deck_card(i: usize) -> (card: Card)
    requires
        i < 52,
    ensures
        card == deck_card(i as int),
        card_ok(card),
{
    let suit = match i / 13 {
        0 => Suit::Spades,
        1 => Suit::Hearts,
        2 => Suit::Diamonds,
        _ => Suit::Clubs,
    };
    Card { suit, rank: rank_from_value((14 - i % 13) as u8) }
}

fn seek(cards: &mut Vec<Card>, ctx: RuleContext, pos: usize) -> (c: Option<Combination>)
    requires
        pos <= old(cards)@.len(),
    ensures
        c == combination_sought(old(cards)@, ctx, pos as int, 0),
        final(cards)@ == old(cards)@,
    decreases old(cards)@.len() - pos,
{
    let ghost before = cards@;
    let n: usize = cards.len();
    if pos >= n {
        return classify(cards.as_slice(), ctx);
    }
    let own = cards[pos];
    if !is_wild(own, ctx) {
        return seek(cards, ctx, pos + 1);
    }
    let mut t: usize = 0;
    while t < 52
        invariant
            t <= 52,
            before == old(cards)@,
            before.len() == n,
            pos < n,
            own == before[pos as int],
            wild(own, ctx),
            cards@ == before,
            combination_sought(before, ctx, pos as int, 0) == combination_sought(
                before,
                ctx,
                pos as int,
                t as int,
            ),
        decreases 52 - t,
    {
        cards[pos] = nth_deck_card(t);
        let found = seek(cards, ctx, pos + 1);
        cards[pos] = own;
        assert(cards@ =~= before);
        if found.is_some() {
            return found;
        }
        t = t + 1;
    }
    None
}

/// The combination of cards, with the wild cards standing for `targets` where given.
pub fn combine(cards: &[Card], targets: Option<&[Card]>, ctx: RuleContext) -> (c: Option<
    Combination,
>)
    ensures
        c == combination_of(
            cards@,
            match targets {
                Some(list) => Some(list@),
                None => None,
            },
            ctx,
        ),
{
    match targets {
        None => {
            let mut own = copy_all(cards);
            seek(&mut own, ctx, 0)
        },
        Some(list) => match substitute(cards, list, ctx) {
            Some(shown) => classify(shown.as_slice(), ctx),
            None => None,
        },
    }
}

/// The combination of cards given by their symbols, or a message why there is none.
pub open spec fn combination_named(
    cards: Seq<String>,
    targets: Option<Seq<String>>,
    ctx: RuleContext,
) -> Result<Combination, Seq<char>> {
    match targets {
        None => match cards_named(cards) {
            Err(message) => Err(message),
            Ok(own) => match combination_sought(own, ctx, 0, 0) {
                Some(c) => Ok(c),
                None => Err("not a legal combination"@),
            },
        },
        Some(list) => match resolution(cards, list, ctx) {
            Err(message) => Err(message),
            Ok(shown) => match combination_shown(shown, ctx) {
                Some(c) => Ok(c),
                None => Err("not a legal combination"@),
            },
        },
    }
}

pub struct CombinationParser;

impl CombinationParser {
    /// The combination that cards form. Wild cards stand for the given targets; where no
    /// targets are given, for whatever makes a combination.
    pub fn parse(cards: &[String], wild_targets: Option<&[String]>, ctx: RuleContext) -> (c: Result<
        Combination,
        String,
    >)
        ensures
            ({
                let expected = combination_named(
                    cards@,
                    match wild_targets {
                        Some(list) => Some(list@),
                        None => None,
                    },
                    ctx,
                );
                match c {
                    Ok(found) => expected == Ok::<Combination, Seq<char>>(found),
                    Err(message) => expected == Err::<Combination, Seq<char>>(message@),
                }
            }),
    {
        let found = match wild_targets {
            None => match parse_cards(cards) {
                Ok(own) => combine(own.as_slice(), None, ctx),
                Err(message) => {
                    return Err(message);
                },
            },
            Some(_) => match WildcardResolver::resolve(cards, wild_targets, ctx) {
                Ok(shown) => classify(shown.as_slice(), ctx),
                Err(message) => {
                    return Err(message);
                },
            },
        };
        match found {
            Some(c) => Ok(c),
            None => Err("not a legal combination".to_owned()),
        }
    }
}

proof fn lemma_run_top(cards: Seq<Card>, top: int, k: int, m: nat)
    requires
        k >= 1,
    ensures
        match run_top(cards, top, k, m) {
            Some(t) => k <= t <= top && run_to(cards, t, k, m) && forall|u: int|
                t < u <= top ==> !#[trigger] run_to(cards, u, k, m),
            None => forall|u: int| k <= u <= top ==> !#[trigger] run_to(cards, u, k, m),
        },
    decreases top,
{
    if top >= k {
        lemma_run_top(cards, top - 1, k, m);
    }
}

proof fn lemma_triple_top(cards: Seq<Card>, top: int)
    ensures
        match triple_top(cards, top) {
            Some(t) => 2 <= t <= top && count_rank(cards, rank_at(t)) == 3,
            None => forall|u: int| 2 <= u <= top ==> count_rank(cards, #[trigger] rank_at(u)) != 3,
        },
    decreases top,
{
    if top >= 2 {
        lemma_triple_top(cards, top - 1);
    }
}

/// One card is a single; two equal cards a pair, jokers too; three a triple and four to ten a bomb,
/// jokers not. All of them compare by the order of their rank at the hand's level.
pub proof fn equal_cards_combine(cards: Seq<Card>, ctx: RuleContext)
    requires
        1 <= cards.len() <= 10,
        forall|i: int| 0 <= i < cards.len() ==> (#[trigger] cards[i]).rank == cards[0].rank,
    ensures
        ({
            let found = combination_shown(cards, ctx);
            let joker = cards[0].rank == Rank::BlackJoker || cards[0].rank == Rank::RedJoker;
            &&& cards.len() >= 3 && joker <==> found is None
            &&& found matches Some(c) ==> c.primary == rank_order(cards[0].rank, ctx)
            &&& cards.len() == 1 ==> (found matches Some(c) && c.kind == CombinationKind::Ordinary(
                OrdinaryKind::Single,
            ))
            &&& cards.len() == 2 ==> (found matches Some(c) && c.kind == CombinationKind::Ordinary(
                OrdinaryKind::Pair,
            ))
            &&& cards.len() == 3 && !joker ==> (found matches Some(c) && c.kind
                == CombinationKind::Ordinary(OrdinaryKind::Triple))
            &&& cards.len() >= 4 && !joker ==> (found matches Some(c) && c.kind
                == CombinationKind::Bomb(BombKind::SameRank { n: cards.len() as u8 }))
        }),
{
}

/// Two or three cards of different ranks are nothing, and of four only the jokers are something,
/// the greatest bomb; seven or more cards of different ranks are nothing, nor are more than ten.
pub proof fn mixed_cards_seldom_combine(cards: Seq<Card>, ctx: RuleContext, i: int)
    requires
        0 <= i < cards.len(),
        cards[i].rank != cards[0].rank,
    ensures
        cards.len() <= 3 || cards.len() >= 7 ==> combination_shown(cards, ctx) is None,
        cards.len() == 4 ==> (combination_shown(cards, ctx) is Some <==> count_rank(
            cards,
            Rank::RedJoker,
        ) == 2 && count_rank(cards, Rank::BlackJoker) == 2),
        cards.len() == 4 ==> (combination_shown(cards, ctx) matches Some(c) ==> c.kind
            == CombinationKind::Bomb(BombKind::FourJoker)),
{
}

/// Five cards whose ranks follow each other are a straight, and a straight flush in one suit; the
/// ace may come below the two or above the king. It compares by the natural value of its highest
/// rank. Five cards are nothing else but a full house, which has three cards of one rank and a
/// pair of another and compares by the rank of the three.
pub proof fn five_cards_combine(cards: Seq<Card>, ctx: RuleContext, top: int)
    requires
        cards.len() == 5,
        !one_rank(cards),
    ensures
        ({
            let found = combination_shown(cards, ctx);
            let row = forall|v: int|
                top - 5 < v <= top ==> count_rank(cards, #[trigger] rank_at(v)) == 1;
            &&& 5 <= top <= 14 && row ==> (found matches Some(c) && 5 <= c.primary <= 14 && c.primary
                >= top && (one_suit(cards) ==> c.kind == CombinationKind::Bomb(
                BombKind::StraightFlush,
            )) && (!one_suit(cards) ==> c.kind == CombinationKind::Ordinary(
                OrdinaryKind::Straight,
            )))
            &&& (found matches Some(c) && c.kind != CombinationKind::Ordinary(
                OrdinaryKind::FullHouse,
            )) ==> ({
                let high = found->Some_0.primary as int;
                (forall|v: int|
                    high - 5 < v <= high ==> count_rank(cards, #[trigger] rank_at(v)) == 1) && (
                found->Some_0.kind == CombinationKind::Bomb(BombKind::StraightFlush) <==> one_suit(
                    cards,
                )) && (found->Some_0.kind == CombinationKind::Ordinary(OrdinaryKind::Straight) <==>
                    !one_suit(cards))
            })
            &&& (found matches Some(c) && c.kind == CombinationKind::Ordinary(
                OrdinaryKind::FullHouse,
            )) ==> exists|t: int|
                2 <= t <= 14 && count_rank(cards, #[trigger] rank_at(t)) == 3 && rank_order(
                    rank_at(t),
                    ctx,
                ) == found->Some_0.primary && has_pair(cards)
        }),
{
    lemma_run_top(cards, 14, 5, 1);
    lemma_triple_top(cards, 14);
    if 5 <= top <= 14 {
        let row = forall|v: int|
            top - 5 < v <= top ==> count_rank(cards, #[trigger] rank_at(v)) == 1;
        assert(row ==> run_to(cards, top, 5, 1));
    }
    if let Some(t) = run_top(cards, 14, 5, 1) {
        assert(run_to(cards, t, 5, 1));
    }
}

/// Six cards of different ranks are three pairs in a row or two triples in a row, each compared by
/// the natural value of the highest rank, or nothing.
pub proof fn six_cards_combine(cards: Seq<Card>, ctx: RuleContext, top: int)
    requires
        cards.len() == 6,
        !one_rank(cards),
    ensures
        ({
            let found = combination_shown(cards, ctx);
            let pairs = forall|v: int|
                top - 3 < v <= top ==> count_rank(cards, #[trigger] rank_at(v)) == 2;
            let triples = forall|v: int|
                top - 2 < v <= top ==> count_rank(cards, #[trigger] rank_at(v)) == 3;
            &&& 3 <= top <= 14 && pairs ==> (found matches Some(c) && c.kind
                == CombinationKind::Ordinary(OrdinaryKind::Tube) && c.primary >= top)
            &&& 2 <= top <= 14 && triples ==> found is Some
            &&& found matches Some(c) ==> c.kind == CombinationKind::Ordinary(OrdinaryKind::Tube)
                || c.kind == CombinationKind::Ordinary(OrdinaryKind::Plate)
            &&& (found matches Some(c) && c.kind == CombinationKind::Ordinary(OrdinaryKind::Tube))
                ==> ({
                let high = found->Some_0.primary as int;
                forall|v: int|
                    high - 3 < v <= high ==> count_rank(cards, #[trigger] rank_at(v)) == 2
            })
            &&& (found matches Some(c) && c.kind == CombinationKind::Ordinary(OrdinaryKind::Plate))
                ==> ({
                let high = found->Some_0.primary as int;
                forall|v: int|
                    high - 2 < v <= high ==> count_rank(cards, #[trigger] rank_at(v)) == 3
            })
        }),
{
    lemma_run_top(cards, 14, 3, 2);
    lemma_run_top(cards, 14, 2, 3);
    let pairs = forall|v: int| top - 3 < v <= top ==> count_rank(cards, #[trigger] rank_at(v)) == 2;
    let triples = forall|v: int| top - 2 < v <= top ==> count_rank(cards, #[trigger] rank_at(v)) == 3;
    assert(pairs ==> run_to(cards, top, 3, 2));
    assert(triples ==> run_to(cards, top, 2, 3));
    if let Some(t) = run_top(cards, 14, 3, 2) {
        assert(run_to(cards, t, 3, 2));
    }
    if let Some(t) = run_top(cards, 14, 2, 3) {
        assert(run_to(cards, t, 2, 3));
    }
}

/// Cards without a wild one form what they show.
pub proof fn plain_cards_form_what_they_show(cards: Seq<Card>, ctx: RuleContext, pos: int)
    requires
        0 <= pos,
        forall|i: int| 0 <= i < cards.len() ==> !wild(#[trigger] cards[i], ctx),
    ensures
        combination_sought(cards, ctx, pos, 0) == combination_shown(cards, ctx),
        combination_of(cards, None, ctx) == combination_shown(cards, ctx),
    decreases cards.len() - pos,
{
    if pos < cards.len() {
        plain_cards_form_what_they_show(cards, ctx, pos + 1);
        assert(!wild(cards[pos], ctx));
    }
    if pos != 0 {
        lemma_plain_sought(cards, ctx, 0);
    }
}

proof fn lemma_plain_sought(cards: Seq<Card>, ctx: RuleContext, pos: int)
    requires
        0 <= pos,
        forall|i: int| 0 <= i < cards.len() ==> !wild(#[trigger] cards[i], ctx),
    ensures
        combination_sought(cards, ctx, pos, 0) == combination_shown(cards, ctx),
    decreases cards.len() - pos,
{
    if pos < cards.len() {
        lemma_plain_sought(cards, ctx, pos + 1);
        assert(!wild(cards[pos], ctx));
    }
}

} // verus!
