//! What a hand is made of, and what a play would break up.

use vstd::prelude::*;
use crate::cards::{
    Card, Rank, RuleContext, Suit, Symbol, is_wild, level_rank, natural, natural_of, wild,
};
use crate::combination_parser::{BombKind, CombinationKind, OrdinaryKind, rank_at, rank_from_value};
use crate::hand_view::{
    count_plain, is_wild_symbol, plain_at, plain_count, plain_value, symbol_is_wild,
};
use crate::movegen::{black_joker, count_symbol, is_symbol, red_joker};
use crate::tally::{count_where, lemma_tally_order, lemma_tally_step, tally};

verus! {

/// Up to this many cards in hand, wild cards and bombs follow the rules of the endgame.
pub const DUAL_WILD_HAND_ENDGAME: usize = 6;

/// Penalty of a play that is never to be made.
pub const BANNED: u32 = 99999;

/// How many natural values from `v` on pass a test.
pub open spec fn values_from(v: int, test: spec_fn(int) -> bool) -> nat
    decreases 15 - v,
{
    if v > 14 {
        0
    } else {
        values_from(v + 1, test) + if test(v) {
            1nat
        } else {
            0nat
        }
    }
}

/// Whether a hand holds the plain card of a suit at a natural value.
pub open spec fn holds_at(hand: Seq<Symbol>, ctx: RuleContext, suit: Suit, v: int) -> bool {
    let card = Card { suit, rank: rank_at(v) };
    !wild(card, ctx) && hand.contains(Symbol::Known(card))
}

/// Whether a hand holds the plain card of a suit at a natural value, and not as part of four or
/// more equal cards.
pub open spec fn free_at(hand: Seq<Symbol>, ctx: RuleContext, suit: Suit, v: int) -> bool {
    holds_at(hand, ctx, suit, v) && plain_count(hand, ctx, v) < 4
}

/// How many straight flushes the plain cards of a suit form from value `v` on, where `run`
/// of the values just before are held and not yet used. Cards of a bomb do not count.
pub open spec fn flush_runs(hand: Seq<Symbol>, ctx: RuleContext, suit: Suit, v: int, run: int) -> nat
    decreases 15 - v,
{
    if v > 14 {
        0
    } else if !free_at(hand, ctx, suit, v) {
        flush_runs(hand, ctx, suit, v + 1, 0)
    } else if run + 1 >= 5 {
        1 + flush_runs(hand, ctx, suit, v + 1, 0)
    } else {
        flush_runs(hand, ctx, suit, v + 1, run + 1)
    }
}

/// How many straight flushes the plain cards of a hand form.
pub open spec fn flush_count(hand: Seq<Symbol>, ctx: RuleContext) -> nat {
    flush_runs(hand, ctx, Suit::Spades, 2, 0) + flush_runs(hand, ctx, Suit::Hearts, 2, 0)
        + flush_runs(hand, ctx, Suit::Diamonds, 2, 0) + flush_runs(hand, ctx, Suit::Clubs, 2, 0)
}

pub open spec fn bomb_value(hand: Seq<Symbol>, ctx: RuleContext) -> spec_fn(int) -> bool {
    |v: int| plain_count(hand, ctx, v) >= 4
}

pub open spec fn single_value(hand: Seq<Symbol>, ctx: RuleContext) -> spec_fn(int) -> bool {
    |v: int| plain_count(hand, ctx, v) == 1
}

/// The four jokers and no other.
pub open spec fn all_jokers(hand: Seq<Symbol>) -> bool {
    tally(hand, is_symbol(red_joker())) == 2 && tally(hand, is_symbol(black_joker())) == 2
}

/// How many bombs a hand holds without the help of wild cards.
pub open spec fn bomb_count(hand: Seq<Symbol>, ctx: RuleContext) -> nat {
    values_from(2, bomb_value(hand, ctx)) + flush_count(hand, ctx) + if all_jokers(hand) {
        1nat
    } else {
        0nat
    }
}

/// How many ranks a hand holds exactly one plain card of.
pub open spec fn singles_count(hand: Seq<Symbol>, ctx: RuleContext) -> nat {
    values_from(2, single_value(hand, ctx))
}

/// Whether the triple of a value has a triple next to it.
pub open spec fn in_plate(hand: Seq<Symbol>, ctx: RuleContext, v: int) -> bool {
    plain_count(hand, ctx, v) >= 3 && ((v > 2 && plain_count(hand, ctx, v - 1) >= 3) || (v < 14
        && plain_count(hand, ctx, v + 1) >= 3))
}

pub open spec fn paired(hand: Seq<Symbol>, ctx: RuleContext, v: int) -> bool {
    2 <= v <= 14 && plain_count(hand, ctx, v) >= 2
}

/// Whether the pair of a value is one of three pairs in a row.
pub open spec fn in_tube(hand: Seq<Symbol>, ctx: RuleContext, v: int) -> bool {
    paired(hand, ctx, v) && ((paired(hand, ctx, v - 2) && paired(hand, ctx, v - 1)) || (paired(
        hand,
        ctx,
        v - 1,
    ) && paired(hand, ctx, v + 1)) || (paired(hand, ctx, v + 1) && paired(hand, ctx, v + 2)))
}

/// What a hand is made of.
#[derive(Debug)]
pub struct HandCombos {
    /// Number of plain cards at each natural value.
    pub counts: Vec<usize>,
    /// Number of bombs that need no wild card.
    pub bomb_count: usize,
    pub straight_flush_count: usize,
    /// Number of ranks with one plain card.
    pub singles_count: usize,
    pub wild_count: usize,
}

pub open spec fn wild_symbols(ctx: RuleContext) -> spec_fn(Symbol) -> bool {
    |s: Symbol| is_wild_symbol(s, ctx)
}

impl HandCombos {
    /// These are the combinations of a hand.
    pub open spec fn of(self, hand: Seq<Symbol>, ctx: RuleContext) -> bool {
        &&& self.counts@.len() == 15
        &&& forall|v: int| 2 <= v <= 14 ==> #[trigger] self.counts@[v] == plain_count(hand, ctx, v)
        &&& self.bomb_count == bomb_count(hand, ctx)
        &&& self.straight_flush_count == flush_count(hand, ctx)
        &&& self.singles_count == singles_count(hand, ctx)
        &&& self.wild_count == tally(hand, wild_symbols(ctx))
    }
}

fn holds_card(hand: &[Symbol], card: Card) -> (b: bool)
    ensures
        b == hand@.contains(Symbol::Known(card)),
{
    for i in 0..hand.len()
        invariant
            forall|j: int| 0 <= j < i ==> #[trigger] hand@[j] != Symbol::Known(card),
    {
        if hand[i] == Symbol::Known(card) {
            return true;
        }
    }
    false
}

/// Whether a hand holds the plain card of a suit at a natural value.
pub fn holds_plain_at(hand: &[Symbol], ctx: RuleContext, suit: Suit, v: u8) -> (b: bool)
    ensures
        b == holds_at(hand@, ctx, suit, v as int),
{
    let card = Card { suit, rank: rank_from_value(v) };
    !is_wild(card, ctx) && holds_card(hand, card)
}

fn count_flush_runs(hand: &[Symbol], counts: &Vec<usize>, ctx: RuleContext, suit: Suit) -> (n:
    usize)
    requires
        counts@.len() == 15,
        forall|v: int| 2 <= v <= 14 ==> #[trigger] counts@[v] == plain_count(hand@, ctx, v),
    ensures
        n == flush_runs(hand@, ctx, suit, 2, 0),
        n <= 13,
{
    let mut n: usize = 0;
    let mut run: usize = 0;
    let mut v: u8 = 2;
    while v <= 14
        invariant
            2 <= v <= 15,
            counts@.len() == 15,
            forall|v: int| 2 <= v <= 14 ==> #[trigger] counts@[v] == plain_count(hand@, ctx, v),
            n <= v - 2,
            run < 5,
            n + flush_runs(hand@, ctx, suit, v as int, run as int) == flush_runs(
                hand@,
                ctx,
                suit,
                2,
                0,
            ),
        decreases 15 - v,
    {
        if counts[v as usize] < 4 && holds_plain_at(hand, ctx, suit, v) {
            if run + 1 >= 5 {
                n = n + 1;
                run = 0;
            } else {
                run = run + 1;
            }
        } else {
            run = 0;
        }
        v = v + 1;
    }
    n
}

fn count_wild_symbols(hand: &[Symbol], ctx: RuleContext) -> (n: usize)
    ensures
        n == tally(hand@, wild_symbols(ctx)),
        n <= hand@.len(),
{
    let test = |s: Symbol| -> (b: bool)
        ensures
            b == is_wild_symbol(s, ctx),
        { symbol_is_wild(s, ctx) };
    count_where(hand, test, Ghost(wild_symbols(ctx)))
}

/// What a hand is made of.
pub fn analyze_hand_combos(hand: &[Symbol], ctx: RuleContext) -> (combos: HandCombos)
    ensures
        combos.of(hand@, ctx),
        combos.singles_count <= 13,
        combos.bomb_count <= 66,
{
    let counts = count_plain(hand, ctx);
    let mut bombs: usize = 0;
    let mut singles: usize = 0;
    let mut v: usize = 2;
    while v <= 14
        invariant
            2 <= v <= 15,
            counts@.len() == 15,
            forall|v: int| 2 <= v <= 14 ==> #[trigger] counts@[v] == plain_count(hand@, ctx, v),
            bombs <= v - 2,
            singles <= v - 2,
            bombs + values_from(v as int, bomb_value(hand@, ctx)) == values_from(
                2,
                bomb_value(hand@, ctx),
            ),
            singles + values_from(v as int, single_value(hand@, ctx)) == values_from(
                2,
                single_value(hand@, ctx),
            ),
        decreases 15 - v,
    {
        if counts[v] >= 4 {
            bombs = bombs + 1;
        }
        if counts[v] == 1 {
            singles = singles + 1;
        }
        v = v + 1;
    }
    let flushes: usize = count_flush_runs(hand, &counts, ctx, Suit::Spades) + count_flush_runs(
        hand,
        &counts,
        ctx,
        Suit::Hearts,
    ) + count_flush_runs(hand, &counts, ctx, Suit::Diamonds) + count_flush_runs(
        hand,
        &counts,
        ctx,
        Suit::Clubs,
    );
    let red = Card { suit: Suit::Joker, rank: Rank::RedJoker };
    let black = Card { suit: Suit::Joker, rank: Rank::BlackJoker };
    let jokers: usize = if count_symbol(hand, red) == 2 && count_symbol(hand, black) == 2 {
        1
    } else {
        0
    };
    HandCombos {
        counts,
        bomb_count: bombs + flushes + jokers,
        straight_flush_count: flushes,
        singles_count: singles,
        wild_count: count_wild_symbols(hand, ctx),
    }
}

proof fn lemma_values_from(v: int, a: spec_fn(int) -> bool, b: spec_fn(int) -> bool)
    requires
        forall|u: int| v <= u <= 14 ==> #[trigger] a(u) == b(u),
    ensures
        values_from(v, a) == values_from(v, b),
    decreases 15 - v,
{
    if v <= 14 {
        lemma_values_from(v + 1, a, b);
        assert(a(v) == b(v));
    }
}

proof fn lemma_flush_runs(
    hand: Seq<Symbol>,
    more: Seq<Symbol>,
    ctx: RuleContext,
    suit: Suit,
    v: int,
    run: int,
)
    requires
        forall|u: int| #[trigger] holds_at(more, ctx, suit, u) == holds_at(hand, ctx, suit, u),
        forall|u: int| #[trigger] plain_count(more, ctx, u) == plain_count(hand, ctx, u),
    ensures
        flush_runs(more, ctx, suit, v, run) == flush_runs(hand, ctx, suit, v, run),
    decreases 15 - v,
{
    if v <= 14 {
        assert(free_at(more, ctx, suit, v) == free_at(hand, ctx, suit, v));
        lemma_flush_runs(hand, more, ctx, suit, v + 1, 0);
        lemma_flush_runs(hand, more, ctx, suit, v + 1, run + 1);
    }
}

/// A wild card more, wherever it is put, leaves every group of a hand as it was: the numbers of
/// plain cards, which of them are held, the bombs, the straight flushes, the single cards, the
/// triples and the pairs in a row. There is one wild card more.
pub proof fn wild_card_forms_no_group(
    hand: Seq<Symbol>,
    more: Seq<Symbol>,
    wild_one: Symbol,
    ctx: RuleContext,
    before: HandCombos,
    after: HandCombos,
)
    requires
        is_wild_symbol(wild_one, ctx),
        more.to_multiset() == hand.push(wild_one).to_multiset(),
        before.of(hand, ctx),
        after.of(more, ctx),
    ensures
        after.bomb_count == before.bomb_count,
        after.straight_flush_count == before.straight_flush_count,
        after.singles_count == before.singles_count,
        after.wild_count == before.wild_count + 1,
        forall|v: int| 2 <= v <= 14 ==> #[trigger] after.counts@[v] == before.counts@[v],
        forall|card: Card|
            !wild(card, ctx) ==> #[trigger] more.contains(Symbol::Known(card)) == hand.contains(
                Symbol::Known(card),
            ),
        forall|v: int| #[trigger] in_plate(more, ctx, v) == in_plate(hand, ctx, v),
        forall|v: int| #[trigger] in_tube(more, ctx, v) == in_tube(hand, ctx, v),
{
    broadcast use vstd::seq_lib::group_to_multiset_ensures;

    let both = hand.push(wild_one);
    assert(both.drop_last() =~= hand);
    assert forall|v: int| #[trigger] plain_count(more, ctx, v) == plain_count(hand, ctx, v) by {
        lemma_tally_order(more, both, plain_at(ctx, v));
    }
    lemma_tally_order(more, both, wild_symbols(ctx));
    lemma_tally_order(more, both, is_symbol(red_joker()));
    lemma_tally_order(more, both, is_symbol(black_joker()));
    assert forall|card: Card| !wild(card, ctx) implies #[trigger] more.contains(Symbol::Known(card))
        == hand.contains(Symbol::Known(card)) by {
        let x = Symbol::Known(card);
        assert(more.contains(x) == (more.to_multiset().count(x) > 0));
        assert(hand.contains(x) == (hand.to_multiset().count(x) > 0));
        assert(both.to_multiset() == hand.to_multiset().insert(wild_one));
    }
    lemma_values_from(2, bomb_value(more, ctx), bomb_value(hand, ctx));
    lemma_values_from(2, single_value(more, ctx), single_value(hand, ctx));
    lemma_flush_runs(hand, more, ctx, Suit::Spades, 2, 0);
    lemma_flush_runs(hand, more, ctx, Suit::Hearts, 2, 0);
    lemma_flush_runs(hand, more, ctx, Suit::Diamonds, 2, 0);
    lemma_flush_runs(hand, more, ctx, Suit::Clubs, 2, 0);
}

/// Whether a play breaks up a bomb of the hand, and whether it may.
#[derive(Clone, Copy, Debug, PartialEq, Eq, Structural)]
pub enum BombSplitVerdict {
    NotBreaking,
    /// The play empties the hand, takes three singles along, or is a straight flush that
    /// leaves at most two.
    Exempt,
    Banned,
}

/// Cards of a natural value, wild or not.
pub open spec fn face_at(v: int) -> spec_fn(Card) -> bool {
    |c: Card| natural(c.rank) == v
}

pub open spec fn face_symbol_at(v: int) -> spec_fn(Symbol) -> bool {
    |s: Symbol| s is Known && natural(s->Known_0.rank) == v
}

/// Number of cards of a natural value in a play.
pub open spec fn faces(play: Seq<Card>, v: int) -> nat {
    tally(play, face_at(v))
}

/// Number of cards of a natural value in a hand.
pub open spec fn faces_held(hand: Seq<Symbol>, v: int) -> nat {
    tally(hand, face_symbol_at(v))
}

/// A play takes some but not all of four or more cards of a rank.
pub open spec fn breaks_bomb(play: Seq<Card>, hand: Seq<Symbol>) -> bool {
    exists|v: int|
        2 <= v <= 14 && #[trigger] faces_held(hand, v) >= 4 && 1 <= faces(play, v) < faces_held(
            hand,
            v,
        )
}

/// Cards whose rank occurs once in the hand.
pub open spec fn lone_in(hand: Seq<Symbol>) -> spec_fn(Card) -> bool {
    |c: Card| natural(c.rank) >= 2 && faces_held(hand, natural(c.rank)) == 1
}

pub open spec fn left_single(play: Seq<Card>, hand: Seq<Symbol>) -> spec_fn(int) -> bool {
    |v: int| faces_held(hand, v) - faces(play, v) == 1
}

/// The verdict on a play out of a hand of `held` cards.
pub open spec fn split_verdict(
    play: Seq<Card>,
    hand: Seq<Symbol>,
    kind: CombinationKind,
    held: int,
) -> BombSplitVerdict {
    if !breaks_bomb(play, hand) {
        BombSplitVerdict::NotBreaking
    } else if play.len() >= held {
        BombSplitVerdict::Exempt
    } else if held <= DUAL_WILD_HAND_ENDGAME {
        BombSplitVerdict::Banned
    } else if tally(play, lone_in(hand)) >= 3 {
        BombSplitVerdict::Exempt
    } else if kind == CombinationKind::Bomb(BombKind::StraightFlush) && values_from(
        2,
        left_single(play, hand),
    ) <= 2 {
        BombSplitVerdict::Exempt
    } else {
        BombSplitVerdict::Banned
    }
}

fn count_faces(play: &[Card]) -> (counts: Vec<usize>)
    ensures
        counts@.len() == 15,
        forall|v: int| 2 <= v <= 14 ==> #[trigger] counts@[v] == faces(play@, v),
{
    let mut counts: Vec<usize> = vec![0; 15];
    for i in 0..play.len()
        invariant
            counts@.len() == 15,
            forall|v: int|
                2 <= v <= 14 ==> #[trigger] counts@[v] == faces(play@.take(i as int), v),
            forall|v: int| 0 <= v <= 14 ==> #[trigger] counts@[v] <= i,
    {
        let value: usize = natural_of(play[i].rank) as usize;
        proof {
            assert forall|v: int| 2 <= v <= 14 implies #[trigger] faces(play@.take(i + 1), v)
                == faces(play@.take(i as int), v) + if natural(play@[i as int].rank) == v {
                1nat
            } else {
                0nat
            } by {
                lemma_tally_step(play@, face_at(v), i as int);
            }
        }
        let n: usize = counts[value];
        counts[value] = n + 1;
    }
    assert(play@.take(play@.len() as int) =~= play@);
    counts
}

fn count_faces_held(hand: &[Symbol]) -> (counts: Vec<usize>)
    ensures
        counts@.len() == 15,
        forall|v: int| 2 <= v <= 14 ==> #[trigger] counts@[v] == faces_held(hand@, v),
{
    let mut counts: Vec<usize> = vec![0; 15];
    for i in 0..hand.len()
        invariant
            counts@.len() == 15,
            forall|v: int|
                2 <= v <= 14 ==> #[trigger] counts@[v] == faces_held(hand@.take(i as int), v),
            forall|v: int| 0 <= v <= 14 ==> #[trigger] counts@[v] <= i,
    {
        let symbol = hand[i];
        proof {
            assert forall|v: int| 2 <= v <= 14 implies #[trigger] faces_held(hand@.take(i + 1), v)
                == faces_held(hand@.take(i as int), v) + if face_symbol_at(v)(hand@[i as int]) {
                1nat
            } else {
                0nat
            } by {
                lemma_tally_step(hand@, face_symbol_at(v), i as int);
            }
        }
        if let Symbol::Known(card) = symbol {
            let value: usize = natural_of(card.rank) as usize;
            let n: usize = counts[value];
            counts[value] = n + 1;
        }
    }
    assert(hand@.take(hand@.len() as int) =~= hand@);
    counts
}

/// The verdict on a play out of a hand of `my_remaining` cards.
pub fn classify_bomb_split(
    play: &[Card],
    hand: &[Symbol],
    kind: CombinationKind,
    my_remaining: usize,
) -> (verdict: BombSplitVerdict)
    ensures
        verdict == split_verdict(play@, hand@, kind, my_remaining as int),
{
    let own = count_faces_held(hand);
    let used = count_faces(play);
    let mut breaks = false;
    for v in 2..15
        invariant
            own@.len() == 15,
            used@.len() == 15,
            forall|v: int| 2 <= v <= 14 ==> #[trigger] own@[v] == faces_held(hand@, v),
            forall|v: int| 2 <= v <= 14 ==> #[trigger] used@[v] == faces(play@, v),
            breaks == exists|w: int|
                2 <= w < v && #[trigger] faces_held(hand@, w) >= 4 && 1 <= faces(play@, w)
                    < faces_held(hand@, w),
    {
        if own[v] >= 4 && used[v] >= 1 && used[v] < own[v] {
            assert(faces_held(hand@, v as int) >= 4);
            breaks = true;
        }
    }
    if !breaks {
        return BombSplitVerdict::NotBreaking;
    }
    if play.len() >= my_remaining {
        return BombSplitVerdict::Exempt;
    }
    if my_remaining <= DUAL_WILD_HAND_ENDGAME {
        return BombSplitVerdict::Banned;
    }
    let lone = |c: Card| -> (b: bool)
        ensures
            b == lone_in(hand@)(c),
        {
            let value: usize = natural_of(c.rank) as usize;
            value >= 2 && own[value] == 1
        };
    let carried: usize = count_where(play, lone, Ghost(lone_in(hand@)));
    if carried >= 3 {
        return BombSplitVerdict::Exempt;
    }
    if let CombinationKind::Bomb(BombKind::StraightFlush) = kind {
        let mut singles: usize = 0;
        let mut v: usize = 2;
        while v <= 14
            invariant
                2 <= v <= 15,
                own@.len() == 15,
                used@.len() == 15,
                forall|v: int| 2 <= v <= 14 ==> #[trigger] own@[v] == faces_held(hand@, v),
                forall|v: int| 2 <= v <= 14 ==> #[trigger] used@[v] == faces(play@, v),
                singles <= v - 2,
                singles + values_from(v as int, left_single(play@, hand@)) == values_from(
                    2,
                    left_single(play@, hand@),
                ),
            decreases 15 - v,
        {
            if own[v] > used[v] && own[v] - used[v] == 1 {
                singles = singles + 1;
            }
            v = v + 1;
        }
        if singles <= 2 {
            return BombSplitVerdict::Exempt;
        }
    }
    BombSplitVerdict::Banned
}

/// What bears on whether a play may break up groups of equal cards.
#[derive(Clone, Copy, Debug, PartialEq, Eq, Structural)]
pub struct SplitRules {
    /// The hand has a plain card of the level, or a joker.
    pub has_level_card_or_joker: bool,
    /// Endgame, no single in hand, and the partner has passed.
    pub allow_endgame_split: bool,
    /// A pair may be broken up to follow a single.
    pub unlock_pair_for_single: bool,
    /// A triple may be broken up to follow a pair.
    pub unlock_triple_for_pair: bool,
    /// Someone is about to run out of cards.
    pub feed_exempt: bool,
}

/// Cards that count as plain ones of the hand at a natural value.
pub open spec fn own_at(hand: Seq<Symbol>, ctx: RuleContext, v: int) -> spec_fn(Card) -> bool {
    |c: Card| plain_at(ctx, v)(Symbol::Known(c)) && hand.contains(Symbol::Known(c))
}

/// Number of plain cards of the hand at a natural value in a play.
pub open spec fn own_count(play: Seq<Card>, hand: Seq<Symbol>, ctx: RuleContext, v: int) -> nat {
    tally(play, own_at(hand, ctx, v))
}

/// A small penalty that grows as the rank falls, and by ten for a rank that is part of a
/// longer combination.
pub open spec fn graded(part: bool, v: int) -> u32 {
    ((if part {
        10int
    } else {
        0int
    }) + (14 - v)) as u32
}

/// The penalty for breaking up the cards of one value, if it decides.
pub open spec fn split_at(
    play: Seq<Card>,
    hand: Seq<Symbol>,
    ctx: RuleContext,
    kind: CombinationKind,
    rules: SplitRules,
    v: int,
) -> Option<u32> {
    let used = own_count(play, hand, ctx, v);
    let held = plain_count(hand, ctx, v);
    let level = v == natural(level_rank(ctx.hand_level));
    let straight = kind == CombinationKind::Ordinary(OrdinaryKind::Straight);
    let dear = v <= 10 || rules.has_level_card_or_joker;
    if used == 0 || used >= held {
        None
    } else if held >= 4 {
        if level {
            None
        } else {
            Some(BANNED)
        }
    } else if held == 3 {
        if in_plate(hand, ctx, v) && !rules.unlock_triple_for_pair {
            Some(BANNED)
        } else if level || straight || rules.allow_endgame_split {
            None
        } else if rules.unlock_triple_for_pair && kind == CombinationKind::Ordinary(
            OrdinaryKind::Pair,
        ) {
            Some(graded(in_plate(hand, ctx, v), v))
        } else if dear {
            Some(BANNED)
        } else {
            None
        }
    } else {
        let single = kind == CombinationKind::Ordinary(OrdinaryKind::Single);
        if in_tube(hand, ctx, v) && !rules.unlock_pair_for_single {
            Some(BANNED)
        } else if level || straight || rules.allow_endgame_split {
            None
        } else if single && (rules.feed_exempt || rules.unlock_pair_for_single) {
            Some(graded(in_tube(hand, ctx, v), v))
        } else if dear {
            Some(BANNED)
        } else {
            None
        }
    }
}

/// The penalty of the lowest value, from `v` on, that decides.
pub open spec fn split_from(
    play: Seq<Card>,
    hand: Seq<Symbol>,
    ctx: RuleContext,
    kind: CombinationKind,
    rules: SplitRules,
    v: int,
) -> u32
    decreases 15 - v,
{
    if v > 14 {
        0
    } else {
        match split_at(play, hand, ctx, kind, rules, v) {
            Some(penalty) => penalty,
            None => split_from(play, hand, ctx, kind, rules, v + 1),
        }
    }
}

/// Number of plain cards of the hand at each natural value in a play.
pub fn count_own(play: &[Card], hand: &[Symbol], ctx: RuleContext) -> (counts: Vec<usize>)
    ensures
        counts@.len() == 15,
        forall|v: int| 2 <= v <= 14 ==> #[trigger] counts@[v] == own_count(play@, hand@, ctx, v),
        forall|v: int| 0 <= v <= 14 ==> #[trigger] counts@[v] <= play@.len(),
{
    let mut counts: Vec<usize> = vec![0; 15];
    for i in 0..play.len()
        invariant
            counts@.len() == 15,
            forall|v: int|
                2 <= v <= 14 ==> #[trigger] counts@[v] == own_count(
                    play@.take(i as int),
                    hand@,
                    ctx,
                    v,
                ),
            forall|v: int| 0 <= v <= 14 ==> #[trigger] counts@[v] <= i,
    {
        proof {
            assert forall|v: int| 2 <= v <= 14 implies #[trigger] own_count(
                play@.take(i + 1),
                hand@,
                ctx,
                v,
            ) == own_count(play@.take(i as int), hand@, ctx, v) + if own_at(hand@, ctx, v)(
                play@[i as int],
            ) {
                1nat
            } else {
                0nat
            } by {
                lemma_tally_step(play@, own_at(hand@, ctx, v), i as int);
            }
        }
        let value: usize = plain_value(Symbol::Known(play[i]), ctx) as usize;
        if value >= 2 && holds_card(hand, play[i]) {
            let n: usize = counts[value];
            counts[value] = n + 1;
        }
    }
    assert(play@.take(play@.len() as int) =~= play@);
    counts
}

fn plate_part(combos: &HandCombos, v: usize, Ghost(hand): Ghost<Seq<Symbol>>, ctx: RuleContext) -> (b:
    bool)
    requires
        combos.of(hand, ctx),
        2 <= v <= 14,
    ensures
        b == in_plate(hand, ctx, v as int),
{
    combos.counts[v] >= 3 && ((v > 2 && combos.counts[v - 1] >= 3) || (v < 14 && combos.counts[v
        + 1] >= 3))
}

fn is_paired(combos: &HandCombos, v: usize, Ghost(hand): Ghost<Seq<Symbol>>, ctx: RuleContext) -> (b:
    bool)
    requires
        combos.of(hand, ctx),
    ensures
        b == paired(hand, ctx, v as int),
{
    2 <= v && v <= 14 && combos.counts[v] >= 2
}

fn tube_part(combos: &HandCombos, v: usize, Ghost(hand): Ghost<Seq<Symbol>>, ctx: RuleContext) -> (b:
    bool)
    requires
        combos.of(hand, ctx),
        2 <= v <= 14,
    ensures
        b == in_tube(hand, ctx, v as int),
{
    let below = is_paired(combos, v - 1, Ghost(hand), ctx);
    let above = is_paired(combos, v + 1, Ghost(hand), ctx);
    is_paired(combos, v, Ghost(hand), ctx) && ((is_paired(combos, v - 2, Ghost(hand), ctx) && below)
        || (below && above) || (above && is_paired(combos, v + 2, Ghost(hand), ctx)))
}

/// The penalty for breaking up groups of equal cards: 0 where it is allowed, [`BANNED`] where
/// it is not, and in between where one group is the better one to break up.
pub fn split_penalty(
    play: &[Card],
    hand: &[Symbol],
    combos: &HandCombos,
    ctx: RuleContext,
    kind: CombinationKind,
    rules: SplitRules,
) -> (penalty: u32)
    requires
        combos.of(hand@, ctx),
    ensures
        penalty == split_from(play@, hand@, ctx, kind, rules, 2),
        penalty <= BANNED,
{
    let used = count_own(play, hand, ctx);
    let level_value: usize = natural_of(ctx.hand_level.to_rank()) as usize;
    let straight = kind == CombinationKind::Ordinary(OrdinaryKind::Straight);
    let single = kind == CombinationKind::Ordinary(OrdinaryKind::Single);
    let pair = kind == CombinationKind::Ordinary(OrdinaryKind::Pair);
    let mut v: usize = 2;
    while v <= 14
        invariant
            2 <= v <= 15,
            combos.of(hand@, ctx),
            used@.len() == 15,
            forall|v: int| 2 <= v <= 14 ==> #[trigger] used@[v] == own_count(play@, hand@, ctx, v),
            level_value == natural(level_rank(ctx.hand_level)),
            straight == (kind == CombinationKind::Ordinary(OrdinaryKind::Straight)),
            single == (kind == CombinationKind::Ordinary(OrdinaryKind::Single)),
            pair == (kind == CombinationKind::Ordinary(OrdinaryKind::Pair)),
            split_from(play@, hand@, ctx, kind, rules, 2) == split_from(
                play@,
                hand@,
                ctx,
                kind,
                rules,
                v as int,
            ),
        decreases 15 - v,
    {
        let n: usize = used[v];
        let held: usize = combos.counts[v];
        let level = v == level_value;
        let dear = v <= 10 || rules.has_level_card_or_joker;
        if n > 0 && n < held {
            if held >= 4 {
                if !level {
                    return BANNED;
                }
            } else if held == 3 {
                let part = plate_part(combos, v, Ghost(hand@), ctx);
                if part && !rules.unlock_triple_for_pair {
                    return BANNED;
                }
                if !(level || straight || rules.allow_endgame_split) {
                    if rules.unlock_triple_for_pair && pair {
                        return (if part {
                            10u32
                        } else {
                            0u32
                        }) + (14 - v) as u32;
                    }
                    if dear {
                        return BANNED;
                    }
                }
            } else {
                let part = tube_part(combos, v, Ghost(hand@), ctx);
                if part && !rules.unlock_pair_for_single {
                    return BANNED;
                }
                if !(level || straight || rules.allow_endgame_split) {
                    if single && (rules.feed_exempt || rules.unlock_pair_for_single) {
                        return (if part {
                            10u32
                        } else {
                            0u32
                        }) + (14 - v) as u32;
                    }
                    if dear {
                        return BANNED;
                    }
                }
            }
        }
        v = v + 1;
    }
    0
}

proof fn lemma_values_counted(v: int, test: spec_fn(int) -> bool, u: int)
    requires
        2 <= v,
    ensures
        v <= u <= 14 && test(u) ==> values_from(v, test) >= 1,
        (forall|w: int| v <= w <= 14 ==> !#[trigger] test(w)) ==> values_from(v, test) == 0,
        v <= 15 ==> values_from(v, test) <= 15 - v,
        v <= 15 && (forall|w: int| v <= w <= 14 ==> #[trigger] test(w)) ==> values_from(v, test) == 15
            - v,
    decreases 15 - v,
{
    if v <= 14 {
        lemma_values_counted(v + 1, test, u);
    }
}

/// Four plain cards of a rank, a straight flush and the four jokers are each a bomb; a hand without
/// any of them has none, and each that is there counts.
pub proof fn bombs_are_counted(hand: Seq<Symbol>, ctx: RuleContext, v: int)
    ensures
        2 <= v <= 14 && plain_count(hand, ctx, v) >= 4 ==> bomb_count(hand, ctx) >= 1,
        tally(hand, is_symbol(red_joker())) == 2 && tally(hand, is_symbol(black_joker())) == 2
            ==> bomb_count(hand, ctx) >= 1,
        bomb_count(hand, ctx) >= flush_count(hand, ctx),
        (forall|u: int| 2 <= u <= 14 ==> #[trigger] plain_count(hand, ctx, u) < 4) && flush_count(
            hand,
            ctx,
        ) == 0 && !all_jokers(hand) ==> bomb_count(hand, ctx) == 0,
        (forall|u: int| 2 <= u <= 14 ==> #[trigger] plain_count(hand, ctx, u) != 1)
            ==> singles_count(hand, ctx) == 0,
        2 <= v <= 14 && plain_count(hand, ctx, v) == 1 ==> singles_count(hand, ctx) >= 1,
        singles_count(hand, ctx) <= 13,
{
    lemma_values_counted(2, bomb_value(hand, ctx), v);
    lemma_values_counted(2, single_value(hand, ctx), v);
    if forall|u: int| 2 <= u <= 14 ==> #[trigger] plain_count(hand, ctx, u) < 4 {
        assert forall|w: int| 2 <= w <= 14 implies !#[trigger] bomb_value(hand, ctx)(w) by {
            assert(plain_count(hand, ctx, w) < 4);
        }
    }
    if forall|u: int| 2 <= u <= 14 ==> #[trigger] plain_count(hand, ctx, u) != 1 {
        assert forall|w: int| 2 <= w <= 14 implies !#[trigger] single_value(hand, ctx)(w) by {
            assert(plain_count(hand, ctx, w) != 1);
        }
    }
}

/// A play that takes some but not all of four or more cards of a rank breaks up a bomb. It may
/// where it empties the hand; from seven cards or more also where it takes three single cards
/// along; otherwise an ordinary play may not.
pub proof fn breaking_up_bombs_is_judged(
    play: Seq<Card>,
    hand: Seq<Symbol>,
    kind: CombinationKind,
    held: int,
    v: int,
)
    ensures
        ({
            let verdict = split_verdict(play, hand, kind, held);
            let breaks = 2 <= v <= 14 && faces_held(hand, v) >= 4 && 0 < faces(play, v) < faces_held(
                hand,
                v,
            );
            &&& breaks && play.len() >= held ==> verdict == BombSplitVerdict::Exempt
            &&& breaks && play.len() < held && held <= 6 ==> verdict == BombSplitVerdict::Banned
            &&& breaks && play.len() < held && held >= 7 && tally(play, lone_in(hand)) >= 3
                ==> verdict == BombSplitVerdict::Exempt
            &&& breaks && play.len() < held && tally(play, lone_in(hand)) < 3 && kind is Ordinary
                ==> verdict == BombSplitVerdict::Banned
            &&& verdict == BombSplitVerdict::NotBreaking <==> forall|u: int|
                2 <= u <= 14 && #[trigger] faces_held(hand, u) >= 4 ==> faces(play, u) == 0 || faces(
                    play,
                    u,
                ) >= faces_held(hand, u)
        }),
{
}

proof fn lemma_no_split(
    play: Seq<Card>,
    hand: Seq<Symbol>,
    ctx: RuleContext,
    kind: CombinationKind,
    rules: SplitRules,
    v: int,
)
    requires
        2 <= v,
        forall|u: int|
            v <= u <= 14 ==> #[trigger] own_count(play, hand, ctx, u) == 0 || own_count(
                play,
                hand,
                ctx,
                u,
            ) >= plain_count(hand, ctx, u),
    ensures
        split_from(play, hand, ctx, kind, rules, v) == 0,
    decreases 15 - v,
{
    if v <= 14 {
        assert(own_count(play, hand, ctx, v) == 0 || own_count(play, hand, ctx, v) >= plain_count(
            hand,
            ctx,
            v,
        ));
        lemma_no_split(play, hand, ctx, kind, rules, v + 1);
    }
}

/// A play of whole groups of equal cards pays nothing for breaking any up.
pub proof fn whole_groups_are_free(
    play: Seq<Card>,
    hand: Seq<Symbol>,
    ctx: RuleContext,
    kind: CombinationKind,
    rules: SplitRules,
)
    requires
        forall|u: int|
            2 <= u <= 14 ==> #[trigger] own_count(play, hand, ctx, u) == 0 || own_count(
                play,
                hand,
                ctx,
                u,
            ) >= plain_count(hand, ctx, u),
    ensures
        split_from(play, hand, ctx, kind, rules, 2) == 0,
{
    lemma_no_split(play, hand, ctx, kind, rules, 2);
}

/// What breaking up the plain cards of a rank other than the level costs, where some but not all of
/// them are played: four or more are not broken up, nor are triples and pairs that are part of a
/// longer combination, unless an opponent's play unlocks them; up to the ten, or with a joker or
/// card of the level in hand, other pairs and triples are broken up only for a straight, in the
/// endgame, or for a small price where they are unlocked; higher ones are broken up freely.
pub proof fn groups_are_broken_up_by_rules(
    play: Seq<Card>,
    hand: Seq<Symbol>,
    ctx: RuleContext,
    kind: CombinationKind,
    rules: SplitRules,
    v: int,
)
    requires
        2 <= v <= 14,
        v != natural(level_rank(ctx.hand_level)),
        0 < own_count(play, hand, ctx, v) < plain_count(hand, ctx, v),
    ensures
        ({
            let cost = split_at(play, hand, ctx, kind, rules, v);
            let n = plain_count(hand, ctx, v);
            let straight = kind == CombinationKind::Ordinary(OrdinaryKind::Straight);
            let single = kind == CombinationKind::Ordinary(OrdinaryKind::Single);
            let pair = kind == CombinationKind::Ordinary(OrdinaryKind::Pair);
            let dear = v <= 10 || rules.has_level_card_or_joker;
            &&& n >= 4 ==> cost == Some(99999u32)
            &&& n == 3 && in_plate(hand, ctx, v) && !rules.unlock_triple_for_pair ==> cost == Some(
                99999u32,
            )
            &&& n == 2 && in_tube(hand, ctx, v) && !rules.unlock_pair_for_single ==> cost == Some(
                99999u32,
            )
            &&& n == 3 && !in_plate(hand, ctx, v) && (straight || rules.allow_endgame_split) ==> cost
                is None
            &&& n == 2 && !in_tube(hand, ctx, v) && (straight || rules.allow_endgame_split) ==> cost
                is None
            &&& n == 3 && pair && rules.unlock_triple_for_pair && !rules.allow_endgame_split ==> cost
                == Some(
                (14 - v + if in_plate(hand, ctx, v) {
                    10int
                } else {
                    0
                }) as u32,
            )
            &&& n == 2 && single && rules.unlock_pair_for_single && !rules.allow_endgame_split
                ==> cost == Some(
                (14 - v + if in_tube(hand, ctx, v) {
                    10int
                } else {
                    0
                }) as u32,
            )
            &&& n == 2 && single && rules.feed_exempt && !in_tube(hand, ctx, v)
                && !rules.allow_endgame_split ==> cost == Some((14 - v) as u32)
            &&& n == 3 && !straight && !rules.allow_endgame_split && !rules.unlock_triple_for_pair
                && dear ==> cost == Some(99999u32)
            &&& n == 2 && !straight && !rules.allow_endgame_split && !rules.unlock_pair_for_single
                && !(single && rules.feed_exempt) && dear ==> cost == Some(99999u32)
            &&& n == 3 && !in_plate(hand, ctx, v) && !(pair && rules.unlock_triple_for_pair) && !dear
                ==> cost is None
            &&& n == 2 && !in_tube(hand, ctx, v) && !(single && (rules.unlock_pair_for_single
                || rules.feed_exempt)) && !dear ==> cost is None
        }),
{
}

/// A suit has five plain cards in a row from value `l` on, none of them part of four or more equal
/// cards.
pub open spec fn flush_row(hand: Seq<Symbol>, ctx: RuleContext, suit: Suit, l: int) -> bool {
    &&& free_at(hand, ctx, suit, l)
    &&& free_at(hand, ctx, suit, l + 1)
    &&& free_at(hand, ctx, suit, l + 2)
    &&& free_at(hand, ctx, suit, l + 3)
    &&& free_at(hand, ctx, suit, l + 4)
}

proof fn lemma_flush_rows(hand: Seq<Symbol>, ctx: RuleContext, suit: Suit, v: int, run: int)
    requires
        0 <= run <= 4,
        2 + run <= v <= 15,
        forall|u: int| v - run <= u < v ==> #[trigger] free_at(hand, ctx, suit, u),
    ensures
        flush_runs(hand, ctx, suit, v, run) > 0 <==> exists|l: int|
            v - run <= l <= 10 && #[trigger] flush_row(hand, ctx, suit, l),
    decreases 15 - v,
{
    if v <= 14 {
        if !free_at(hand, ctx, suit, v) {
            lemma_flush_rows(hand, ctx, suit, v + 1, 0);
            assert forall|l: int| v - run <= l <= 10 && #[trigger] flush_row(
                hand,
                ctx,
                suit,
                l,
            ) implies l >= v + 1 by {
                assert(l != v && l + 1 != v && l + 2 != v && l + 3 != v && l + 4 != v);
            }
        } else if run + 1 >= 5 {
            assert(free_at(hand, ctx, suit, v - 4) && free_at(hand, ctx, suit, v - 3) && free_at(
                hand,
                ctx,
                suit,
                v - 2,
            ) && free_at(hand, ctx, suit, v - 1));
            assert(flush_row(hand, ctx, suit, v - 4));
        } else {
            lemma_flush_rows(hand, ctx, suit, v + 1, run + 1);
        }
    }
}

/// A suit has a straight flush exactly where it has five plain cards in a row, from the two up,
/// none of them part of four or more equal cards.
pub proof fn straight_flushes_are_rows(hand: Seq<Symbol>, ctx: RuleContext, suit: Suit)
    ensures
        flush_runs(hand, ctx, suit, 2, 0) > 0 <==> exists|l: int|
            2 <= l <= 10 && #[trigger] flush_row(hand, ctx, suit, l),
{
    lemma_flush_rows(hand, ctx, suit, 2, 0);
}

} // verus!
