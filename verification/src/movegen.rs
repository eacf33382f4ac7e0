//! Every legal action of the player whose turn it is.

use vstd::prelude::*;
use vstd::string::*;
use crate::cards::{
    Card, Rank, RuleContext, Suit, Symbol, card_named, card_ok, card_symbol, is_wild,
    level_order_value, level_rank, natural, not_a_card, parse_card_symbol, rank_order, read_card,
    read_symbols, symbol_text, symbols_named, wild,
};
use crate::combination_parser::{Combination, rank_at, rank_from_value};
use crate::domain::Seat;
use crate::game_types::{
    Action, GamePhase, HandState, PlayerAction, TableGameState, TributePair, actions,
    exchange_actor, tribute_actor,
};
use crate::hand_view::{
    group_by_value, hand_ok, is_wild_symbol, lemma_named_hand_ok, lemma_plain_cards,
    lemma_plain_cards_ok, plain_cards, plain_count, symbol_is_wild,
};
use crate::play_set::{Move, PlaySet, Try, cards_ok, combined, keep, tries, try_ok};
use crate::tally::{copy_all, count_where, lemma_tally_positive, tally};
use crate::text::texts;
use crate::wildcard_resolver::{count_wilds, wilds};

verus! {

/// How many subsets of a hand are tried, all sizes together.
pub const MAX_COMBO_TRIES: usize = 240_000;

/// How many choices of targets are tried for one set of cards.
pub const MAX_WILD_PRODUCT: usize = 256;

/// Largest play that is tried.
pub const MAX_PLAY: usize = 10;

/// The plays that follow from a hand: its level and what has to be beaten.
pub ghost struct Board {
    pub hand: Seq<Symbol>,
    pub ctx: RuleContext,
    pub top: Option<Combination>,
}

impl Board {
    /// The list with a play at its end if that is legal and new.
    pub open spec fn keep(self, list: Seq<Try>, cards: Seq<Card>, targets: Option<Seq<Card>>) -> Seq<
        Try,
    > {
        keep(list, Try { cards, targets }, self.ctx, self.top)
    }
}

/// The four cards of a rank, spades first, then clubs, hearts and diamonds.
pub open spec fn four_of(rank: Rank) -> Seq<Card> {
    seq![
        Card { suit: Suit::Spades, rank },
        Card { suit: Suit::Clubs, rank },
        Card { suit: Suit::Hearts, rank },
        Card { suit: Suit::Diamonds, rank },
    ]
}

pub open spec fn red_joker() -> Card {
    Card { suit: Suit::Joker, rank: Rank::RedJoker }
}

pub open spec fn black_joker() -> Card {
    Card { suit: Suit::Joker, rank: Rank::BlackJoker }
}

/// The cards below a natural value, highest first, without those of the level.
pub open spec fn ranks_down(value: int, ctx: RuleContext) -> Seq<Card>
    decreases value,
{
    if value < 2 {
        Seq::empty()
    } else if rank_at(value) == level_rank(ctx.hand_level) {
        ranks_down(value - 1, ctx)
    } else {
        four_of(rank_at(value)) + ranks_down(value - 1, ctx)
    }
}

/// What wild cards are tried as: the level first, then the jokers of the hand (which no wild
/// card may stand for), then the other ranks from the ace down.
pub open spec fn wild_pool(hand: Seq<Symbol>, ctx: RuleContext) -> Seq<Card> {
    four_of(level_rank(ctx.hand_level)) + (if hand.contains(Symbol::Known(red_joker())) {
        seq![red_joker()]
    } else {
        Seq::empty()
    }) + (if hand.contains(Symbol::Known(black_joker())) {
        seq![black_joker()]
    } else {
        Seq::empty()
    }) + ranks_down(14, ctx)
}

/// How many choices of targets are tried for `w` wild cards: all of them, but at most 256.
pub open spec fn product_limit(pool: Seq<Card>, w: int) -> int {
    if w <= 1 {
        pool.len() as int
    } else {
        MAX_WILD_PRODUCT as int
    }
}

/// The `i`-th choice of targets in lexicographic order, for `i` below 256.
pub open spec fn product(pool: Seq<Card>, w: nat, i: int) -> Seq<Card> {
    Seq::new(
        w,
        |j: int|
            if j == w - 1 {
                pool[i % (pool.len() as int)]
            } else if j == w - 2 {
                pool[i / (pool.len() as int)]
            } else {
                pool[0]
            },
    )
}

/// The list after trying cards with the choices of targets from the `i`-th on.
pub open spec fn with_wilds(list: Seq<Try>, b: Board, cards: Seq<Card>, w: nat, i: int) -> Seq<Try>
    decreases product_limit(wild_pool(b.hand, b.ctx), w as int) - i,
{
    let pool = wild_pool(b.hand, b.ctx);
    if i >= product_limit(pool, w as int) {
        list
    } else {
        with_wilds(b.keep(list, cards, Some(product(pool, w, i))), b, cards, w, i + 1)
    }
}

/// Whether a hand holds nothing but wild cards.
pub open spec fn all_wild(hand: Seq<Symbol>, ctx: RuleContext) -> bool {
    forall|i: int| 0 <= i < hand.len() ==> is_wild_symbol(#[trigger] hand[i], ctx)
}

/// The list after trying each card alone, from place `i` on. A wild card goes alone only from
/// a hand of wild cards.
pub open spec fn singles_from(list: Seq<Try>, b: Board, i: int) -> Seq<Try>
    decreases b.hand.len() - i,
{
    if i < 0 || i >= b.hand.len() {
        list
    } else {
        let next = match b.hand[i] {
            Symbol::Known(card) => if wild(card, b.ctx) {
                if all_wild(b.hand, b.ctx) {
                    with_wilds(list, b, seq![card], 1, 0)
                } else {
                    list
                }
            } else {
                b.keep(list, seq![card], None)
            },
            _ => list,
        };
        singles_from(next, b, i + 1)
    }
}

/// Order of the suits in a pair.
pub open spec fn suit_order(suit: Suit) -> int {
    match suit {
        Suit::Spades => 0,
        Suit::Clubs => 1,
        Suit::Hearts => 2,
        Suit::Diamonds => 3,
        Suit::Joker => 4,
    }
}

pub open spec fn pair_of(x: Card, y: Card) -> Seq<Card> {
    if suit_order(y.suit) < suit_order(x.suit) {
        seq![y, x]
    } else {
        seq![x, y]
    }
}

/// The list after trying the pairs of a group from the pair at places `i`, `j` on.
pub open spec fn group_pairs(list: Seq<Try>, b: Board, group: Seq<Card>, i: int, j: int) -> Seq<Try>
    decreases group.len() - i, group.len() - j,
{
    if i < 0 || i >= group.len() {
        list
    } else if j < 0 || j >= group.len() {
        group_pairs(list, b, group, i + 1, i + 2)
    } else {
        group_pairs(b.keep(list, pair_of(group[i], group[j]), None), b, group, i, j + 1)
    }
}

/// The list after trying the pairs of each value from `value` on.
pub open spec fn pairs_from(list: Seq<Try>, b: Board, value: int) -> Seq<Try>
    decreases 15 - value,
{
    if value > 14 {
        list
    } else {
        let group = plain_cards(b.hand, b.ctx, value);
        pairs_from(group_pairs(list, b, group, 0, 1), b, value + 1)
    }
}

/// The list after trying two copies of a joker as a pair.
pub open spec fn joker_pair(list: Seq<Try>, b: Board, joker: Card) -> Seq<Try> {
    if tally(b.hand, is_symbol(joker)) >= 2 {
        b.keep(list, seq![joker, joker], None)
    } else {
        list
    }
}

/// The list after trying the pairs of jokers.
pub open spec fn joker_pairs(list: Seq<Try>, b: Board) -> Seq<Try> {
    joker_pair(joker_pair(list, b, red_joker()), b, black_joker())
}

/// The list after trying the cards at two places as a pair, if one of them is wild.
pub open spec fn wild_pair(list: Seq<Try>, b: Board, i: int, j: int) -> Seq<Try> {
    match (b.hand[i], b.hand[j]) {
        (Symbol::Known(x), Symbol::Known(y)) => {
            let w = wilds(pair_of(x, y), b.ctx);
            if w > 0 {
                with_wilds(list, b, pair_of(x, y), w, 0)
            } else {
                list
            }
        },
        _ => list,
    }
}

/// The list after trying the pairs with wild cards from the one at places `i`, `j` on.
pub open spec fn wild_pairs_from(list: Seq<Try>, b: Board, i: int, j: int) -> Seq<Try>
    decreases b.hand.len() - i, b.hand.len() - j,
{
    if i < 0 || i >= b.hand.len() {
        list
    } else if j < 0 || j >= b.hand.len() {
        wild_pairs_from(list, b, i + 1, i + 2)
    } else {
        wild_pairs_from(wild_pair(list, b, i, j), b, i, j + 1)
    }
}

/// The list after trying the first `n` and more cards of a group, up to ten, as a bomb.
pub open spec fn group_bombs(list: Seq<Try>, b: Board, group: Seq<Card>, n: int) -> Seq<Try>
    decreases 11 - n,
{
    if n > group.len() || n > MAX_PLAY {
        list
    } else {
        group_bombs(b.keep(list, group.take(n), None), b, group, n + 1)
    }
}

/// The list after trying the bombs of each value from `value` on.
pub open spec fn bombs_from(list: Seq<Try>, b: Board, value: int) -> Seq<Try>
    decreases 15 - value,
{
    if value > 14 {
        list
    } else {
        let group = plain_cards(b.hand, b.ctx, value);
        bombs_from(group_bombs(list, b, group, 4), b, value + 1)
    }
}

pub open spec fn is_symbol(card: Card) -> spec_fn(Symbol) -> bool {
    |s: Symbol| s == Symbol::Known(card)
}

/// The list after trying the four jokers.
pub open spec fn jokers(list: Seq<Try>, b: Board) -> Seq<Try> {
    if tally(b.hand, is_symbol(red_joker())) >= 2 && tally(b.hand, is_symbol(black_joker())) >= 2 {
        b.keep(list, seq![red_joker(), red_joker(), black_joker(), black_joker()], None)
    } else {
        list
    }
}

/// The `i`-th value of the `j`-th run of `k` natural values: the runs from two up, and last
/// the one with the ace below the two.
pub open spec fn window_value(k: int, j: int, i: int) -> int {
    if j < 14 - k {
        2 + j + i
    } else if i < k - 1 {
        2 + i
    } else {
        14
    }
}

pub open spec fn suit_at(i: int) -> Suit {
    if i == 0 {
        Suit::Spades
    } else if i == 1 {
        Suit::Hearts
    } else if i == 2 {
        Suit::Diamonds
    } else {
        Suit::Clubs
    }
}

/// The five cards of a suit in the `j`-th run.
pub open spec fn flush_cards(suit: Suit, j: int) -> Seq<Card> {
    Seq::new(5, |i: int| Card { suit, rank: rank_at(window_value(5, j, i)) })
}

/// Whether a hand holds cards as plain ones.
pub open spec fn holds_plain(hand: Seq<Symbol>, ctx: RuleContext, cards: Seq<Card>) -> bool {
    forall|i: int|
        0 <= i < cards.len() ==> !wild(#[trigger] cards[i], ctx) && hand.contains(
            Symbol::Known(cards[i]),
        )
}

/// The list after trying the straight flushes from the `j`-th run of the `s`-th suit on.
pub open spec fn flushes_from(list: Seq<Try>, b: Board, s: int, j: int) -> Seq<Try>
    decreases 4 - s, 10 - j,
{
    if s >= 4 {
        list
    } else if j >= 10 {
        flushes_from(list, b, s + 1, 0)
    } else {
        let cards = flush_cards(suit_at(s), j);
        flushes_from(
            if holds_plain(b.hand, b.ctx, cards) {
                b.keep(list, cards, None)
            } else {
                list
            },
            b,
            s,
            j + 1,
        )
    }
}

/// The first `m` plain cards of each value of the `j`-th run of `k` values, up to the `i`-th.
pub open spec fn block_cards(b: Board, k: int, m: int, j: int, i: int) -> Seq<Card>
    decreases i,
{
    if i <= 0 {
        Seq::empty()
    } else {
        block_cards(b, k, m, j, i - 1) + plain_cards(
            b.hand,
            b.ctx,
            window_value(k, j, i - 1),
        ).take(m)
    }
}

/// Whether a hand holds `m` plain cards of each value of the `j`-th run of `k` values.
pub open spec fn holds_block(b: Board, k: int, m: int, j: int) -> bool {
    forall|i: int|
        0 <= i < k ==> plain_count(b.hand, b.ctx, #[trigger] window_value(k, j, i)) >= m
}

/// The list after trying `m` cards of each of `k` values in a row, from the `j`-th run on.
pub open spec fn blocks_from(list: Seq<Try>, b: Board, k: int, m: int, j: int) -> Seq<Try>
    decreases 15 - k - j,
{
    if j > 14 - k {
        list
    } else {
        blocks_from(
            if holds_block(b, k, m, j) {
                b.keep(list, block_cards(b, k, m, j, k), None)
            } else {
                list
            },
            b,
            k,
            m,
            j + 1,
        )
    }
}

/// The list after trying the bombs and sequences that plain cards form.
pub open spec fn structures(list: Seq<Try>, b: Board) -> Seq<Try> {
    let bombs = jokers(bombs_from(list, b, 2), b);
    blocks_from(blocks_from(flushes_from(bombs, b, 0, 0), b, 3, 2, 0), b, 2, 3, 0)
}

/// The cards at some places of a hand, if all are known.
pub open spec fn chosen(hand: Seq<Symbol>, places: Seq<usize>) -> Option<Seq<Card>> {
    if forall|i: int| 0 <= i < places.len() ==> hand[#[trigger] places[i] as int] is Known {
        Some(Seq::new(places.len(), |i: int| hand[places[i] as int]->Known_0))
    } else {
        None
    }
}

/// The list after trying the cards at some places of the hand.
pub open spec fn subset(list: Seq<Try>, b: Board, places: Seq<usize>) -> Seq<Try> {
    match chosen(b.hand, places) {
        Some(cards) => if wilds(cards, b.ctx) == 0 {
            b.keep(list, cards, None)
        } else {
            with_wilds(list, b, cards, wilds(cards, b.ctx), 0)
        },
        None => list,
    }
}

/// The first `k` places.
pub open spec fn first_places(k: nat) -> Seq<usize> {
    Seq::new(k, |i: int| i as usize)
}

/// The last of the first `i` chosen places that can still move up.
pub open spec fn movable(places: Seq<usize>, n: int, i: int) -> Option<int>
    decreases i,
{
    if i <= 0 {
        None
    } else if places[i - 1] < n - places.len() + i - 1 {
        Some(i - 1)
    } else {
        movable(places, n, i - 1)
    }
}

/// The places that come next in lexicographic order, of `n` places in all.
pub open spec fn next_places(places: Seq<usize>, n: int) -> Option<Seq<usize>> {
    match movable(places, n, places.len() as int) {
        None => None,
        Some(p) => Some(
            Seq::new(
                places.len(),
                |j: int|
                    if j < p {
                        places[j]
                    } else {
                        (places[p] + 1 + (j - p)) as usize
                    },
            ),
        ),
    }
}

/// The list after trying the subsets from the given places on, smaller ones first, until the
/// budget is used up.
pub open spec fn subsets_from(list: Seq<Try>, b: Board, places: Seq<usize>, used: int) -> Seq<Try>
    decreases MAX_COMBO_TRIES - used,
{
    if used >= MAX_COMBO_TRIES {
        list
    } else {
        let next = subset(list, b, places);
        match next_places(places, b.hand.len() as int) {
            Some(more) => subsets_from(next, b, more, used + 1),
            None => if places.len() + 1 <= b.hand.len() && places.len() + 1 <= MAX_PLAY {
                subsets_from(next, b, first_places(places.len() + 1), used + 1)
            } else {
                next
            },
        }
    }
}

/// All plays that are tried and found legal, in the order in which they are found.
pub open spec fn plays(b: Board) -> Seq<Try> {
    let small = pairs_from(singles_from(Seq::empty(), b, 0), b, 2);
    let shaped = structures(wild_pairs_from(joker_pairs(small, b), b, 0, 1), b);
    if b.hand.len() >= 3 {
        subsets_from(shaped, b, first_places(3), 0)
    } else {
        shaped
    }
}

/// The symbols of cards.
pub open spec fn symbol_texts(cards: Seq<Card>) -> Seq<Seq<char>> {
    cards.map_values(|c: Card| symbol_text(c))
}

/// A play as an action.
pub open spec fn action_of(play: Try) -> Action {
    Action::Play {
        cards: symbol_texts(play.cards),
        wild_targets: match play.targets {
            Some(list) => Some(symbol_texts(list)),
            None => None,
        },
    }
}

/// The actions of a player who has to play or follow.
///
/// Passing is open only to a player who follows, or has no cards left. A player who leads and
/// has no legal play may still put down the first card.
pub open spec fn playing_actions(
    held: Option<Seq<String>>,
    top: Option<Combination>,
    ctx: RuleContext,
) -> Result<Seq<Action>, Seq<char>> {
    match held {
        None => Err("missing actor hand"@),
        Some(hand) => if hand.len() == 0 {
            Ok(seq![Action::Pass])
        } else {
            let found = plays(Board { hand: symbols_named(hand), ctx, top }).map_values(
                |t: Try| action_of(t),
            );
            if top is Some {
                Ok(seq![Action::Pass] + found)
            } else if found.len() == 0 {
                Ok(seq![Action::Play { cards: seq![hand[0]@], wild_targets: None }])
            } else {
                Ok(found)
            }
        },
    }
}

/// The plays are collected for this board.
pub open spec fn collects(set: PlaySet, b: Board) -> bool {
    set.wf() && set.context() == b.ctx && set.to_beat() == b.top
}

proof fn lemma_ranks_down(value: int, ctx: RuleContext)
    requires
        value <= 14,
    ensures
        cards_ok(ranks_down(value, ctx)),
        value >= 2 ==> ranks_down(value, ctx).len() == 4 * (value - 1) - if natural(
            level_rank(ctx.hand_level),
        ) <= value {
            4int
        } else {
            0int
        },
    decreases value,
{
    if value >= 2 {
        lemma_ranks_down(value - 1, ctx);
        let rest = ranks_down(value - 1, ctx);
        let all = ranks_down(value, ctx);
        assert forall|i: int| 0 <= i < all.len() implies card_ok(#[trigger] all[i]) by {
            if rank_at(value) != level_rank(ctx.hand_level) && i >= 4 {
                assert(all[i] == rest[i - 4]);
            }
        }
    }
}

/// The pool has the 52 cards and up to two jokers.
proof fn lemma_wild_pool(hand: Seq<Symbol>, ctx: RuleContext)
    ensures
        52 <= wild_pool(hand, ctx).len() <= 54,
        cards_ok(wild_pool(hand, ctx)),
{
    lemma_ranks_down(14, ctx);
    let pool = wild_pool(hand, ctx);
    let tail = ranks_down(14, ctx);
    assert(tail.len() == 48);
    assert forall|i: int| 0 <= i < pool.len() implies card_ok(#[trigger] pool[i]) by {
        let start = pool.len() - 48;
        if i >= start {
            assert(pool[i] == tail[i - start]);
        }
    }
}

fn push_four(out: &mut Vec<Card>, rank: Rank)
    ensures
        final(out)@ == old(out)@ + four_of(rank),
{
    out.push(Card { suit: Suit::Spades, rank });
    out.push(Card { suit: Suit::Clubs, rank });
    out.push(Card { suit: Suit::Hearts, rank });
    out.push(Card { suit: Suit::Diamonds, rank });
    assert(out@ =~= old(out)@ + four_of(rank));
}

pub fn count_symbol(hand: &[Symbol], card: Card) -> (n: usize)
    ensures
        n == tally(hand@, is_symbol(card)),
        n > 0 <==> hand@.contains(Symbol::Known(card)),
{
    let same = |s: Symbol| -> (b: bool)
        ensures
            b == (s == Symbol::Known(card)),
        { s == Symbol::Known(card) };
    proof {
        lemma_tally_positive(hand@, is_symbol(card));
        if hand@.contains(Symbol::Known(card)) {
            let i = hand@.index_of(Symbol::Known(card));
            assert(is_symbol(card)(hand@[i]));
        }
    }
    count_where(hand, same, Ghost(is_symbol(card)))
}

/// Cards that a wild card is tried as, in order.
fn wild_target_pool(hand: &[Symbol], ctx: RuleContext) -> (pool: Vec<Card>)
    ensures
        pool@ == wild_pool(hand@, ctx),
{
    let mut pool: Vec<Card> = Vec::new();
    let level = ctx.hand_level.to_rank();
    push_four(&mut pool, level);
    assert(pool@ =~= four_of(level_rank(ctx.hand_level)));
    let red = Card { suit: Suit::Joker, rank: Rank::RedJoker };
    let black = Card { suit: Suit::Joker, rank: Rank::BlackJoker };
    let ghost g0 = pool@;
    if count_symbol(hand, red) > 0 {
        pool.push(red);
        assert(pool@ =~= g0 + seq![red_joker()]);
    } else {
        assert(pool@ =~= g0 + Seq::<Card>::empty());
    }
    let ghost g1 = pool@;
    if count_symbol(hand, black) > 0 {
        pool.push(black);
        assert(pool@ =~= g1 + seq![black_joker()]);
    } else {
        assert(pool@ =~= g1 + Seq::<Card>::empty());
    }
    let ghost head = pool@;
    let mut value: u8 = 14;
    while value >= 2
        invariant
            value <= 14,
            level == level_rank(ctx.hand_level),
            pool@ + ranks_down(value as int, ctx) =~= head + ranks_down(14, ctx),
        decreases value,
    {
        let rank = rank_from_value(value);
        if rank != level {
            push_four(&mut pool, rank);
        }
        value = value - 1;
    }
    assert(pool@ =~= wild_pool(hand@, ctx));
    pool
}

fn try_with_wilds(
    set: &mut PlaySet,
    cards: &[Card],
    w: usize,
    pool: &[Card],
    Ghost(b): Ghost<Board>,
)
    requires
        collects(*old(set), b),
        pool@ == wild_pool(b.hand, b.ctx),
        cards_ok(cards@),
        1 <= w <= cards@.len() <= 10,
    ensures
        collects(*final(set), b),
        final(set).list() == with_wilds(old(set).list(), b, cards@, w as nat, 0),
{
    proof {
        lemma_wild_pool(b.hand, b.ctx);
    }
    let size: usize = pool.len();
    let limit: usize = if w <= 1 {
        size
    } else {
        MAX_WILD_PRODUCT
    };
    let ghost before = set.list();
    let mut i: usize = 0;
    while i < limit
        invariant
            collects(*set, b),
            pool@ == wild_pool(b.hand, b.ctx),
            cards_ok(cards@),
            cards_ok(pool@),
            1 <= w <= cards@.len() <= 10,
            52 <= size <= 54,
            size == pool@.len(),
            limit == product_limit(pool@, w as int),
            limit <= 256,
            with_wilds(before, b, cards@, w as nat, 0) == with_wilds(
                set.list(),
                b,
                cards@,
                w as nat,
                i as int,
            ),
        decreases limit - i,
    {
        assert(i / size < size) by (nonlinear_arith)
            requires
                i < 256,
                52 <= size,
        ;
        let mut targets: Vec<Card> = Vec::new();
        for j in 0..w
            invariant
                cards_ok(pool@),
                52 <= size <= 54,
                size == pool@.len(),
                i < 256,
                i / size < size,
                w <= 10,
                targets@ =~= product(pool@, w as nat, i as int).take(j as int),
                cards_ok(targets@),
        {
            let at: usize = if j + 1 == w {
                i % size
            } else if j + 2 == w {
                i / size
            } else {
                0
            };
            targets.push(pool[at]);
        }
        assert(targets@ =~= product(pool@, w as nat, i as int));
        set.offer(copy_all(cards), Some(targets));
        i = i + 1;
    }
}

fn holds_only_wilds(hand: &[Symbol], ctx: RuleContext) -> (yes: bool)
    ensures
        yes == all_wild(hand@, ctx),
{
    for i in 0..hand.len()
        invariant
            forall|j: int| 0 <= j < i ==> is_wild_symbol(#[trigger] hand@[j], ctx),
    {
        if !symbol_is_wild(hand[i], ctx) {
            return false;
        }
    }
    true
}

fn try_singles(set: &mut PlaySet, hand: &[Symbol], pool: &[Card], Ghost(b): Ghost<Board>)
    requires
        collects(*old(set), b),
        hand@ == b.hand,
        hand_ok(hand@),
        pool@ == wild_pool(b.hand, b.ctx),
    ensures
        collects(*final(set), b),
        final(set).list() == singles_from(old(set).list(), b, 0),
{
    let ctx = set.rules();
    let only_wilds = holds_only_wilds(hand, ctx);
    let ghost before = set.list();
    let mut i: usize = 0;
    while i < hand.len()
        invariant
            collects(*set, b),
            ctx == b.ctx,
            hand@ == b.hand,
            hand_ok(hand@),
            pool@ == wild_pool(b.hand, b.ctx),
            only_wilds == all_wild(hand@, ctx),
            i <= hand@.len(),
            singles_from(before, b, 0) == singles_from(set.list(), b, i as int),
        decreases hand@.len() - i,
    {
        let symbol = hand[i];
        if let Symbol::Known(card) = symbol {
            assert(hand@[i as int] == Symbol::Known(card));
            let mut cards: Vec<Card> = Vec::new();
            cards.push(card);
            assert(cards@ =~= seq![card]);
            if is_wild(card, ctx) {
                if only_wilds {
                    try_with_wilds(set, cards.as_slice(), 1, pool, Ghost(b));
                }
            } else {
                set.offer(cards, None);
            }
        }
        i = i + 1;
    }
}

fn suit_position(suit: Suit) -> (n: u8)
    ensures
        n == suit_order(suit),
{
    match suit {
        Suit::Spades => 0,
        Suit::Clubs => 1,
        Suit::Hearts => 2,
        Suit::Diamonds => 3,
        Suit::Joker => 4,
    }
}

fn try_group_pairs(set: &mut PlaySet, group: &Vec<Card>, Ghost(b): Ghost<Board>)
    requires
        collects(*old(set), b),
        cards_ok(group@),
    ensures
        collects(*final(set), b),
        final(set).list() == group_pairs(old(set).list(), b, group@, 0, 1),
{
    let ghost before = set.list();
    let n: usize = group.len();
    let mut i: usize = 0;
    while i < n
        invariant
            collects(*set, b),
            cards_ok(group@),
            n == group@.len(),
            i <= n,
            group_pairs(before, b, group@, 0, 1) == group_pairs(
                set.list(),
                b,
                group@,
                i as int,
                i + 1,
            ),
        decreases n - i,
    {
        let mut j: usize = i + 1;
        while j < n
            invariant
                collects(*set, b),
                cards_ok(group@),
                n == group@.len(),
                i < j <= n,
                group_pairs(before, b, group@, 0, 1) == group_pairs(
                    set.list(),
                    b,
                    group@,
                    i as int,
                    j as int,
                ),
            decreases n - j,
        {
            let x = group[i];
            let y = group[j];
            let mut cards: Vec<Card> = Vec::new();
            if suit_position(y.suit) < suit_position(x.suit) {
                cards.push(y);
                cards.push(x);
            } else {
                cards.push(x);
                cards.push(y);
            }
            assert(cards@ =~= pair_of(x, y));
            set.offer(cards, None);
            j = j + 1;
        }
        i = i + 1;
    }
}

/// The groups are the plain cards of the board's hand.
spec fn groups_of(groups: Seq<Vec<Card>>, b: Board) -> bool {
    &&& hand_ok(b.hand)
    &&& groups.len() == 15
    &&& forall|v: int| 2 <= v <= 14 ==> (#[trigger] groups[v])@ == plain_cards(b.hand, b.ctx, v)
}

proof fn lemma_group(groups: Seq<Vec<Card>>, b: Board, v: int)
    requires
        groups_of(groups, b),
        2 <= v <= 14,
    ensures
        groups[v]@ == plain_cards(b.hand, b.ctx, v),
        groups[v]@.len() == plain_count(b.hand, b.ctx, v),
        cards_ok(groups[v]@),
{
    lemma_plain_cards(b.hand, b.ctx, v);
    lemma_plain_cards_ok(b.hand, b.ctx, v);
}

fn try_pairs(set: &mut PlaySet, groups: &Vec<Vec<Card>>, Ghost(b): Ghost<Board>)
    requires
        collects(*old(set), b),
        groups_of(groups@, b),
    ensures
        collects(*final(set), b),
        final(set).list() == pairs_from(old(set).list(), b, 2),
{
    let ghost before = set.list();
    let mut v: usize = 2;
    while v <= 14
        invariant
            collects(*set, b),
            groups_of(groups@, b),
            2 <= v <= 15,
            pairs_from(before, b, 2) == pairs_from(set.list(), b, v as int),
        decreases 15 - v,
    {
        proof {
            lemma_group(groups@, b, v as int);
        }
        try_group_pairs(set, &groups[v], Ghost(b));
        v = v + 1;
    }
}

fn try_joker_pair(set: &mut PlaySet, hand: &[Symbol], joker: Card, Ghost(b): Ghost<Board>)
    requires
        collects(*old(set), b),
        hand@ == b.hand,
        card_ok(joker),
    ensures
        collects(*final(set), b),
        final(set).list() == joker_pair(old(set).list(), b, joker),
{
    if count_symbol(hand, joker) >= 2 {
        let mut cards: Vec<Card> = Vec::new();
        cards.push(joker);
        cards.push(joker);
        assert(cards@ =~= seq![joker, joker]);
        set.offer(cards, None);
    }
}

fn try_joker_pairs(set: &mut PlaySet, hand: &[Symbol], Ghost(b): Ghost<Board>)
    requires
        collects(*old(set), b),
        hand@ == b.hand,
    ensures
        collects(*final(set), b),
        final(set).list() == joker_pairs(old(set).list(), b),
{
    try_joker_pair(set, hand, Card { suit: Suit::Joker, rank: Rank::RedJoker }, Ghost(b));
    try_joker_pair(set, hand, Card { suit: Suit::Joker, rank: Rank::BlackJoker }, Ghost(b));
}

fn try_wild_pair(
    set: &mut PlaySet,
    hand: &[Symbol],
    i: usize,
    j: usize,
    pool: &[Card],
    Ghost(b): Ghost<Board>,
)
    requires
        collects(*old(set), b),
        hand@ == b.hand,
        hand_ok(hand@),
        pool@ == wild_pool(b.hand, b.ctx),
        i < hand@.len(),
        j < hand@.len(),
    ensures
        collects(*final(set), b),
        final(set).list() == wild_pair(old(set).list(), b, i as int, j as int),
{
    let first = hand[i];
    let second = hand[j];
    let ctx = set.rules();
    if let Symbol::Known(x) = first {
        if let Symbol::Known(y) = second {
            assert(hand@[i as int] == Symbol::Known(x));
            assert(hand@[j as int] == Symbol::Known(y));
            let mut cards: Vec<Card> = Vec::new();
            if suit_position(y.suit) < suit_position(x.suit) {
                cards.push(y);
                cards.push(x);
            } else {
                cards.push(x);
                cards.push(y);
            }
            assert(cards@ =~= pair_of(x, y));
            let w: usize = count_wilds(cards.as_slice(), ctx);
            if w > 0 {
                try_with_wilds(set, cards.as_slice(), w, pool, Ghost(b));
            }
        }
    }
}

fn try_wild_pairs(set: &mut PlaySet, hand: &[Symbol], pool: &[Card], Ghost(b): Ghost<Board>)
    requires
        collects(*old(set), b),
        hand@ == b.hand,
        hand_ok(hand@),
        pool@ == wild_pool(b.hand, b.ctx),
    ensures
        collects(*final(set), b),
        final(set).list() == wild_pairs_from(old(set).list(), b, 0, 1),
{
    let ghost before = set.list();
    let n: usize = hand.len();
    let mut i: usize = 0;
    while i < n
        invariant
            collects(*set, b),
            hand@ == b.hand,
            hand_ok(hand@),
            pool@ == wild_pool(b.hand, b.ctx),
            n == hand@.len(),
            i <= n,
            wild_pairs_from(before, b, 0, 1) == wild_pairs_from(set.list(), b, i as int, i + 1),
        decreases n - i,
    {
        let mut j: usize = i + 1;
        while j < n
            invariant
                collects(*set, b),
                hand@ == b.hand,
                hand_ok(hand@),
                pool@ == wild_pool(b.hand, b.ctx),
                n == hand@.len(),
                i < j <= n,
                wild_pairs_from(before, b, 0, 1) == wild_pairs_from(
                    set.list(),
                    b,
                    i as int,
                    j as int,
                ),
            decreases n - j,
        {
            try_wild_pair(set, hand, i, j, pool, Ghost(b));
            j = j + 1;
        }
        i = i + 1;
    }
}

fn take_cards(group: &Vec<Card>, n: usize) -> (cards: Vec<Card>)
    requires
        n <= group@.len(),
    ensures
        cards@ == group@.take(n as int),
{
    let mut out: Vec<Card> = Vec::new();
    for i in 0..n
        invariant
            n <= group@.len(),
            out@ =~= group@.take(i as int),
    {
        out.push(group[i]);
    }
    out
}

fn try_bombs(set: &mut PlaySet, groups: &Vec<Vec<Card>>, Ghost(b): Ghost<Board>)
    requires
        collects(*old(set), b),
        groups_of(groups@, b),
    ensures
        collects(*final(set), b),
        final(set).list() == bombs_from(old(set).list(), b, 2),
{
    let ghost before = set.list();
    let mut v: usize = 2;
    while v <= 14
        invariant
            collects(*set, b),
            groups_of(groups@, b),
            2 <= v <= 15,
            bombs_from(before, b, 2) == bombs_from(set.list(), b, v as int),
        decreases 15 - v,
    {
        proof {
            lemma_group(groups@, b, v as int);
        }
        let group = &groups[v];
        let ghost start = set.list();
        let mut n: usize = 4;
        while n <= group.len() && n <= MAX_PLAY
            invariant
                collects(*set, b),
                cards_ok(group@),
                4 <= n <= 11,
                group_bombs(start, b, group@, 4) == group_bombs(set.list(), b, group@, n as int),
            decreases 11 - n,
        {
            set.offer(take_cards(group, n), None);
            n = n + 1;
        }
        v = v + 1;
    }
}

fn try_jokers(set: &mut PlaySet, hand: &[Symbol], Ghost(b): Ghost<Board>)
    requires
        collects(*old(set), b),
        hand@ == b.hand,
    ensures
        collects(*final(set), b),
        final(set).list() == jokers(old(set).list(), b),
{
    let red = Card { suit: Suit::Joker, rank: Rank::RedJoker };
    let black = Card { suit: Suit::Joker, rank: Rank::BlackJoker };
    if count_symbol(hand, red) >= 2 && count_symbol(hand, black) >= 2 {
        let mut cards: Vec<Card> = Vec::new();
        cards.push(red);
        cards.push(red);
        cards.push(black);
        cards.push(black);
        assert(cards@ =~= seq![red_joker(), red_joker(), black_joker(), black_joker()]);
        set.offer(cards, None);
    }
}

fn value_in_window(k: usize, j: usize, i: usize) -> (v: usize)
    requires
        2 <= k <= 5,
        j <= 14 - k,
        i < k,
    ensures
        v == window_value(k as int, j as int, i as int),
        2 <= v <= 14,
{
    if j < 14 - k {
        2 + j + i
    } else if i < k - 1 {
        2 + i
    } else {
        14
    }
}

fn nth_suit(i: usize) -> (suit: Suit)
    ensures
        suit == suit_at(i as int),
        suit != Suit::Joker,
{
    match i {
        0 => Suit::Spades,
        1 => Suit::Hearts,
        2 => Suit::Diamonds,
        _ => Suit::Clubs,
    }
}

fn try_flushes(set: &mut PlaySet, hand: &[Symbol], Ghost(b): Ghost<Board>)
    requires
        collects(*old(set), b),
        hand@ == b.hand,
    ensures
        collects(*final(set), b),
        final(set).list() == flushes_from(old(set).list(), b, 0, 0),
{
    let ctx = set.rules();
    let ghost before = set.list();
    let mut s: usize = 0;
    while s < 4
        invariant
            collects(*set, b),
            hand@ == b.hand,
            ctx == b.ctx,
            s <= 4,
            flushes_from(before, b, 0, 0) == flushes_from(set.list(), b, s as int, 0),
        decreases 4 - s,
    {
        let suit = nth_suit(s);
        let mut j: usize = 0;
        while j < 10
            invariant
                collects(*set, b),
                hand@ == b.hand,
                ctx == b.ctx,
                s < 4,
                suit == suit_at(s as int),
                suit != Suit::Joker,
                j <= 10,
                flushes_from(before, b, 0, 0) == flushes_from(set.list(), b, s as int, j as int),
            decreases 10 - j,
        {
            let mut cards: Vec<Card> = Vec::new();
            let mut held = true;
            for i in 0..5
                invariant
                    hand@ == b.hand,
                    ctx == b.ctx,
                    suit != Suit::Joker,
                    j < 10,
                    cards@ =~= flush_cards(suit, j as int).take(i as int),
                    cards_ok(cards@),
                    held == holds_plain(b.hand, b.ctx, cards@),
            {
                let value: usize = value_in_window(5, j, i);
                let card = Card { suit, rank: rank_from_value(value as u8) };
                let ghost part = cards@;
                let fine = !is_wild(card, ctx) && count_symbol(hand, card) > 0;
                cards.push(card);
                held = held && fine;
                proof {
                    assert(cards@[i as int] == card);
                    if held {
                        assert forall|x: int| 0 <= x < cards@.len() implies !wild(
                            #[trigger] cards@[x],
                            b.ctx,
                        ) && b.hand.contains(Symbol::Known(cards@[x])) by {
                            if x < i {
                                assert(cards@[x] == part[x]);
                            }
                        }
                    } else if holds_plain(b.hand, b.ctx, cards@) {
                        assert forall|x: int| 0 <= x < part.len() implies !wild(
                            #[trigger] part[x],
                            b.ctx,
                        ) && b.hand.contains(Symbol::Known(part[x])) by {
                            assert(cards@[x] == part[x]);
                        }
                    }
                }
            }
            assert(cards@ =~= flush_cards(suit, j as int));
            if held {
                set.offer(cards, None);
            }
            j = j + 1;
        }
        s = s + 1;
    }
}

fn try_blocks(set: &mut PlaySet, groups: &Vec<Vec<Card>>, k: usize, m: usize, Ghost(b): Ghost<Board>)
    requires
        collects(*old(set), b),
        groups_of(groups@, b),
        2 <= k <= 3,
        m <= 3,
        k * m <= 10,
    ensures
        collects(*final(set), b),
        final(set).list() == blocks_from(old(set).list(), b, k as int, m as int, 0),
{
    let ghost before = set.list();
    let mut j: usize = 0;
    while j <= 14 - k
        invariant
            collects(*set, b),
            groups_of(groups@, b),
            2 <= k <= 3,
            m <= 3,
            k * m <= 10,
            j <= 15 - k,
            blocks_from(before, b, k as int, m as int, 0) == blocks_from(
                set.list(),
                b,
                k as int,
                m as int,
                j as int,
            ),
        decreases 15 - k - j,
    {
        let mut cards: Vec<Card> = Vec::new();
        let mut held = true;
        for i in 0..k
            invariant
                groups_of(groups@, b),
                2 <= k <= 3,
                m <= 3,
                j <= 14 - k,
                held == forall|x: int|
                    0 <= x < i ==> plain_count(
                        b.hand,
                        b.ctx,
                        #[trigger] window_value(k as int, j as int, x),
                    ) >= m,
                held ==> cards@ == block_cards(b, k as int, m as int, j as int, i as int),
                held ==> cards_ok(cards@) && cards@.len() == i * m,
        {
            let value: usize = value_in_window(k, j, i);
            proof {
                lemma_group(groups@, b, value as int);
            }
            let ghost part = cards@;
            let group = &groups[value];
            if group.len() >= m {
                let mut more = take_cards(group, m);
                let ghost extra = more@;
                cards.append(&mut more);
                proof {
                    if held {
                        assert(cards@ =~= part + extra);
                        assert(i * m + m == (i + 1) * m) by (nonlinear_arith);
                        assert forall|x: int| 0 <= x < cards@.len() implies card_ok(
                            #[trigger] cards@[x],
                        ) by {
                            if x < part.len() {
                                assert(cards@[x] == part[x]);
                            } else {
                                assert(cards@[x] == group@[x - part.len()]);
                            }
                        }
                    }
                }
            } else {
                held = false;
            }
        }
        if held {
            set.offer(cards, None);
        }
        j = j + 1;
    }
}

/// Tries the bombs and sequences that plain cards form. They come before the subsets so that
/// none is lost when the budget for those runs out.
fn generate_structural_bombs_and_sequences(
    set: &mut PlaySet,
    hand: &[Symbol],
    groups: &Vec<Vec<Card>>,
    Ghost(b): Ghost<Board>,
)
    requires
        collects(*old(set), b),
        hand@ == b.hand,
        groups_of(groups@, b),
    ensures
        collects(*final(set), b),
        final(set).list() == structures(old(set).list(), b),
{
    try_bombs(set, groups, Ghost(b));
    try_jokers(set, hand, Ghost(b));
    try_flushes(set, hand, Ghost(b));
    try_blocks(set, groups, 3, 2, Ghost(b));
    try_blocks(set, groups, 2, 3, Ghost(b));
}

fn try_subset(
    set: &mut PlaySet,
    hand: &[Symbol],
    places: &Vec<usize>,
    pool: &[Card],
    Ghost(b): Ghost<Board>,
)
    requires
        collects(*old(set), b),
        hand@ == b.hand,
        hand_ok(hand@),
        pool@ == wild_pool(b.hand, b.ctx),
        places@.len() <= 10,
        forall|i: int| 0 <= i < places@.len() ==> #[trigger] places@[i] < hand@.len(),
    ensures
        collects(*final(set), b),
        final(set).list() == subset(old(set).list(), b, places@),
{
    let mut cards: Vec<Card> = Vec::new();
    for i in 0..places.len()
        invariant
            hand@ == b.hand,
            hand_ok(hand@),
            forall|i: int| 0 <= i < places@.len() ==> #[trigger] places@[i] < hand@.len(),
            cards@.len() == i,
            cards_ok(cards@),
            forall|j: int|
                0 <= j < i ==> hand@[#[trigger] places@[j] as int] == Symbol::Known(cards@[j]),
            collects(*set, b),
            set.list() == old(set).list(),
    {
        let symbol = hand[places[i]];
        if let Symbol::Known(card) = symbol {
            assert(hand@[places@[i as int] as int] == symbol);
            cards.push(card);
        } else {
            assert(!(hand@[places@[i as int] as int] is Known));
            return ;
        }
    }
    let ctx = set.rules();
    assert(cards@ =~= chosen(b.hand, places@)->Some_0);
    let w: usize = count_wilds(cards.as_slice(), ctx);
    if w == 0 {
        set.offer(cards, None);
    } else {
        try_with_wilds(set, cards.as_slice(), w, pool, Ghost(b));
    }
}

/// Places in ascending order, each leaving room for those after it.
spec fn places_ok(places: Seq<usize>, n: int) -> bool {
    &&& 1 <= places.len() <= n
    &&& forall|i: int| 0 <= i < places.len() ==> #[trigger] places[i] <= n - places.len() + i
}

fn advance(places: &mut Vec<usize>, n: usize) -> (more: bool)
    requires
        places_ok(old(places)@, n as int),
    ensures
        match next_places(old(places)@, n as int) {
            Some(next) => more && final(places)@ == next,
            None => !more && final(places)@ == old(places)@,
        },
        places_ok(final(places)@, n as int),
        final(places)@.len() == old(places)@.len(),
{
    let ghost before = places@;
    let k: usize = places.len();
    let mut i: usize = k;
    while i > 0 && places[i - 1] >= n - k + i - 1
        invariant
            places@ == before,
            k == places@.len(),
            places_ok(before, n as int),
            i <= k <= n,
            movable(before, n as int, k as int) == movable(before, n as int, i as int),
        decreases i,
    {
        assert(places@[i - 1] <= n - k + i - 1);
        i = i - 1;
    }
    if i == 0 {
        return false;
    }
    let p: usize = i - 1;
    assert(movable(before, n as int, k as int) == Some(p as int));
    let base: usize = places[p];
    let ghost next = next_places(before, n as int)->Some_0;
    let mut j: usize = p;
    while j < k
        invariant
            places_ok(before, n as int),
            k == before.len(),
            k == places@.len(),
            p <= j <= k <= n,
            base == before[p as int],
            base < n - k + p,
            next == Seq::new(
                before.len(),
                |x: int|
                    if x < p {
                        before[x]
                    } else {
                        (before[p as int] + 1 + (x - p)) as usize
                    },
            ),
            forall|x: int| 0 <= x < j ==> #[trigger] places@[x] == next[x],
        decreases k - j,
    {
        places[j] = base + 1 + (j - p);
        j = j + 1;
    }
    assert(places@ =~= next);
    assert forall|x: int| 0 <= x < places@.len() implies #[trigger] places@[x] <= n - places@.len()
        + x by {
        if x < p {
            assert(places@[x] == before[x]);
        }
    }
    true
}

fn first_of(k: usize) -> (places: Vec<usize>)
    ensures
        places@ == first_places(k as nat),
{
    let mut out: Vec<usize> = Vec::new();
    for i in 0..k
        invariant
            out@ =~= first_places(i as nat),
    {
        out.push(i);
    }
    out
}

fn try_subsets(set: &mut PlaySet, hand: &[Symbol], pool: &[Card], Ghost(b): Ghost<Board>)
    requires
        collects(*old(set), b),
        hand@ == b.hand,
        hand_ok(hand@),
        hand@.len() >= 3,
        pool@ == wild_pool(b.hand, b.ctx),
    ensures
        collects(*final(set), b),
        final(set).list() == subsets_from(old(set).list(), b, first_places(3), 0),
{
    let n: usize = hand.len();
    let ghost before = set.list();
    let mut places = first_of(3);
    let mut used: usize = 0;
    while used < MAX_COMBO_TRIES
        invariant
            collects(*set, b),
            hand@ == b.hand,
            hand_ok(hand@),
            n == hand@.len(),
            pool@ == wild_pool(b.hand, b.ctx),
            before == old(set).list(),
            used <= MAX_COMBO_TRIES,
            places_ok(places@, n as int),
            places@.len() <= 10,
            subsets_from(before, b, first_places(3), 0) == subsets_from(
                set.list(),
                b,
                places@,
                used as int,
            ),
        decreases MAX_COMBO_TRIES - used,
    {
        let ghost now = places@;
        try_subset(set, hand, &places, pool, Ghost(b));
        if !advance(&mut places, n) {
            let k: usize = places.len();
            if k >= n || k >= MAX_PLAY {
                assert(subsets_from(before, b, first_places(3), 0) == set.list());
                return ;
            }
            places = first_of(k + 1);
        }
        used = used + 1;
    }
}

/// All plays that are tried and found legal.
pub fn find_plays(hand: &[Symbol], ctx: RuleContext, top: Option<Combination>) -> (moves: Vec<Move>)
    requires
        hand_ok(hand@),
    ensures
        tries(moves@) == plays(Board { hand: hand@, ctx, top }),
        combined(moves@, ctx),
        forall|i: int| 0 <= i < moves@.len() ==> try_ok((#[trigger] moves@[i])@),
{
    let ghost b = Board { hand: hand@, ctx, top };
    let mut set = PlaySet::new(ctx, top);
    let pool = wild_target_pool(hand, ctx);
    let groups = group_by_value(hand, ctx);
    try_singles(&mut set, hand, pool.as_slice(), Ghost(b));
    try_pairs(&mut set, &groups, Ghost(b));
    try_joker_pairs(&mut set, hand, Ghost(b));
    try_wild_pairs(&mut set, hand, pool.as_slice(), Ghost(b));
    generate_structural_bombs_and_sequences(&mut set, hand, &groups, Ghost(b));
    if hand.len() >= 3 {
        try_subsets(&mut set, hand, pool.as_slice(), Ghost(b));
    }
    set.into_moves()
}

fn write_symbols(cards: &[Card]) -> (list: Vec<String>)
    ensures
        texts(list@) == symbol_texts(cards@),
{
    let mut out: Vec<String> = Vec::new();
    for i in 0..cards.len()
        invariant
            texts(out@) =~= symbol_texts(cards@.take(i as int)),
    {
        let ghost done = out@;
        let text = card_symbol(cards[i]);
        out.push(text);
        assert(texts(out@) =~= texts(done).push(text@));
        assert(symbol_texts(cards@.take(i + 1)) =~= symbol_texts(cards@.take(i as int)).push(
            symbol_text(cards@[i as int]),
        ));
    }
    assert(cards@.take(cards@.len() as int) =~= cards@);
    out
}

/// A move as an action.
pub fn write_action(play: &Move) -> (action: PlayerAction)
    ensures
        action@ == action_of(play@),
{
    let wild_targets: Option<Vec<String>> = match &play.targets {
        Some(list) => Some(write_symbols(list.as_slice())),
        None => None,
    };
    PlayerAction::Play { cards: write_symbols(play.cards.as_slice()), wild_targets }
}

/// What a seat holds, as texts.
pub open spec fn held_by(hand: HandState, seat: Seat) -> Option<Seq<String>> {
    match hand.hands.at(seat) {
        Some(list) => Some(list@),
        None => None,
    }
}

/// The combination that has to be beaten.
pub open spec fn top_of(hand: HandState) -> Option<Combination> {
    match hand.trick.top_play {
        Some(play) => Some(play.combination),
        None => None,
    }
}

fn enumerate_playing(hand_state: &HandState, actor: Seat, ctx: RuleContext) -> (found: Result<
    Vec<PlayerAction>,
    String,
>)
    ensures
        answers(found, playing_actions(held_by(*hand_state, actor), top_of(*hand_state), ctx)),
{
    let held = match hand_state.hands.get(actor) {
        Some(list) => list,
        None => {
            return Err("missing actor hand".to_owned());
        },
    };
    let mut out: Vec<PlayerAction> = Vec::new();
    if held.len() == 0 {
        out.push(PlayerAction::Pass);
        assert(actions(out@) =~= seq![Action::Pass]);
        return Ok(out);
    }
    let top: Option<Combination> = match &hand_state.trick.top_play {
        Some(play) => Some(play.combination),
        None => None,
    };
    proof {
        lemma_named_hand_ok(held@);
    }
    let symbols = read_symbols(held.as_slice());
    let moves = find_plays(symbols.as_slice(), ctx, top);
    let ghost found = plays(Board { hand: symbols@, ctx, top }).map_values(|t: Try| action_of(t));
    if top.is_some() {
        out.push(PlayerAction::Pass);
    } else if moves.len() == 0 {
        assert(found.len() == tries(moves@).len());
        let mut cards: Vec<String> = Vec::new();
        cards.push(held[0].clone());
        out.push(PlayerAction::Play { cards, wild_targets: None });
        assert(texts(cards@) =~= seq![held@[0]@]);
        assert(actions(out@) =~= seq![
            Action::Play { cards: seq![held@[0]@], wild_targets: None },
        ]);
        return Ok(out);
    }
    let ghost head = actions(out@);
    assert(head =~= if top is Some {
        seq![Action::Pass]
    } else {
        Seq::empty()
    });
    for i in 0..moves.len()
        invariant
            tries(moves@).map_values(|t: Try| action_of(t)) == found,
            actions(out@) =~= head + found.take(i as int),
    {
        let ghost done = out@;
        let action = write_action(&moves[i]);
        out.push(action);
        assert(actions(out@) =~= actions(done).push(action@));
        assert(tries(moves@)[i as int] == moves@[i as int]@);
        assert(found[i as int] == action@);
    }
    assert(found.len() == tries(moves@).len());
    assert(found.take(found.len() as int) =~= found);
    assert(Seq::<Action>::empty() + found =~= found);
    Ok(out)
}

/// A list of actions or a message, as expected.
pub open spec fn answers(
    found: Result<Vec<PlayerAction>, String>,
    expected: Result<Seq<Action>, Seq<char>>,
) -> bool {
    match found {
        Ok(list) => expected == Ok::<Seq<Action>, Seq<char>>(actions(list@)),
        Err(message) => expected == Err::<Seq<Action>, Seq<char>>(message@),
    }
}

/// The highest order of the cards that are not wild; 0 where there is none.
pub open spec fn best_order(hand: Seq<String>, ctx: RuleContext) -> int
    decreases hand.len(),
{
    if hand.len() == 0 {
        0
    } else {
        let front = best_order(hand.drop_last(), ctx);
        match card_named(hand.last()@) {
            Some(card) => if !wild(card, ctx) && rank_order(card.rank, ctx) > front {
                rank_order(card.rank, ctx)
            } else {
                front
            },
            None => front,
        }
    }
}

/// A tribute with each card, wild ones excepted, of the given order.
pub open spec fn tributes(hand: Seq<String>, order: int, ctx: RuleContext) -> Seq<Action>
    decreases hand.len(),
{
    if hand.len() == 0 {
        Seq::empty()
    } else {
        let front = tributes(hand.drop_last(), order, ctx);
        match card_named(hand.last()@) {
            Some(card) => if !wild(card, ctx) && rank_order(card.rank, ctx) == order {
                front.push(Action::Tribute { card: hand.last()@ })
            } else {
                front
            },
            None => front,
        }
    }
}

/// The actions of a player who has to pay a tribute: any of the highest cards.
pub open spec fn tribute_actions(held: Option<Seq<String>>, ctx: RuleContext) -> Seq<Action> {
    match held {
        Some(hand) => tributes(hand, best_order(hand, ctx), ctx),
        None => Seq::empty(),
    }
}

/// A return of each card whose rank is neither the one that was paid nor the level's.
pub open spec fn returns_of(hand: Seq<String>, paid: Rank, level: Rank) -> Result<
    Seq<Action>,
    Seq<char>,
>
    decreases hand.len(),
{
    if hand.len() == 0 {
        Ok(Seq::empty())
    } else {
        match returns_of(hand.drop_last(), paid, level) {
            Err(message) => Err(message),
            Ok(front) => match card_named(hand.last()@) {
                None => Err(not_a_card(hand.last()@)),
                Some(card) => if card.rank != paid && card.rank != level {
                    Ok(front.push(Action::ReturnCard { card: hand.last()@ }))
                } else {
                    Ok(front)
                },
            },
        }
    }
}

proof fn lemma_returns_prefix(hand: Seq<String>, paid: Rank, level: Rank, i: int)
    requires
        0 <= i <= hand.len(),
        returns_of(hand.take(i), paid, level) is Err,
    ensures
        returns_of(hand, paid, level) == returns_of(hand.take(i), paid, level),
    decreases hand.len() - i,
{
    if i < hand.len() {
        assert(hand.take(i + 1).drop_last() =~= hand.take(i));
        lemma_returns_prefix(hand, paid, level, i + 1);
    } else {
        assert(hand.take(i) =~= hand);
    }
}

/// The first tribute from place `i` on whose receiver still owes this seat's return.
pub open spec fn owed_by(pairs: Seq<TributePair>, seat: Seat, i: int) -> Option<int>
    decreases pairs.len() - i,
{
    if i < 0 || i >= pairs.len() {
        None
    } else if pairs[i].receiver == seat && pairs[i].return_card is None {
        Some(i)
    } else {
        owed_by(pairs, seat, i + 1)
    }
}

/// The actions of a player who has to return a card.
pub open spec fn return_actions(hand: HandState, actor: Seat) -> Result<Seq<Action>, Seq<char>> {
    match hand.tribute {
        None => Err("missing tribute"@),
        Some(t) => match owed_by(t.pairs@, actor, 0) {
            None => Err("not return actor"@),
            Some(i) => match t.pairs@[i].paid_card {
                None => Err("tribute not paid"@),
                Some(paid) => match card_named(paid@) {
                    None => Err(not_a_card(paid@)),
                    Some(card) => match held_by(hand, actor) {
                        None => Err("missing hand"@),
                        Some(held) => returns_of(held, card.rank, level_rank(hand.hand_level)),
                    },
                },
            },
        },
    }
}

/// Who has to act next, if anyone.
pub open spec fn actor_of(state: TableGameState) -> Option<Seat> {
    match state.hand {
        None => None,
        Some(hand) => match state.phase {
            GamePhase::Tribute => match tribute_actor(hand) {
                Some(seat) => Some(seat),
                None => match hand.tribute {
                    Some(t) => if t.canceled && t.opening_lead_candidates@.len() > 0 {
                        Some(t.opening_lead_candidates@[0])
                    } else {
                        None
                    },
                    None => None,
                },
            },
            GamePhase::Exchange => exchange_actor(hand),
            GamePhase::Playing => Some(state.turn_seat),
            _ => None,
        },
    }
}

/// The legal actions of a player, or why there are none to choose from.
pub open spec fn legal_actions(state: TableGameState, actor: Seat) -> Result<Seq<Action>, Seq<char>> {
    match state.hand {
        Some(hand) if actor_of(state) == Some(actor) => {
            let ctx = RuleContext { hand_level: hand.hand_level };
            match state.phase {
                GamePhase::Playing => playing_actions(held_by(hand, actor), top_of(hand), ctx),
                GamePhase::Tribute => Ok(tribute_actions(held_by(hand, actor), ctx)),
                GamePhase::Exchange => return_actions(hand, actor),
                _ => Ok(Seq::empty()),
            }
        },
        _ => Err("not actor turn"@),
    }
}

/// Every legal tribute.
pub fn enumerate_tribute(hand_state: &HandState, actor: Seat, ctx: RuleContext) -> (found: Vec<
    PlayerAction,
>)
    ensures
        actions(found@) == tribute_actions(held_by(*hand_state, actor), ctx),
{
    let mut out: Vec<PlayerAction> = Vec::new();
    assert(actions(out@) =~= Seq::<Action>::empty());
    let hand = match hand_state.hands.get(actor) {
        Some(list) => list,
        None => {
            return out;
        },
    };
    let mut best: u8 = 0;
    assert(hand@.take(0) =~= Seq::<String>::empty());
    for i in 0..hand.len()
        invariant
            best == best_order(hand@.take(i as int), ctx),
    {
        assert(hand@.take(i + 1).drop_last() =~= hand@.take(i as int));
        if let Some(card) = read_card(hand[i].as_str()) {
            if !is_wild(card, ctx) {
                let order: u8 = level_order_value(card, ctx);
                if order > best {
                    best = order;
                }
            }
        }
    }
    assert(hand@.take(hand@.len() as int) =~= hand@);
    for i in 0..hand.len()
        invariant
            actions(out@) == tributes(hand@.take(i as int), best as int, ctx),
    {
        assert(hand@.take(i + 1).drop_last() =~= hand@.take(i as int));
        let ghost done = out@;
        if let Some(card) = read_card(hand[i].as_str()) {
            if !is_wild(card, ctx) && level_order_value(card, ctx) == best {
                let action = PlayerAction::Tribute { card: hand[i].clone() };
                out.push(action);
                assert(actions(out@) =~= actions(done).push(action@));
            }
        }
    }
    out
}

/// Every legal return.
pub fn enumerate_return(hand_state: &HandState, actor: Seat) -> (found: Result<
    Vec<PlayerAction>,
    String,
>)
    ensures
        answers(found, return_actions(*hand_state, actor)),
{
    let tribute = match &hand_state.tribute {
        Some(t) => t,
        None => {
            return Err("missing tribute".to_owned());
        },
    };
    let mut at: usize = 0;
    while at < tribute.pairs.len() && !(tribute.pairs[at].receiver == actor
        && tribute.pairs[at].return_card.is_none())
        invariant
            at <= tribute.pairs@.len(),
            owed_by(tribute.pairs@, actor, 0) == owed_by(tribute.pairs@, actor, at as int),
        decreases tribute.pairs@.len() - at,
    {
        at = at + 1;
    }
    if at >= tribute.pairs.len() {
        return Err("not return actor".to_owned());
    }
    let paid = match &tribute.pairs[at].paid_card {
        Some(card) => card,
        None => {
            return Err("tribute not paid".to_owned());
        },
    };
    let paid_rank = match parse_card_symbol(paid.as_str()) {
        Ok(card) => card.rank,
        Err(message) => {
            return Err(message);
        },
    };
    let level = hand_state.hand_level.to_rank();
    let hand = match hand_state.hands.get(actor) {
        Some(list) => list,
        None => {
            return Err("missing hand".to_owned());
        },
    };
    let mut out: Vec<PlayerAction> = Vec::new();
    assert(actions(out@) =~= Seq::<Action>::empty());
    assert(hand@.take(0) =~= Seq::<String>::empty());
    for i in 0..hand.len()
        invariant
            returns_of(hand@.take(i as int), paid_rank, level) == Ok::<Seq<Action>, Seq<char>>(
                actions(out@),
            ),
            return_actions(*hand_state, actor) == returns_of(hand@, paid_rank, level),
    {
        assert(hand@.take(i + 1).drop_last() =~= hand@.take(i as int));
        let ghost done = out@;
        match parse_card_symbol(hand[i].as_str()) {
            Ok(card) => {
                if card.rank != paid_rank && card.rank != level {
                    let action = PlayerAction::ReturnCard { card: hand[i].clone() };
                    out.push(action);
                    assert(actions(out@) =~= actions(done).push(action@));
                }
            },
            Err(message) => {
                proof {
                    lemma_returns_prefix(hand@, paid_rank, level, i + 1);
                }
                return Err(message);
            },
        }
    }
    assert(hand@.take(hand@.len() as int) =~= hand@);
    Ok(out)
}

/// Who has to act next, if anyone. While tributes are paid and returned this is not the seat
/// whose turn it is to play.
pub fn current_actor_seat(state: &TableGameState) -> (seat: Option<Seat>)
    ensures
        seat == actor_of(*state),
{
    let hand = match &state.hand {
        Some(h) => h,
        None => {
            return None;
        },
    };
    match state.phase {
        GamePhase::Tribute => {
            if let Some(seat) = hand.next_tribute_actor() {
                return Some(seat);
            }
            match &hand.tribute {
                Some(t) => if t.canceled && t.opening_lead_candidates.len() > 0 {
                    Some(t.opening_lead_candidates[0])
                } else {
                    None
                },
                None => None,
            }
        },
        GamePhase::Exchange => hand.next_exchange_actor(),
        GamePhase::Playing => Some(state.turn_seat),
        _ => None,
    }
}

/// All legal actions of `actor`, who has to be the one to act next.
pub fn enumerate_legal_actions(state: &TableGameState, actor: Seat) -> (found: Result<
    Vec<PlayerAction>,
    String,
>)
    ensures
        answers(found, legal_actions(*state, actor)),
{
    if current_actor_seat(state) != Some(actor) {
        return Err("not actor turn".to_owned());
    }
    let hand = match &state.hand {
        Some(h) => h,
        None => {
            return Err("not actor turn".to_owned());
        },
    };
    let ctx = RuleContext { hand_level: hand.hand_level };
    match state.phase {
        GamePhase::Playing => enumerate_playing(hand, actor, ctx),
        GamePhase::Tribute => Ok(enumerate_tribute(hand, actor, ctx)),
        GamePhase::Exchange => enumerate_return(hand, actor),
        _ => {
            let out: Vec<PlayerAction> = Vec::new();
            assert(actions(out@) =~= Seq::<Action>::empty());
            Ok(out)
        },
    }
}

} // verus!
