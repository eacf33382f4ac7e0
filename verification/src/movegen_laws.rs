//! What holds of every list of plays.

use vstd::prelude::*;
use crate::beat_comparator::beats;
use crate::cards::{
    Card, Rank, RuleContext, Suit, Symbol, card_named, is_joker_rank, natural, rank_order,
    symbols_named, wild,
};
use crate::combination_parser::{
    BombKind, Combination, CombinationKind, OrdinaryKind, bomb, combination_of, combination_shown,
    combination_sought, count_rank, lemma_rank_at, one_rank, one_suit, rank_at, run_to, run_top,
};
use crate::game_types::{Action, TributePair, unpaid_from, unreturned_from};
use crate::hand_view::{hand_ok, lemma_plain_cards, plain_at, plain_cards, plain_count};
use crate::leftovers::{left_of, leftover, same_card, stays};
use crate::movegen::{
    Board, MAX_COMBO_TRIES, MAX_PLAY, action_of, all_wild, best_order, black_joker, block_cards,
    blocks_from, bombs_from, chosen, first_places, flush_cards, flushes_from, group_bombs,
    group_pairs, holds_block, holds_plain, is_symbol, joker_pair, joker_pairs, jokers, movable,
    next_places, pair_of, pairs_from, playing_actions, plays, product, product_limit, red_joker,
    returns_of, singles_from, structures, subset, subsets_from, suit_at, tribute_actions, tributes,
    wild_pair, wild_pairs_from, wild_pool, window_value, with_wilds,
};
use crate::play_set::{Try, legal};
use crate::tally::{lemma_tally_positive, lemma_tally_step, tally};
use crate::wildcard_resolver::wilds;

verus! {

/// No card of a play is played more often than a hand holds it.
pub open spec fn held(cards: Seq<Card>, hand: Seq<Symbol>) -> bool {
    forall|card: Card| #[trigger]
        tally(cards, same_card(card)) <= tally(hand, is_symbol(card))
}

/// Every play is legal and held, and none occurs twice.
pub open spec fn fine(list: Seq<Try>, b: Board) -> bool {
    &&& forall|i: int|
        0 <= i < list.len() ==> legal(#[trigger] list[i], b.ctx, b.top) && held(
            list[i].cards,
            b.hand,
        )
    &&& list.no_duplicates()
}

/// A list that starts with another, and is as fine as that.
pub open spec fn grown(a: Seq<Try>, c: Seq<Try>, b: Board) -> bool {
    &&& a.len() <= c.len()
    &&& forall|i: int| 0 <= i < a.len() ==> #[trigger] c[i] == a[i]
    &&& fine(a, b) ==> fine(c, b)
}

pub(crate) proof fn lemma_keep(list: Seq<Try>, b: Board, cards: Seq<Card>, targets: Option<Seq<Card>>)
    requires
        held(cards, b.hand),
    ensures
        grown(list, b.keep(list, cards, targets), b),
        legal(Try { cards, targets }, b.ctx, b.top) ==> b.keep(list, cards, targets).contains(
            Try { cards, targets },
        ),
{
    let play = Try { cards, targets };
    let after = b.keep(list, cards, targets);
    if legal(play, b.ctx, b.top) {
        if list.contains(play) {
            assert(after.contains(play));
        } else {
            assert(after[list.len() as int] == play);
            if fine(list, b) {
                assert forall|i: int, j: int|
                    0 <= i < after.len() && 0 <= j < after.len() && i != j implies after[i]
                    != after[j] by {
                    if i == list.len() {
                        assert(list.contains(list[j]));
                    } else if j == list.len() {
                        assert(list.contains(list[i]));
                    }
                }
            }
        }
    }
}

pub(crate) proof fn lemma_grown(a: Seq<Try>, c: Seq<Try>, d: Seq<Try>, b: Board)
    requires
        grown(a, c, b),
        grown(c, d, b),
    ensures
        grown(a, d, b),
{
    assert forall|i: int| 0 <= i < a.len() implies #[trigger] d[i] == a[i] by {
        assert(c[i] == a[i]);
    }
}

pub(crate) proof fn lemma_with_wilds(list: Seq<Try>, b: Board, cards: Seq<Card>, w: nat, i: int)
    requires
        held(cards, b.hand),
    ensures
        grown(list, with_wilds(list, b, cards, w, i), b),
    decreases product_limit(wild_pool(b.hand, b.ctx), w as int) - i,
{
    let pool = wild_pool(b.hand, b.ctx);
    if i < product_limit(pool, w as int) {
        let next = b.keep(list, cards, Some(product(pool, w, i)));
        lemma_keep(list, b, cards, Some(product(pool, w, i)));
        lemma_with_wilds(next, b, cards, w, i + 1);
        lemma_grown(list, next, with_wilds(next, b, cards, w, i + 1), b);
    }
}

/// The cards at different places of a hand are held.
pub(crate) proof fn lemma_places_held(hand: Seq<Symbol>, places: Seq<usize>, cards: Seq<Card>)
    requires
        places.len() == cards.len(),
        forall|i: int|
            0 <= i < places.len() ==> (#[trigger] places[i]) < hand.len() && hand[places[i] as int]
                == Symbol::Known(cards[i]),
        forall|i: int, j: int|
            0 <= i < j < places.len() ==> #[trigger] places[i] < #[trigger] places[j],
    ensures
        held(cards, hand),
    decreases hand.len(),
{
    assert forall|card: Card| #[trigger] tally(cards, same_card(card)) <= tally(
        hand,
        is_symbol(card),
    ) by {
        lemma_places_tally(hand, places, cards, card);
    }
}

proof fn lemma_places_tally(hand: Seq<Symbol>, places: Seq<usize>, cards: Seq<Card>, card: Card)
    requires
        places.len() == cards.len(),
        forall|i: int|
            0 <= i < places.len() ==> (#[trigger] places[i]) < hand.len() && hand[places[i] as int]
                == Symbol::Known(cards[i]),
        forall|i: int, j: int|
            0 <= i < j < places.len() ==> #[trigger] places[i] < #[trigger] places[j],
    ensures
        tally(cards, same_card(card)) <= tally(hand, is_symbol(card)),
    decreases hand.len(),
{
    if cards.len() > 0 {
        let front = hand.drop_last();
        let last = places.len() - 1;
        assert(places[last] < hand.len());
        if places[last] == hand.len() - 1 {
            let p = places.drop_last();
            let c = cards.drop_last();
            assert forall|i: int| 0 <= i < p.len() implies (#[trigger] p[i]) < front.len()
                && front[p[i] as int] == Symbol::Known(c[i]) by {
                assert(places[i] < places[last]);
            }
            lemma_places_tally(front, p, c, card);
        } else {
            assert forall|i: int| 0 <= i < places.len() implies (#[trigger] places[i])
                < front.len() && front[places[i] as int] == Symbol::Known(cards[i]) by {
                if i < last {
                    assert(places[i] < places[last]);
                }
            }
            lemma_places_tally(front, places, cards, card);
        }
    }
}

pub(crate) proof fn lemma_one_held(b: Board, i: int, card: Card)
    requires
        0 <= i < b.hand.len(),
        b.hand[i] == Symbol::Known(card),
        b.hand.len() <= usize::MAX,
    ensures
        held(seq![card], b.hand),
{
    lemma_places_held(b.hand, seq![i as usize], seq![card]);
}

/// Swapping the two cards of a pair changes nothing.
pub(crate) proof fn lemma_pair_held(b: Board, i: int, j: int, x: Card, y: Card)
    requires
        0 <= i < j < b.hand.len(),
        b.hand.len() <= usize::MAX,
        b.hand[i] == Symbol::Known(x),
        b.hand[j] == Symbol::Known(y),
    ensures
        held(pair_of(x, y), b.hand),
{
    let plain = seq![x, y];
    lemma_places_held(b.hand, seq![i as usize, j as usize], plain);
    lemma_swap(x, y, b.hand);
}

proof fn lemma_swap(x: Card, y: Card, hand: Seq<Symbol>)
    requires
        held(seq![x, y], hand),
    ensures
        held(pair_of(x, y), hand),
{
    assert forall|card: Card| #[trigger] tally(pair_of(x, y), same_card(card)) <= tally(
        hand,
        is_symbol(card),
    ) by {
        reveal_with_fuel(tally, 3);
        assert(seq![x, y].drop_last() =~= seq![x]);
        assert(seq![y, x].drop_last() =~= seq![y]);
        assert(tally(seq![x, y], same_card(card)) <= tally(hand, is_symbol(card)));
        assert(tally(seq![x, y], same_card(card)) == tally(seq![y, x], same_card(card)));
    }
}

/// A board with a hand that a list can hold.
pub open spec fn board_ok(b: Board) -> bool {
    b.hand.len() <= usize::MAX && hand_ok(b.hand)
}

pub(crate) proof fn lemma_singles(list: Seq<Try>, b: Board, i: int)
    requires
        board_ok(b),
        0 <= i,
    ensures
        grown(list, singles_from(list, b, i), b),
    decreases b.hand.len() - i,
{
    if i < b.hand.len() {
        let next = match b.hand[i] {
            Symbol::Known(card) => if wild(card, b.ctx) {
                if all_wild(b.hand, b.ctx) {
                    with_wilds(list, b, seq![card], 1, 0)
                } else {
                    list
                }
            } else {
                b.keep(list, seq![card], None)
            },
            _ => list,
        };
        if let Symbol::Known(card) = b.hand[i] {
            lemma_one_held(b, i, card);
            lemma_with_wilds(list, b, seq![card], 1, 0);
            lemma_keep(list, b, seq![card], None);
        }
        lemma_singles(next, b, i + 1);
        lemma_grown(list, next, singles_from(next, b, i + 1), b);
    }
}

/// The plain cards of a value are held, also those that come first among them.
proof fn lemma_plain_tally(hand: Seq<Symbol>, ctx: RuleContext, value: int, card: Card)
    ensures
        tally(plain_cards(hand, ctx, value), same_card(card)) <= if natural(card.rank) == value {
            tally(hand, is_symbol(card))
        } else {
            0
        },
    decreases hand.len(),
{
    if hand.len() > 0 {
        let front = hand.drop_last();
        lemma_plain_tally(front, ctx, value, card);
        let all = plain_cards(hand, ctx, value);
        if plain_at(ctx, value)(hand.last()) {
            assert(all.drop_last() =~= plain_cards(front, ctx, value));
        }
    }
}

proof fn lemma_take_tally(cards: Seq<Card>, n: int, card: Card)
    requires
        0 <= n <= cards.len(),
    ensures
        tally(cards.take(n), same_card(card)) <= tally(cards, same_card(card)),
    decreases cards.len(),
{
    if n < cards.len() {
        assert(cards.drop_last().take(n) =~= cards.take(n));
        lemma_take_tally(cards.drop_last(), n, card);
    } else {
        assert(cards.take(n) =~= cards);
    }
}

proof fn lemma_first_held(b: Board, value: int, n: int)
    requires
        0 <= n <= plain_cards(b.hand, b.ctx, value).len(),
    ensures
        held(plain_cards(b.hand, b.ctx, value).take(n), b.hand),
{
    let group = plain_cards(b.hand, b.ctx, value);
    assert forall|card: Card| #[trigger] tally(group.take(n), same_card(card)) <= tally(
        b.hand,
        is_symbol(card),
    ) by {
        lemma_plain_tally(b.hand, b.ctx, value, card);
        lemma_take_tally(group, n, card);
    }
}

proof fn lemma_two_tally(cards: Seq<Card>, i: int, j: int, card: Card)
    requires
        0 <= i < j < cards.len(),
    ensures
        tally(seq![cards[i], cards[j]], same_card(card)) <= tally(cards, same_card(card)),
    decreases cards.len(),
{
    let two = seq![cards[i], cards[j]];
    assert(two.drop_last() =~= seq![cards[i]]);
    assert(seq![cards[i]].drop_last() =~= Seq::<Card>::empty());
    if j == cards.len() - 1 {
        lemma_one_tally(cards.drop_last(), i, card);
    } else {
        assert(cards.drop_last()[i] == cards[i] && cards.drop_last()[j] == cards[j]);
        lemma_two_tally(cards.drop_last(), i, j, card);
    }
}

proof fn lemma_one_tally(cards: Seq<Card>, i: int, card: Card)
    requires
        0 <= i < cards.len(),
    ensures
        tally(seq![cards[i]], same_card(card)) <= tally(cards, same_card(card)),
    decreases cards.len(),
{
    assert(seq![cards[i]].drop_last() =~= Seq::<Card>::empty());
    assert(tally(Seq::<Card>::empty(), same_card(card)) == 0);
    if i < cards.len() - 1 {
        assert(cards.drop_last()[i] == cards[i]);
        lemma_one_tally(cards.drop_last(), i, card);
    }
}

proof fn lemma_group_pairs(list: Seq<Try>, b: Board, value: int, i: int, j: int)
    requires
        0 <= i < j,
    ensures
        grown(list, group_pairs(list, b, plain_cards(b.hand, b.ctx, value), i, j), b),
    decreases
            plain_cards(b.hand, b.ctx, value).len() - i,
            plain_cards(b.hand, b.ctx, value).len() - j,
{
    let group = plain_cards(b.hand, b.ctx, value);
    if i >= group.len() {
    } else if j >= group.len() {
        lemma_group_pairs(list, b, value, i + 1, i + 2);
    } else {
        let next = b.keep(list, pair_of(group[i], group[j]), None);
        let two = seq![group[i], group[j]];
        assert(held(two, b.hand)) by {
            assert forall|card: Card| #[trigger] tally(two, same_card(card)) <= tally(
                b.hand,
                is_symbol(card),
            ) by {
                lemma_two_tally(group, i, j, card);
                lemma_plain_tally(b.hand, b.ctx, value, card);
            }
        }
        lemma_swap(group[i], group[j], b.hand);
        lemma_keep(list, b, pair_of(group[i], group[j]), None);
        lemma_group_pairs(next, b, value, i, j + 1);
        lemma_grown(list, next, group_pairs(next, b, group, i, j + 1), b);
    }
}

proof fn lemma_pairs(list: Seq<Try>, b: Board, value: int)
    ensures
        grown(list, pairs_from(list, b, value), b),
    decreases 15 - value,
{
    if value <= 14 {
        let group = plain_cards(b.hand, b.ctx, value);
        let next = group_pairs(list, b, group, 0, 1);
        lemma_group_pairs(list, b, value, 0, 1);
        lemma_pairs(next, b, value + 1);
        lemma_grown(list, next, pairs_from(next, b, value + 1), b);
    }
}

proof fn lemma_joker_pair(list: Seq<Try>, b: Board, joker: Card)
    ensures
        grown(list, joker_pair(list, b, joker), b),
        tally(b.hand, is_symbol(joker)) >= 2 && legal(
            Try { cards: seq![joker, joker], targets: None },
            b.ctx,
            b.top,
        ) ==> joker_pair(list, b, joker).contains(
            Try { cards: seq![joker, joker], targets: None },
        ),
{
    if tally(b.hand, is_symbol(joker)) >= 2 {
        let two = seq![joker, joker];
        assert forall|card: Card| #[trigger] tally(two, same_card(card)) <= tally(
            b.hand,
            is_symbol(card),
        ) by {
            assert(two.drop_last() =~= seq![joker]);
            assert(seq![joker].drop_last() =~= Seq::<Card>::empty());
            reveal_with_fuel(tally, 3);
        }
        lemma_keep(list, b, two, None);
    } else {
        lemma_same(list, b);
    }
}

proof fn lemma_joker_pairs(list: Seq<Try>, b: Board)
    ensures
        grown(list, joker_pairs(list, b), b),
        grown(joker_pair(list, b, red_joker()), joker_pairs(list, b), b),
{
    let red = joker_pair(list, b, red_joker());
    lemma_joker_pair(list, b, red_joker());
    lemma_joker_pair(red, b, black_joker());
    lemma_grown(list, red, joker_pairs(list, b), b);
}

pub(crate) proof fn lemma_wild_pairs(list: Seq<Try>, b: Board, i: int, j: int)
    requires
        board_ok(b),
        0 <= i < j,
    ensures
        grown(list, wild_pairs_from(list, b, i, j), b),
    decreases b.hand.len() - i, b.hand.len() - j,
{
    if i >= b.hand.len() {
    } else if j >= b.hand.len() {
        lemma_wild_pairs(list, b, i + 1, i + 2);
    } else {
        let next = wild_pair(list, b, i, j);
        if let (Symbol::Known(x), Symbol::Known(y)) = (b.hand[i], b.hand[j]) {
            lemma_pair_held(b, i, j, x, y);
            lemma_with_wilds(list, b, pair_of(x, y), wilds(pair_of(x, y), b.ctx), 0);
        }
        lemma_wild_pairs(next, b, i, j + 1);
        lemma_grown(list, next, wild_pairs_from(next, b, i, j + 1), b);
    }
}

proof fn lemma_group_bombs(list: Seq<Try>, b: Board, value: int, n: int)
    requires
        0 <= n,
    ensures
        grown(list, group_bombs(list, b, plain_cards(b.hand, b.ctx, value), n), b),
    decreases 11 - n,
{
    let group = plain_cards(b.hand, b.ctx, value);
    if n <= group.len() && n <= MAX_PLAY {
        let next = b.keep(list, group.take(n), None);
        lemma_first_held(b, value, n);
        lemma_keep(list, b, group.take(n), None);
        lemma_group_bombs(next, b, value, n + 1);
        lemma_grown(list, next, group_bombs(next, b, group, n + 1), b);
    }
}

proof fn lemma_bombs(list: Seq<Try>, b: Board, value: int)
    ensures
        grown(list, bombs_from(list, b, value), b),
    decreases 15 - value,
{
    if value <= 14 {
        let next = group_bombs(list, b, plain_cards(b.hand, b.ctx, value), 4);
        lemma_group_bombs(list, b, value, 4);
        lemma_bombs(next, b, value + 1);
        lemma_grown(list, next, bombs_from(next, b, value + 1), b);
    }
}

pub open spec fn four_jokers() -> Seq<Card> {
    seq![red_joker(), red_joker(), black_joker(), black_joker()]
}

proof fn lemma_jokers(list: Seq<Try>, b: Board)
    ensures
        grown(list, jokers(list, b), b),
{
    if tally(b.hand, is_symbol(red_joker())) >= 2 && tally(b.hand, is_symbol(black_joker())) >= 2 {
        let four = four_jokers();
        assert forall|card: Card| #[trigger] tally(four, same_card(card)) <= tally(
            b.hand,
            is_symbol(card),
        ) by {
            assert(four.drop_last() =~= seq![red_joker(), red_joker(), black_joker()]);
            assert(four.drop_last().drop_last() =~= seq![red_joker(), red_joker()]);
            assert(four.drop_last().drop_last().drop_last() =~= seq![red_joker()]);
            assert(four.drop_last().drop_last().drop_last().drop_last() =~= Seq::<Card>::empty());
            reveal_with_fuel(tally, 5);
        }
        lemma_keep(list, b, four, None);
    }
}

/// Different cards of a hand are held.
proof fn lemma_distinct_held(cards: Seq<Card>, hand: Seq<Symbol>)
    requires
        cards.no_duplicates(),
        forall|i: int| 0 <= i < cards.len() ==> hand.contains(Symbol::Known(#[trigger] cards[i])),
    ensures
        held(cards, hand),
{
    assert forall|card: Card| #[trigger] tally(cards, same_card(card)) <= tally(
        hand,
        is_symbol(card),
    ) by {
        lemma_distinct_tally(cards, card);
        if cards.contains(card) {
            let i = cards.index_of(card);
            assert(hand.contains(Symbol::Known(cards[i])));
            let j = hand.index_of(Symbol::Known(card));
            lemma_tally_positive(hand, is_symbol(card));
            assert(is_symbol(card)(hand[j]));
        }
    }
}

proof fn lemma_distinct_tally(cards: Seq<Card>, card: Card)
    requires
        cards.no_duplicates(),
    ensures
        tally(cards, same_card(card)) == if cards.contains(card) {
            1nat
        } else {
            0nat
        },
    decreases cards.len(),
{
    if cards.len() > 0 {
        let front = cards.drop_last();
        lemma_distinct_tally(front, card);
        assert(cards[cards.len() - 1] == cards.last());
        if front.contains(card) {
            let i = front.index_of(card);
            assert(cards[i] == card);
        }
        if cards.contains(card) && !front.contains(card) {
            let i = cards.index_of(card);
            if i < front.len() {
                assert(front[i] == card);
            }
        }
    }
}

proof fn lemma_flush_distinct(suit: Suit, j: int)
    requires
        0 <= j < 10,
    ensures
        flush_cards(suit, j).no_duplicates(),
{
    let cards = flush_cards(suit, j);
    assert forall|x: int, y: int| 0 <= x < cards.len() && 0 <= y < cards.len() && x != y implies
        cards[x] != cards[y] by {
        assert(natural(rank_at(window_value(5, j, x))) == window_value(5, j, x));
        assert(natural(rank_at(window_value(5, j, y))) == window_value(5, j, y));
    }
}

proof fn lemma_flushes(list: Seq<Try>, b: Board, s: int, j: int)
    requires
        0 <= j,
    ensures
        grown(list, flushes_from(list, b, s, j), b),
    decreases 4 - s, 10 - j,
{
    if s >= 4 {
    } else if j >= 10 {
        lemma_flushes(list, b, s + 1, 0);
    } else {
        let cards = flush_cards(suit_at(s), j);
        let next = if holds_plain(b.hand, b.ctx, cards) {
            b.keep(list, cards, None)
        } else {
            list
        };
        if holds_plain(b.hand, b.ctx, cards) {
            lemma_flush_distinct(suit_at(s), j);
            lemma_distinct_held(cards, b.hand);
            lemma_keep(list, b, cards, None);
        }
        lemma_flushes(next, b, s, j + 1);
        lemma_grown(list, next, flushes_from(next, b, s, j + 1), b);
    }
}

proof fn lemma_tally_add(a: Seq<Card>, c: Seq<Card>, card: Card)
    ensures
        tally(a + c, same_card(card)) == tally(a, same_card(card)) + tally(c, same_card(card)),
    decreases c.len(),
{
    if c.len() == 0 {
        assert(a + c =~= a);
    } else {
        assert((a + c).drop_last() =~= a + c.drop_last());
        lemma_tally_add(a, c.drop_last(), card);
    }
}

/// The cards of a block up to the `i`-th value have only those values.
proof fn lemma_block_tally(b: Board, k: int, m: int, j: int, i: int, card: Card)
    requires
        0 <= i <= k <= 5,
        0 <= j <= 14 - k,
        0 <= m,
        holds_block(b, k, m, j),
    ensures
        tally(block_cards(b, k, m, j, i), same_card(card)) <= tally(b.hand, is_symbol(card)),
        (forall|x: int| 0 <= x < i ==> #[trigger] window_value(k, j, x) != natural(card.rank))
            ==> tally(block_cards(b, k, m, j, i), same_card(card)) == 0,
        block_cards(b, k, m, j, i).len() == i * m,
    decreases i,
{
    if i > 0 {
        lemma_block_tally(b, k, m, j, i - 1, card);
        let front = block_cards(b, k, m, j, i - 1);
        let value = window_value(k, j, i - 1);
        let group = plain_cards(b.hand, b.ctx, value);
        lemma_plain_cards(b.hand, b.ctx, value);
        lemma_plain_tally(b.hand, b.ctx, value, card);
        lemma_take_tally(group, m, card);
        lemma_tally_add(front, group.take(m), card);
        assert(i * m == (i - 1) * m + m) by (nonlinear_arith);
        if value == natural(card.rank) {
            assert forall|x: int| 0 <= x < i - 1 implies #[trigger] window_value(k, j, x)
                != natural(card.rank) by {}
        }
    }
}

proof fn lemma_blocks(list: Seq<Try>, b: Board, k: int, m: int, j: int)
    requires
        0 <= k <= 5,
        0 <= m,
        0 <= j,
    ensures
        grown(list, blocks_from(list, b, k, m, j), b),
    decreases 15 - k - j,
{
    if j <= 14 - k {
        let cards = block_cards(b, k, m, j, k);
        let next = if holds_block(b, k, m, j) {
            b.keep(list, cards, None)
        } else {
            list
        };
        if holds_block(b, k, m, j) {
            assert(held(cards, b.hand)) by {
                assert forall|card: Card| #[trigger] tally(cards, same_card(card)) <= tally(
                    b.hand,
                    is_symbol(card),
                ) by {
                    lemma_block_tally(b, k, m, j, k, card);
                }
            }
            lemma_keep(list, b, cards, None);
        }
        lemma_blocks(next, b, k, m, j + 1);
        lemma_grown(list, next, blocks_from(next, b, k, m, j + 1), b);
    }
}

/// Places in rising order within a hand.
pub open spec fn rising(places: Seq<usize>, n: int) -> bool {
    &&& forall|i: int| 0 <= i < places.len() ==> (#[trigger] places[i]) < n
    &&& forall|i: int, j: int|
        0 <= i < j < places.len() ==> #[trigger] places[i] < #[trigger] places[j]
}

pub(crate) proof fn lemma_movable(places: Seq<usize>, n: int, i: int)
    requires
        0 <= i <= places.len(),
    ensures
        movable(places, n, i) matches Some(p) ==> 0 <= p < i && places[p] < n - places.len() + p,
    decreases i,
{
    if i > 0 && !(places[i - 1] < n - places.len() + i - 1) {
        lemma_movable(places, n, i - 1);
    }
}

pub(crate) proof fn lemma_next_places(places: Seq<usize>, n: int)
    requires
        rising(places, n),
        n <= usize::MAX,
    ensures
        next_places(places, n) matches Some(more) ==> rising(more, n) && more.len()
            == places.len(),
{
    lemma_movable(places, n, places.len() as int);
    if let Some(more) = next_places(places, n) {
        let p = movable(places, n, places.len() as int)->Some_0;
        assert forall|j: int| 0 <= j < more.len() implies (#[trigger] more[j]) < n by {
            if j >= p {
                assert(places[p] + 1 + (j - p) < n);
            }
        }
        assert forall|i: int, j: int| 0 <= i < j < more.len() implies #[trigger] more[i]
            < #[trigger] more[j] by {
            if j < p {
                assert(places[i] < places[j]);
            } else if i < p {
                assert(places[i] < places[p]);
            }
        }
    }
}

pub(crate) proof fn lemma_subset(list: Seq<Try>, b: Board, places: Seq<usize>)
    requires
        rising(places, b.hand.len() as int),
    ensures
        grown(list, subset(list, b, places), b),
{
    if let Some(cards) = chosen(b.hand, places) {
        assert forall|i: int| 0 <= i < places.len() implies (#[trigger] places[i]) < b.hand.len()
            && b.hand[places[i] as int] == Symbol::Known(cards[i]) by {
            assert(b.hand[places[i] as int] is Known);
        }
        lemma_places_held(b.hand, places, cards);
        lemma_keep(list, b, cards, None);
        lemma_with_wilds(list, b, cards, wilds(cards, b.ctx), 0);
    }
}

pub(crate) proof fn lemma_subsets(list: Seq<Try>, b: Board, places: Seq<usize>, used: int)
    requires
        board_ok(b),
        rising(places, b.hand.len() as int),
    ensures
        grown(list, subsets_from(list, b, places, used), b),
    decreases MAX_COMBO_TRIES - used,
{
    if used < MAX_COMBO_TRIES {
        let next = subset(list, b, places);
        lemma_subset(list, b, places);
        lemma_next_places(places, b.hand.len() as int);
        match next_places(places, b.hand.len() as int) {
            Some(more) => {
                lemma_subsets(next, b, more, used + 1);
                lemma_grown(list, next, subsets_from(next, b, more, used + 1), b);
            },
            None => if places.len() + 1 <= b.hand.len() && places.len() + 1 <= MAX_PLAY {
                let more = first_places(places.len() + 1);
                assert(rising(more, b.hand.len() as int));
                lemma_subsets(next, b, more, used + 1);
                lemma_grown(list, next, subsets_from(next, b, more, used + 1), b);
            },
        }
    }
}

/// The plays after each stage of the search.
pub open spec fn small_plays(b: Board) -> Seq<Try> {
    pairs_from(singles_from(Seq::empty(), b, 0), b, 2)
}

pub open spec fn paired_plays(b: Board) -> Seq<Try> {
    wild_pairs_from(joker_pairs(small_plays(b), b), b, 0, 1)
}

proof fn lemma_structures(list: Seq<Try>, b: Board)
    ensures
        grown(list, structures(list, b), b),
        grown(bombs_from(list, b, 2), structures(list, b), b),
        grown(jokers(bombs_from(list, b, 2), b), structures(list, b), b),
        grown(flushes_from(jokers(bombs_from(list, b, 2), b), b, 0, 0), structures(list, b), b),
        grown(
            blocks_from(flushes_from(jokers(bombs_from(list, b, 2), b), b, 0, 0), b, 3, 2, 0),
            structures(list, b),
            b,
        ),
{
    let first = bombs_from(list, b, 2);
    let second = jokers(first, b);
    let third = flushes_from(second, b, 0, 0);
    let fourth = blocks_from(third, b, 3, 2, 0);
    let fifth = blocks_from(fourth, b, 2, 3, 0);
    lemma_bombs(list, b, 2);
    lemma_jokers(first, b);
    lemma_flushes(second, b, 0, 0);
    lemma_blocks(third, b, 3, 2, 0);
    lemma_blocks(fourth, b, 2, 3, 0);
    lemma_grown(third, fourth, fifth, b);
    lemma_grown(second, third, fifth, b);
    lemma_grown(first, second, fifth, b);
    lemma_grown(list, first, fifth, b);
}

pub(crate) proof fn lemma_stages(b: Board)
    requires
        board_ok(b),
    ensures
        grown(Seq::empty(), plays(b), b),
        grown(singles_from(Seq::empty(), b, 0), plays(b), b),
        grown(small_plays(b), plays(b), b),
        grown(joker_pairs(small_plays(b), b), plays(b), b),
        grown(paired_plays(b), plays(b), b),
        grown(structures(paired_plays(b), b), plays(b), b),
{
    let none = Seq::<Try>::empty();
    let singles = singles_from(none, b, 0);
    let small = small_plays(b);
    let joined = joker_pairs(small, b);
    let paired = paired_plays(b);
    let shaped = structures(paired, b);
    lemma_singles(none, b, 0);
    lemma_pairs(singles, b, 2);
    lemma_joker_pairs(small, b);
    lemma_wild_pairs(joined, b, 0, 1);
    lemma_structures(paired, b);
    if b.hand.len() >= 3 {
        assert(rising(first_places(3), b.hand.len() as int));
        lemma_subsets(shaped, b, first_places(3), 0);
    } else {
        lemma_same(shaped, b);
    }
    lemma_grown(paired, shaped, plays(b), b);
    lemma_grown(joined, paired, plays(b), b);
    lemma_grown(small, joined, plays(b), b);
    lemma_grown(singles, small, plays(b), b);
    lemma_grown(none, singles, plays(b), b);
}

pub(crate) proof fn lemma_same(list: Seq<Try>, b: Board)
    ensures
        grown(list, list, b),
{
}

/// Every play that is found is legal, uses only cards of the hand, and is found once.
pub proof fn plays_are_fine(b: Board)
    requires
        board_ok(b),
    ensures
        fine(plays(b), b),
{
    lemma_stages(b);
    assert(fine(Seq::empty(), b));
}

pub(crate) proof fn lemma_kept(a: Seq<Try>, c: Seq<Try>, b: Board, play: Try)
    requires
        grown(a, c, b),
        a.contains(play),
    ensures
        c.contains(play),
{
    let i = a.index_of(play);
    assert(c[i] == play);
}

/// Without wild cards, cards count for what they show.
proof fn lemma_plain_sought(cards: Seq<Card>, ctx: RuleContext, pos: int)
    requires
        0 <= pos <= cards.len(),
        forall|i: int| 0 <= i < cards.len() ==> !wild(#[trigger] cards[i], ctx),
    ensures
        combination_sought(cards, ctx, pos, 0) == combination_shown(cards, ctx),
    decreases cards.len() - pos,
{
    if pos < cards.len() {
        lemma_plain_sought(cards, ctx, pos + 1);
    }
}

/// A combination may be played on a table: nothing lies on it, or something that it beats.
pub open spec fn playable(own: Combination, top: Option<Combination>) -> bool {
    top matches Some(other) ==> beats(other, own)
}

proof fn lemma_same_value(b: Board, value: int, n: int)
    requires
        1 <= n <= plain_cards(b.hand, b.ctx, value).len(),
        2 <= value <= 14,
    ensures
        ({
            let cards = plain_cards(b.hand, b.ctx, value).take(n);
            &&& forall|i: int|
                0 <= i < cards.len() ==> (#[trigger] cards[i]).rank == rank_at(value) && !wild(
                    cards[i],
                    b.ctx,
                )
            &&& one_rank(cards)
            &&& !is_joker_rank(cards[0].rank)
            &&& combination_of(cards, None, b.ctx) == combination_shown(cards, b.ctx)
        }),
{
    let group = plain_cards(b.hand, b.ctx, value);
    lemma_plain_cards(b.hand, b.ctx, value);
    let cards = group.take(n);
    assert forall|i: int| 0 <= i < cards.len() implies (#[trigger] cards[i]).rank == rank_at(value)
        && !wild(cards[i], b.ctx) by {
        assert(cards[i] == group[i]);
        assert(plain_at(b.ctx, value)(Symbol::Known(group[i])));
        assert(natural(group[i].rank) == value);
        if !is_joker_rank(group[i].rank) {
            lemma_rank_at(group[i].rank);
        }
    }
    assert(cards[0].rank == rank_at(value));
    lemma_plain_sought(cards, b.ctx, 0);
}

proof fn lemma_finds_bomb(list: Seq<Try>, b: Board, value: int, n: int, k: int)
    requires
        0 <= n <= k <= plain_cards(b.hand, b.ctx, value).len(),
        k <= MAX_PLAY,
        legal(
            Try { cards: plain_cards(b.hand, b.ctx, value).take(k), targets: None },
            b.ctx,
            b.top,
        ),
    ensures
        group_bombs(list, b, plain_cards(b.hand, b.ctx, value), n).contains(
            Try { cards: plain_cards(b.hand, b.ctx, value).take(k), targets: None },
        ),
    decreases 11 - n,
{
    let group = plain_cards(b.hand, b.ctx, value);
    let next = b.keep(list, group.take(n), None);
    if n == k {
        lemma_first_held(b, value, n);
        lemma_keep(list, b, group.take(n), None);
        lemma_group_bombs(next, b, value, n + 1);
        lemma_kept(next, group_bombs(next, b, group, n + 1), b, Try { cards: group.take(k), targets: None });
    } else {
        lemma_finds_bomb(next, b, value, n + 1, k);
    }
}

proof fn lemma_finds_bombs(list: Seq<Try>, b: Board, from: int, value: int, k: int)
    requires
        from <= value <= 14,
        4 <= k <= plain_cards(b.hand, b.ctx, value).len(),
        k <= MAX_PLAY,
        legal(
            Try { cards: plain_cards(b.hand, b.ctx, value).take(k), targets: None },
            b.ctx,
            b.top,
        ),
    ensures
        bombs_from(list, b, from).contains(
            Try { cards: plain_cards(b.hand, b.ctx, value).take(k), targets: None },
        ),
    decreases 15 - from,
{
    let next = group_bombs(list, b, plain_cards(b.hand, b.ctx, from), 4);
    if from == value {
        lemma_finds_bomb(list, b, value, 4, k);
        lemma_bombs(next, b, from + 1);
        lemma_kept(
            next,
            bombs_from(next, b, from + 1),
            b,
            Try { cards: plain_cards(b.hand, b.ctx, value).take(k), targets: None },
        );
    } else {
        lemma_finds_bombs(next, b, from + 1, value, k);
    }
}

/// Every plain bomb is found: four to ten cards of one value, wherever they may be played.
pub proof fn plain_bombs_are_found(b: Board, value: int, n: int)
    requires
        board_ok(b),
        2 <= value <= 14,
        4 <= n <= 10,
        n <= plain_count(b.hand, b.ctx, value),
        playable(
            Combination {
                kind: CombinationKind::Bomb(BombKind::SameRank { n: n as u8 }),
                primary: rank_order(rank_at(value), b.ctx) as u8,
            },
            b.top,
        ),
    ensures
        plays(b).contains(
            Try { cards: plain_cards(b.hand, b.ctx, value).take(n), targets: None },
        ),
{
    lemma_plain_cards(b.hand, b.ctx, value);
    lemma_same_value(b, value, n);
    let play = Try { cards: plain_cards(b.hand, b.ctx, value).take(n), targets: None };
    assert(play.cards[0].rank == rank_at(value));
    assert(legal(play, b.ctx, b.top));
    let list = paired_plays(b);
    lemma_finds_bombs(list, b, 2, value, n);
    lemma_structures(list, b);
    lemma_kept(bombs_from(list, b, 2), structures(list, b), b, play);
    lemma_stages(b);
    lemma_kept(structures(list, b), plays(b), b, play);
}

/// The four jokers beat everything, and are found wherever they are held.
pub proof fn four_jokers_are_found(b: Board)
    requires
        board_ok(b),
        tally(b.hand, is_symbol(red_joker())) >= 2,
        tally(b.hand, is_symbol(black_joker())) >= 2,
        playable(
            Combination { kind: CombinationKind::Bomb(BombKind::FourJoker), primary: 16 },
            b.top,
        ),
    ensures
        plays(b).contains(Try { cards: four_jokers(), targets: None }),
{
    let four = four_jokers();
    let play = Try { cards: four, targets: None };
    let list = paired_plays(b);
    lemma_plain_sought(four, b.ctx, 0);
    assert(four[0].rank != four[2].rank);
    assert(four.drop_last() =~= seq![red_joker(), red_joker(), black_joker()]);
    assert(four.drop_last().drop_last() =~= seq![red_joker(), red_joker()]);
    assert(four.drop_last().drop_last().drop_last() =~= seq![red_joker()]);
    assert(four.drop_last().drop_last().drop_last().drop_last() =~= Seq::<Card>::empty());
    reveal_with_fuel(tally, 5);
    assert(count_rank(four, Rank::RedJoker) == 2 && count_rank(four, Rank::BlackJoker) == 2);
    assert(combination_shown(four, b.ctx) == bomb(BombKind::FourJoker, 16));
    assert(legal(play, b.ctx, b.top));
    lemma_jokers(bombs_from(list, b, 2), b);
    assert(jokers(bombs_from(list, b, 2), b).contains(play)) by {
        let before = bombs_from(list, b, 2);
        let after = jokers(before, b);
        if !before.contains(play) {
            assert(after[before.len() as int] == play);
        }
    }
    lemma_structures(list, b);
    lemma_kept(jokers(bombs_from(list, b, 2), b), structures(list, b), b, play);
    lemma_stages(b);
    lemma_kept(structures(list, b), plays(b), b, play);
}

proof fn lemma_finds_single(list: Seq<Try>, b: Board, from: int, i: int, card: Card)
    requires
        board_ok(b),
        0 <= from <= i < b.hand.len(),
        b.hand[i] == Symbol::Known(card),
        !wild(card, b.ctx),
        legal(Try { cards: seq![card], targets: None }, b.ctx, b.top),
    ensures
        singles_from(list, b, from).contains(Try { cards: seq![card], targets: None }),
    decreases b.hand.len() - from,
{
    let next = match b.hand[from] {
        Symbol::Known(card) => if wild(card, b.ctx) {
            if all_wild(b.hand, b.ctx) {
                with_wilds(list, b, seq![card], 1, 0)
            } else {
                list
            }
        } else {
            b.keep(list, seq![card], None)
        },
        _ => list,
    };
    if from == i {
        lemma_one_held(b, i, card);
        lemma_keep(list, b, seq![card], None);
        lemma_singles(next, b, from + 1);
        lemma_kept(
            next,
            singles_from(next, b, from + 1),
            b,
            Try { cards: seq![card], targets: None },
        );
    } else {
        lemma_finds_single(next, b, from + 1, i, card);
    }
}

/// Every card that is not wild can be played alone where its rank beats what lies on the table.
pub proof fn single_cards_are_found(b: Board, i: int, card: Card)
    requires
        board_ok(b),
        0 <= i < b.hand.len(),
        b.hand[i] == Symbol::Known(card),
        !wild(card, b.ctx),
        playable(
            Combination {
                kind: CombinationKind::Ordinary(OrdinaryKind::Single),
                primary: rank_order(card.rank, b.ctx) as u8,
            },
            b.top,
        ),
    ensures
        plays(b).contains(Try { cards: seq![card], targets: None }),
{
    let play = Try { cards: seq![card], targets: None };
    lemma_plain_sought(seq![card], b.ctx, 0);
    assert(seq![card][0] == card);
    assert(legal(play, b.ctx, b.top));
    lemma_finds_single(Seq::empty(), b, 0, i, card);
    lemma_stages(b);
    lemma_kept(singles_from(Seq::empty(), b, 0), plays(b), b, play);
}

/// A player who leads always has something to put down.
pub proof fn leader_has_a_play(hand: Seq<String>, ctx: RuleContext)
    requires
        hand.len() > 0,
    ensures
        playing_actions(Some(hand), None, ctx) matches Ok(list) && list.len() > 0
            && !list.contains(Action::Pass),
{
    let found = plays(Board { hand: symbols_named(hand), ctx, top: None }).map_values(
        |t: Try| action_of(t),
    );
    if found.len() > 0 {
        assert forall|i: int| 0 <= i < found.len() implies found[i] != Action::Pass by {}
    } else {
        let only = seq![Action::Play { cards: seq![hand[0]@], wild_targets: None }];
        assert(only[0] is Play);
    }
}

/// A player who follows may always pass.
pub proof fn follower_may_pass(hand: Seq<String>, top: Combination, ctx: RuleContext)
    ensures
        playing_actions(Some(hand), Some(top), ctx) matches Ok(list) && list.contains(Action::Pass),
{
    if hand.len() == 0 {
        assert(seq![Action::Pass][0] == Action::Pass);
    } else {
        let found = plays(Board { hand: symbols_named(hand), ctx, top: Some(top) }).map_values(
            |t: Try| action_of(t),
        );
        assert((seq![Action::Pass] + found)[0] == Action::Pass);
    }
}

/// The value that the `j`-th run of `k` values ends in.
pub open spec fn window_top(k: int, j: int) -> int {
    if j < 14 - k {
        1 + j + k
    } else {
        k
    }
}

/// A value, the ace also as one, that is in the `j`-th run of `k` values.
pub open spec fn in_window(k: int, j: int, v: int) -> bool {
    if j < 14 - k {
        2 + j <= v <= 1 + j + k || (v == 1 && 1 + j + k == 14)
    } else {
        1 <= v <= k || v == 14
    }
}

proof fn lemma_run_found(cards: Seq<Card>, top: int, from: int, k: int, m: nat)
    requires
        1 <= k <= top <= from,
        run_to(cards, top, k, m),
        forall|t: int| top < t <= from ==> !#[trigger] run_to(cards, t, k, m),
    ensures
        run_top(cards, from, k, m) == Some(top),
    decreases from,
{
    if from > top {
        assert(!run_to(cards, from, k, m));
        lemma_run_found(cards, top, from - 1, k, m);
    }
}

/// Cards that have each value of a run `m` times and no other so often form that run.
proof fn lemma_window_run(cards: Seq<Card>, k: int, j: int, m: nat)
    requires
        2 <= k <= 5,
        0 <= j <= 14 - k,
        forall|v: int|
            1 <= v <= 14 ==> (count_rank(cards, #[trigger] rank_at(v)) == m) == in_window(k, j, v),
    ensures
        run_top(cards, 14, k, m) == Some(window_top(k, j)),
{
    let top = window_top(k, j);
    assert(run_to(cards, top, k, m)) by {
        assert forall|v: int| top - k < v <= top implies count_rank(cards, #[trigger] rank_at(v))
            == m by {
            assert(in_window(k, j, v));
        }
    }
    assert forall|t: int| top < t <= 14 implies !#[trigger] run_to(cards, t, k, m) by {
        if t == 14 {
            assert(!in_window(k, j, 13) || !in_window(k, j, 14));
            assert(count_rank(cards, rank_at(13)) != m || count_rank(cards, rank_at(14)) != m);
        } else {
            assert(!in_window(k, j, t));
            assert(count_rank(cards, rank_at(t)) != m);
        }
    }
    lemma_run_found(cards, top, 14, k, m);
}

proof fn lemma_five(cards: Seq<Card>, rank: Rank)
    requires
        cards.len() == 5,
    ensures
        count_rank(cards, rank) == (if cards[0].rank == rank {
            1int
        } else {
            0
        }) + (if cards[1].rank == rank {
            1int
        } else {
            0
        }) + (if cards[2].rank == rank {
            1int
        } else {
            0
        }) + (if cards[3].rank == rank {
            1int
        } else {
            0
        }) + (if cards[4].rank == rank {
            1int
        } else {
            0
        }),
{
    reveal_with_fuel(tally, 6);
    let c4 = cards.drop_last();
    let c3 = c4.drop_last();
    let c2 = c3.drop_last();
    let c1 = c2.drop_last();
    assert(c4.last() == cards[3] && c3.last() == cards[2] && c2.last() == cards[1] && c1.last()
        == cards[0]);
    assert(c1.drop_last().len() == 0);
}

proof fn lemma_flush_shown(suit: Suit, j: int, ctx: RuleContext)
    requires
        0 <= j < 10,
    ensures
        combination_shown(flush_cards(suit, j), ctx) == bomb(
            BombKind::StraightFlush,
            window_top(5, j),
        ),
{
    let cards = flush_cards(suit, j);
    assert forall|v: int| 1 <= v <= 14 implies (count_rank(cards, #[trigger] rank_at(v)) == 1)
        == in_window(5, j, v) by {
        lemma_five(cards, rank_at(v));
        assert(cards[0].rank == rank_at(window_value(5, j, 0)));
        assert(cards[1].rank == rank_at(window_value(5, j, 1)));
        assert(cards[2].rank == rank_at(window_value(5, j, 2)));
        assert(cards[3].rank == rank_at(window_value(5, j, 3)));
        assert(cards[4].rank == rank_at(window_value(5, j, 4)));
    }
    lemma_window_run(cards, 5, j, 1);
    assert(cards[0].rank == rank_at(window_value(5, j, 0)));
    assert(cards[1].rank == rank_at(window_value(5, j, 1)));
    assert(cards[0].rank != cards[1].rank);
    assert(!one_rank(cards));
    assert(one_suit(cards));
}

proof fn lemma_finds_flush(list: Seq<Try>, b: Board, s: int, j: int, suit: int, run: int)
    requires
        0 <= suit < 4,
        0 <= run < 10,
        0 <= s,
        0 <= j <= 10,
        s < suit || (s == suit && j <= run),
        holds_plain(b.hand, b.ctx, flush_cards(suit_at(suit), run)),
        legal(Try { cards: flush_cards(suit_at(suit), run), targets: None }, b.ctx, b.top),
    ensures
        flushes_from(list, b, s, j).contains(
            Try { cards: flush_cards(suit_at(suit), run), targets: None },
        ),
    decreases 4 - s, 10 - j,
{
    if j >= 10 {
        lemma_finds_flush(list, b, s + 1, 0, suit, run);
    } else {
        let cards = flush_cards(suit_at(s), j);
        let next = if holds_plain(b.hand, b.ctx, cards) {
            b.keep(list, cards, None)
        } else {
            list
        };
        if s == suit && j == run {
            lemma_flush_distinct(suit_at(s), j);
            lemma_distinct_held(cards, b.hand);
            lemma_keep(list, b, cards, None);
            lemma_flushes(next, b, s, j + 1);
            lemma_kept(next, flushes_from(next, b, s, j + 1), b, Try { cards, targets: None });
        } else {
            lemma_finds_flush(next, b, s, j + 1, suit, run);
        }
    }
}

/// Every plain straight flush is found, the one from the ace below the two included.
pub proof fn straight_flushes_are_found(b: Board, suit: int, run: int)
    requires
        board_ok(b),
        0 <= suit < 4,
        0 <= run < 10,
        holds_plain(b.hand, b.ctx, flush_cards(suit_at(suit), run)),
        playable(
            Combination {
                kind: CombinationKind::Bomb(BombKind::StraightFlush),
                primary: window_top(5, run) as u8,
            },
            b.top,
        ),
    ensures
        plays(b).contains(Try { cards: flush_cards(suit_at(suit), run), targets: None }),
{
    let cards = flush_cards(suit_at(suit), run);
    let play = Try { cards, targets: None };
    lemma_plain_sought(cards, b.ctx, 0);
    lemma_flush_shown(suit_at(suit), run, b.ctx);
    assert(legal(play, b.ctx, b.top));
    let list = paired_plays(b);
    let before = jokers(bombs_from(list, b, 2), b);
    lemma_finds_flush(before, b, 0, 0, suit, run);
    lemma_structures(list, b);
    lemma_kept(flushes_from(before, b, 0, 0), structures(list, b), b, play);
    lemma_stages(b);
    lemma_kept(structures(list, b), plays(b), b, play);
}

proof fn lemma_rank_add(a: Seq<Card>, c: Seq<Card>, rank: Rank)
    ensures
        count_rank(a + c, rank) == count_rank(a, rank) + count_rank(c, rank),
    decreases c.len(),
{
    if c.len() == 0 {
        assert(a + c =~= a);
    } else {
        assert((a + c).drop_last() =~= a + c.drop_last());
        lemma_rank_add(a, c.drop_last(), rank);
    }
}

proof fn lemma_rank_all(cards: Seq<Card>, own: Rank, rank: Rank)
    requires
        forall|i: int| 0 <= i < cards.len() ==> (#[trigger] cards[i]).rank == own,
    ensures
        count_rank(cards, rank) == if own == rank {
            cards.len()
        } else {
            0
        },
    decreases cards.len(),
{
    if cards.len() > 0 {
        assert(cards[cards.len() - 1].rank == own);
        lemma_rank_all(cards.drop_last(), own, rank);
    }
}

/// The value `v` is among the first `i` of the `j`-th run of `k` values.
pub open spec fn among_first(k: int, j: int, i: int, v: int) -> bool {
    exists|x: int| 0 <= x < i && #[trigger] window_value(k, j, x) == v
}

proof fn lemma_block_rank(b: Board, k: int, m: int, j: int, i: int, v: int)
    requires
        0 <= i <= k <= 5,
        0 <= j <= 14 - k,
        1 <= m,
        2 <= v <= 14,
        holds_block(b, k, m, j),
    ensures
        count_rank(block_cards(b, k, m, j, i), rank_at(v)) == if among_first(k, j, i, v) {
            m
        } else {
            0
        },
        block_cards(b, k, m, j, i).len() == i * m,
        forall|c: int|
            0 <= c < block_cards(b, k, m, j, i).len() ==> !wild(
                #[trigger] block_cards(b, k, m, j, i)[c],
                b.ctx,
            ),
    decreases i,
{
    if i > 0 {
        lemma_block_rank(b, k, m, j, i - 1, v);
        let front = block_cards(b, k, m, j, i - 1);
        let value = window_value(k, j, i - 1);
        let group = plain_cards(b.hand, b.ctx, value);
        lemma_plain_cards(b.hand, b.ctx, value);
        assert(plain_count(b.hand, b.ctx, window_value(k, j, i - 1)) >= m);
        lemma_same_value(b, value, m);
        lemma_rank_all(group.take(m), rank_at(value), rank_at(v));
        lemma_rank_add(front, group.take(m), rank_at(v));
        assert(i * m == (i - 1) * m + m) by (nonlinear_arith);
        let all = block_cards(b, k, m, j, i);
        assert forall|c: int| 0 <= c < all.len() implies !wild(#[trigger] all[c], b.ctx) by {
            if c < front.len() {
                assert(all[c] == front[c]);
            } else {
                assert(all[c] == group.take(m)[c - front.len()]);
            }
        }
        if value == v {
            assert(among_first(k, j, i, v));
            assert(!among_first(k, j, i - 1, v));
        } else {
            if among_first(k, j, i, v) {
                let x = choose|x: int| 0 <= x < i && #[trigger] window_value(k, j, x) == v;
                assert(x < i - 1);
                assert(among_first(k, j, i - 1, v));
            }
            assert(rank_at(value) != rank_at(v));
        }
    } else {
        assert(block_cards(b, k, m, j, i).len() == 0);
    }
}

proof fn lemma_among(k: int, j: int, v: int)
    requires
        2 <= k <= 5,
        0 <= j <= 14 - k,
        2 <= v <= 14,
    ensures
        among_first(k, j, k, v) == in_window(k, j, v),
{
    if in_window(k, j, v) {
        let x = if j < 14 - k {
            v - 2 - j
        } else if v == 14 {
            k - 1
        } else {
            v - 2
        };
        assert(window_value(k, j, x) == v);
    }
}

/// A block of `m` cards of each of `k` values in a row shows a run.
proof fn lemma_block_run(b: Board, k: int, m: int, j: int)
    requires
        2 <= k <= 5,
        0 <= j <= 14 - k,
        1 <= m,
        holds_block(b, k, m, j),
    ensures
        ({
            let cards = block_cards(b, k, m, j, k);
            &&& cards.len() == k * m
            &&& run_top(cards, 14, k, m as nat) == Some(window_top(k, j))
            &&& !one_rank(cards)
            &&& combination_of(cards, None, b.ctx) == combination_shown(cards, b.ctx)
            &&& forall|v: int|
                1 <= v <= 14 ==> (count_rank(cards, #[trigger] rank_at(v)) == m || count_rank(
                    cards,
                    rank_at(v),
                ) == 0)
        }),
{
    let cards = block_cards(b, k, m, j, k);
    assert forall|v: int| 1 <= v <= 14 implies (count_rank(cards, #[trigger] rank_at(v)) == m)
        == in_window(k, j, v) && (count_rank(cards, rank_at(v)) == m || count_rank(
        cards,
        rank_at(v),
    ) == 0) by {
        let w = if v == 1 {
            14
        } else {
            v
        };
        assert(rank_at(w) == rank_at(v));
        lemma_block_rank(b, k, m, j, k, w);
        lemma_among(k, j, w);
    }
    lemma_window_run(cards, k, j, m as nat);
    lemma_block_rank(b, k, m, j, k, 2);
    lemma_plain_sought(cards, b.ctx, 0);
    if one_rank(cards) {
        let x = if j < 14 - k {
            2 + j
        } else {
            2
        };
        let y = if j < 14 - k {
            3 + j
        } else {
            14
        };
        assert(in_window(k, j, x) && in_window(k, j, y));
        assert(count_rank(cards, rank_at(x)) == m && count_rank(cards, rank_at(y)) == m);
        lemma_rank_all(cards, cards[0].rank, rank_at(x));
        lemma_rank_all(cards, cards[0].rank, rank_at(y));
    }
}

proof fn lemma_no_run(cards: Seq<Card>, from: int, k: int, m: nat, other: nat)
    requires
        1 <= k,
        from <= 14,
        m != other,
        m > 0,
        forall|v: int|
            1 <= v <= 14 ==> (count_rank(cards, #[trigger] rank_at(v)) == other || count_rank(
                cards,
                rank_at(v),
            ) == 0),
    ensures
        run_top(cards, from, k, m) is None,
    decreases from,
{
    if from >= k {
        assert(count_rank(cards, rank_at(from)) != m);
        assert(!run_to(cards, from, k, m));
        lemma_no_run(cards, from - 1, k, m, other);
    }
}

proof fn lemma_finds_block(list: Seq<Try>, b: Board, k: int, m: int, from: int, j: int)
    requires
        0 <= k <= 5,
        0 <= m,
        0 <= from <= j <= 14 - k,
        holds_block(b, k, m, j),
        legal(Try { cards: block_cards(b, k, m, j, k), targets: None }, b.ctx, b.top),
    ensures
        blocks_from(list, b, k, m, from).contains(
            Try { cards: block_cards(b, k, m, j, k), targets: None },
        ),
    decreases 15 - k - from,
{
    let cards = block_cards(b, k, m, from, k);
    let next = if holds_block(b, k, m, from) {
        b.keep(list, cards, None)
    } else {
        list
    };
    if from == j {
        assert(held(cards, b.hand)) by {
            assert forall|card: Card| #[trigger] tally(cards, same_card(card)) <= tally(
                b.hand,
                is_symbol(card),
            ) by {
                lemma_block_tally(b, k, m, j, k, card);
            }
        }
        lemma_keep(list, b, cards, None);
        lemma_blocks(next, b, k, m, from + 1);
        lemma_kept(next, blocks_from(next, b, k, m, from + 1), b, Try { cards, targets: None });
    } else {
        lemma_finds_block(next, b, k, m, from + 1, j);
    }
}

/// Three plain pairs in a row are found, those from the ace below the two included.
pub proof fn tubes_are_found(b: Board, j: int)
    requires
        board_ok(b),
        0 <= j <= 11,
        holds_block(b, 3, 2, j),
        playable(
            Combination {
                kind: CombinationKind::Ordinary(OrdinaryKind::Tube),
                primary: window_top(3, j) as u8,
            },
            b.top,
        ),
    ensures
        plays(b).contains(Try { cards: block_cards(b, 3, 2, j, 3), targets: None }),
{
    let cards = block_cards(b, 3, 2, j, 3);
    let play = Try { cards, targets: None };
    lemma_block_run(b, 3, 2, j);
    assert(legal(play, b.ctx, b.top));
    let list = paired_plays(b);
    let before = flushes_from(jokers(bombs_from(list, b, 2), b), b, 0, 0);
    lemma_finds_block(before, b, 3, 2, 0, j);
    lemma_structures(list, b);
    lemma_kept(blocks_from(before, b, 3, 2, 0), structures(list, b), b, play);
    lemma_stages(b);
    lemma_kept(structures(list, b), plays(b), b, play);
}

/// Two plain triples in a row are found, those from the ace below the two included.
pub proof fn plates_are_found(b: Board, j: int)
    requires
        board_ok(b),
        0 <= j <= 12,
        holds_block(b, 2, 3, j),
        playable(
            Combination {
                kind: CombinationKind::Ordinary(OrdinaryKind::Plate),
                primary: window_top(2, j) as u8,
            },
            b.top,
        ),
    ensures
        plays(b).contains(Try { cards: block_cards(b, 2, 3, j, 2), targets: None }),
{
    let cards = block_cards(b, 2, 3, j, 2);
    let play = Try { cards, targets: None };
    lemma_block_run(b, 2, 3, j);
    lemma_no_run(cards, 14, 3, 2, 3);
    assert(legal(play, b.ctx, b.top));
    let list = paired_plays(b);
    let before = blocks_from(
        flushes_from(jokers(bombs_from(list, b, 2), b), b, 0, 0),
        b,
        3,
        2,
        0,
    );
    lemma_finds_block(before, b, 2, 3, 0, j);
    lemma_stages(b);
    lemma_kept(structures(list, b), plays(b), b, play);
}

proof fn lemma_finds_pair(
    list: Seq<Try>,
    b: Board,
    value: int,
    i: int,
    j: int,
    p: int,
    q: int,
)
    requires
        0 <= i < j <= plain_cards(b.hand, b.ctx, value).len(),
        0 <= p < q < plain_cards(b.hand, b.ctx, value).len(),
        i < p || (i == p && j <= q),
        legal(
            Try {
                cards: pair_of(
                    plain_cards(b.hand, b.ctx, value)[p],
                    plain_cards(b.hand, b.ctx, value)[q],
                ),
                targets: None,
            },
            b.ctx,
            b.top,
        ),
    ensures
        group_pairs(list, b, plain_cards(b.hand, b.ctx, value), i, j).contains(
            Try {
                cards: pair_of(
                    plain_cards(b.hand, b.ctx, value)[p],
                    plain_cards(b.hand, b.ctx, value)[q],
                ),
                targets: None,
            },
        ),
    decreases
            plain_cards(b.hand, b.ctx, value).len() - i,
            plain_cards(b.hand, b.ctx, value).len() - j,
{
    let group = plain_cards(b.hand, b.ctx, value);
    if j >= group.len() {
        lemma_finds_pair(list, b, value, i + 1, i + 2, p, q);
    } else {
        let cards = pair_of(group[i], group[j]);
        let next = b.keep(list, cards, None);
        if i == p && j == q {
            let two = seq![group[i], group[j]];
            assert(held(two, b.hand)) by {
                assert forall|card: Card| #[trigger] tally(two, same_card(card)) <= tally(
                    b.hand,
                    is_symbol(card),
                ) by {
                    lemma_two_tally(group, i, j, card);
                    lemma_plain_tally(b.hand, b.ctx, value, card);
                }
            }
            lemma_swap(group[i], group[j], b.hand);
            lemma_keep(list, b, cards, None);
            lemma_group_pairs(next, b, value, i, j + 1);
            lemma_kept(
                next,
                group_pairs(next, b, group, i, j + 1),
                b,
                Try { cards, targets: None },
            );
        } else {
            lemma_finds_pair(next, b, value, i, j + 1, p, q);
        }
    }
}

proof fn lemma_finds_pairs(list: Seq<Try>, b: Board, from: int, value: int, p: int, q: int)
    requires
        from <= value <= 14,
        0 <= p < q < plain_cards(b.hand, b.ctx, value).len(),
        legal(
            Try {
                cards: pair_of(
                    plain_cards(b.hand, b.ctx, value)[p],
                    plain_cards(b.hand, b.ctx, value)[q],
                ),
                targets: None,
            },
            b.ctx,
            b.top,
        ),
    ensures
        pairs_from(list, b, from).contains(
            Try {
                cards: pair_of(
                    plain_cards(b.hand, b.ctx, value)[p],
                    plain_cards(b.hand, b.ctx, value)[q],
                ),
                targets: None,
            },
        ),
    decreases 15 - from,
{
    let group = plain_cards(b.hand, b.ctx, from);
    let next = group_pairs(list, b, group, 0, 1);
    if from == value {
        lemma_finds_pair(list, b, value, 0, 1, p, q);
        lemma_pairs(next, b, from + 1);
        lemma_kept(
            next,
            pairs_from(next, b, from + 1),
            b,
            Try { cards: pair_of(group[p], group[q]), targets: None },
        );
    } else {
        lemma_finds_pairs(next, b, from + 1, value, p, q);
    }
}

/// Any two plain cards of one value can be played as a pair where that beats what lies on the
/// table.
pub proof fn plain_pairs_are_found(b: Board, value: int, p: int, q: int)
    requires
        board_ok(b),
        2 <= value <= 14,
        0 <= p < q < plain_cards(b.hand, b.ctx, value).len(),
        playable(
            Combination {
                kind: CombinationKind::Ordinary(OrdinaryKind::Pair),
                primary: rank_order(rank_at(value), b.ctx) as u8,
            },
            b.top,
        ),
    ensures
        plays(b).contains(
            Try {
                cards: pair_of(
                    plain_cards(b.hand, b.ctx, value)[p],
                    plain_cards(b.hand, b.ctx, value)[q],
                ),
                targets: None,
            },
        ),
{
    let group = plain_cards(b.hand, b.ctx, value);
    let cards = pair_of(group[p], group[q]);
    let play = Try { cards, targets: None };
    lemma_plain_cards(b.hand, b.ctx, value);
    lemma_same_value(b, value, group.len() as int);
    assert(group.take(group.len() as int) =~= group);
    assert(group[p].rank == rank_at(value) && group[q].rank == rank_at(value));
    lemma_plain_sought(cards, b.ctx, 0);
    assert(one_rank(cards));
    assert(legal(play, b.ctx, b.top));
    let singles = singles_from(Seq::empty(), b, 0);
    lemma_finds_pairs(singles, b, 2, value, p, q);
    lemma_stages(b);
    lemma_kept(small_plays(b), plays(b), b, play);
}

/// Two equal jokers can be played as a pair where that beats what lies on the table.
pub proof fn joker_pairs_are_found(b: Board, joker: Card)
    requires
        board_ok(b),
        joker == red_joker() || joker == black_joker(),
        tally(b.hand, is_symbol(joker)) >= 2,
        playable(
            Combination {
                kind: CombinationKind::Ordinary(OrdinaryKind::Pair),
                primary: rank_order(joker.rank, b.ctx) as u8,
            },
            b.top,
        ),
    ensures
        plays(b).contains(Try { cards: seq![joker, joker], targets: None }),
{
    let cards = seq![joker, joker];
    let play = Try { cards, targets: None };
    let small = small_plays(b);
    let red = joker_pair(small, b, red_joker());
    lemma_plain_sought(cards, b.ctx, 0);
    assert(cards[0] == joker && one_rank(cards));
    assert(legal(play, b.ctx, b.top));
    lemma_joker_pair(small, b, red_joker());
    lemma_joker_pair(red, b, black_joker());
    lemma_joker_pairs(small, b);
    if joker == red_joker() {
        lemma_kept(red, joker_pairs(small, b), b, play);
    }
    lemma_stages(b);
    lemma_kept(joker_pairs(small, b), plays(b), b, play);
}

pub open spec fn same_symbol(symbol: Symbol) -> spec_fn(Symbol) -> bool {
    |s: Symbol| s == symbol
}

/// Cards as symbols.
pub open spec fn as_symbols(cards: Seq<Card>) -> Seq<Symbol> {
    cards.map_values(|c: Card| Symbol::Known(c))
}

proof fn lemma_count_is_tally(list: Seq<Symbol>, symbol: Symbol)
    ensures
        list.to_multiset().count(symbol) == tally(list, same_symbol(symbol)),
    decreases list.len(),
{
    broadcast use vstd::seq_lib::group_to_multiset_ensures;

    if list.len() > 0 {
        lemma_count_is_tally(list.drop_last(), symbol);
        assert(list =~= list.drop_last().push(list.last()));
    }
}

proof fn lemma_symbols_tally(cards: Seq<Card>, symbol: Symbol)
    ensures
        tally(as_symbols(cards), same_symbol(symbol)) == match symbol {
            Symbol::Known(card) => tally(cards, same_card(card)),
            _ => 0,
        },
    decreases cards.len(),
{
    if cards.len() > 0 {
        lemma_symbols_tally(cards.drop_last(), symbol);
        assert(as_symbols(cards).drop_last() =~= as_symbols(cards.drop_last()));
    }
}

proof fn lemma_symbol_tally(hand: Seq<Symbol>, card: Card)
    ensures
        tally(hand, same_symbol(Symbol::Known(card))) == tally(hand, is_symbol(card)),
    decreases hand.len(),
{
    if hand.len() > 0 {
        lemma_symbol_tally(hand.drop_last(), card);
    }
}

proof fn lemma_left_tally(hand: Seq<Symbol>, play: Seq<Card>, n: int, symbol: Symbol)
    requires
        0 <= n <= hand.len(),
    ensures
        ({
            let all = tally(hand.take(n), same_symbol(symbol)) as int;
            let taken: int = match symbol {
                Symbol::Known(card) => tally(play, same_card(card)) as int,
                _ => 0,
            };
            tally(left_of(hand, play, n), same_symbol(symbol)) == if all > taken {
                all - taken
            } else {
                0
            }
        }),
    decreases n,
{
    if n > 0 {
        lemma_left_tally(hand, play, n - 1, symbol);
        lemma_tally_step(hand, same_symbol(symbol), n - 1);
        let front = left_of(hand, play, n - 1);
        if stays(hand, play, n - 1) {
            assert(front.push(hand[n - 1]).drop_last() =~= front);
        }
        if let Symbol::Known(card) = hand[n - 1] {
            lemma_symbol_tally(hand.take(n - 1), card);
        }
    } else {
        assert(hand.take(0) =~= Seq::<Symbol>::empty());
    }
}

/// A play and what it leaves make up the hand, card for card.
pub proof fn play_and_leftover_make_the_hand(hand: Seq<Symbol>, play: Seq<Card>)
    requires
        held(play, hand),
    ensures
        (as_symbols(play) + leftover(hand, play)).to_multiset() == hand.to_multiset(),
        play.len() + leftover(hand, play).len() == hand.len(),
{
    broadcast use vstd::seq_lib::group_to_multiset_ensures;

    let rest = leftover(hand, play);
    let both = as_symbols(play) + rest;
    assert forall|symbol: Symbol| both.to_multiset().count(symbol) == #[trigger]
        hand.to_multiset().count(symbol) by {
        lemma_count_is_tally(both, symbol);
        lemma_count_is_tally(hand, symbol);
        lemma_sum_tally(as_symbols(play), rest, symbol);
        lemma_symbols_tally(play, symbol);
        lemma_left_tally(hand, play, hand.len() as int, symbol);
        assert(hand.take(hand.len() as int) =~= hand);
        if let Symbol::Known(card) = symbol {
            lemma_symbol_tally(hand, card);
            assert(tally(play, same_card(card)) <= tally(hand, is_symbol(card)));
        }
    }
    assert(both.to_multiset() =~= hand.to_multiset());
    assert(both.len() == both.to_multiset().len());
    assert(hand.len() == hand.to_multiset().len());
}

proof fn lemma_sum_tally(a: Seq<Symbol>, c: Seq<Symbol>, symbol: Symbol)
    ensures
        tally(a + c, same_symbol(symbol)) == tally(a, same_symbol(symbol)) + tally(
            c,
            same_symbol(symbol),
        ),
    decreases c.len(),
{
    if c.len() == 0 {
        assert(a + c =~= a);
    } else {
        assert((a + c).drop_last() =~= a + c.drop_last());
        lemma_sum_tally(a, c.drop_last(), symbol);
    }
}

/// No card that is not wild ranks above the best order, and where there is one, one has it.
proof fn lemma_best_order(hand: Seq<String>, ctx: RuleContext)
    ensures
        0 <= best_order(hand, ctx),
        forall|i: int|
            0 <= i < hand.len() ==> (card_named((#[trigger] hand[i])@) matches Some(card) ==> (!wild(
                card,
                ctx,
            ) ==> rank_order(card.rank, ctx) <= best_order(hand, ctx))),
    decreases hand.len(),
{
    if hand.len() > 0 {
        lemma_best_order(hand.drop_last(), ctx);
        assert forall|i: int| 0 <= i < hand.len() implies (card_named((#[trigger] hand[i])@)
            matches Some(card) ==> (!wild(card, ctx) ==> rank_order(card.rank, ctx) <= best_order(
            hand,
            ctx,
        ))) by {
            if i < hand.len() - 1 {
                assert(hand.drop_last()[i] == hand[i]);
            }
        }
    }
}

proof fn lemma_tributes(hand: Seq<String>, order: int, ctx: RuleContext)
    ensures
        forall|k: int|
            0 <= k < tributes(hand, order, ctx).len() ==> exists|i: int|
                0 <= i < hand.len() && #[trigger] tributes(hand, order, ctx)[k] == (Action::Tribute {
                    card: (#[trigger] hand[i])@,
                }) && (card_named(hand[i]@) matches Some(card) && !wild(card, ctx) && rank_order(
                    card.rank,
                    ctx,
                ) == order),
        forall|i: int|
            0 <= i < hand.len() && (card_named((#[trigger] hand[i])@) matches Some(card) && !wild(
                card,
                ctx,
            ) && rank_order(card.rank, ctx) == order) ==> tributes(hand, order, ctx).contains(
                Action::Tribute { card: hand[i]@ },
            ),
    decreases hand.len(),
{
    if hand.len() > 0 {
        let front = hand.drop_last();
        lemma_tributes(front, order, ctx);
        let list = tributes(hand, order, ctx);
        let before = tributes(front, order, ctx);
        let n = hand.len() - 1;
        let taken = card_named(hand[n]@) matches Some(card) && !wild(card, ctx) && rank_order(
            card.rank,
            ctx,
        ) == order;
        assert(list == if taken {
            before.push(Action::Tribute { card: hand[n]@ })
        } else {
            before
        });
        assert forall|k: int| 0 <= k < list.len() implies exists|i: int|
            0 <= i < hand.len() && #[trigger] list[k] == (Action::Tribute {
                card: (#[trigger] hand[i])@,
            }) && (card_named(hand[i]@) matches Some(card) && !wild(card, ctx) && rank_order(
                card.rank,
                ctx,
            ) == order) by {
            if k < before.len() {
                assert(before[k] == list[k]);
                let i = choose|i: int|
                    0 <= i < front.len() && before[k] == (Action::Tribute {
                        card: (#[trigger] front[i])@,
                    }) && (card_named(front[i]@) matches Some(card) && !wild(card, ctx)
                        && rank_order(card.rank, ctx) == order);
                assert(hand[i] == front[i]);
            } else {
                assert(hand[n] == hand[n]);
            }
        }
        assert forall|i: int|
            0 <= i < hand.len() && (card_named((#[trigger] hand[i])@) matches Some(card) && !wild(
                card,
                ctx,
            ) && rank_order(card.rank, ctx) == order) implies list.contains(
            Action::Tribute { card: hand[i]@ },
        ) by {
            if i < n {
                assert(front[i] == hand[i]);
                let k = choose|k: int|
                    0 <= k < before.len() && before[k] == (Action::Tribute { card: hand[i]@ });
                assert(list[k] == before[k]);
            } else {
                assert(list[list.len() - 1] == (Action::Tribute { card: hand[i]@ }));
            }
        }
    }
}

/// A tribute is the highest card of the hand, wild cards excepted: whatever may be paid is such a
/// card of the hand, and no other card of the hand that is not wild ranks above it.
pub proof fn tributes_are_highest(hand: Seq<String>, ctx: RuleContext, k: int, j: int)
    requires
        0 <= k < tribute_actions(Some(hand), ctx).len(),
        0 <= j < hand.len(),
    ensures
        tribute_actions(Some(hand), ctx)[k] matches Action::Tribute { card: text } && (card_named(
            text,
        ) matches Some(card) && !wild(card, ctx) && (exists|i: int|
            0 <= i < hand.len() && (#[trigger] hand[i])@ == text) && (card_named(hand[j]@)
            matches Some(other) ==> (!wild(other, ctx) ==> rank_order(other.rank, ctx)
            <= rank_order(card.rank, ctx)))),
{
    lemma_best_order(hand, ctx);
    lemma_tributes(hand, best_order(hand, ctx), ctx);
    assert(hand[j] == hand[j]);
}

/// Every card of the hand that is not wild and that no other such card ranks above may be paid.
pub proof fn highest_cards_may_be_paid(hand: Seq<String>, ctx: RuleContext, i: int, card: Card)
    requires
        0 <= i < hand.len(),
        card_named(hand[i]@) == Some(card),
        !wild(card, ctx),
        forall|j: int|
            0 <= j < hand.len() ==> (card_named((#[trigger] hand[j])@) matches Some(other) ==> (
            !wild(other, ctx) ==> rank_order(other.rank, ctx) <= rank_order(card.rank, ctx))),
    ensures
        tribute_actions(Some(hand), ctx).contains(Action::Tribute { card: hand[i]@ }),
{
    lemma_best_order(hand, ctx);
    lemma_best_is_held(hand, ctx);
    assert(hand[i] == hand[i]);
    lemma_tributes(hand, best_order(hand, ctx), ctx);
}

proof fn lemma_best_is_held(hand: Seq<String>, ctx: RuleContext)
    ensures
        best_order(hand, ctx) == 0 || exists|i: int|
            0 <= i < hand.len() && (card_named((#[trigger] hand[i])@) matches Some(card) && !wild(
                card,
                ctx,
            ) && rank_order(card.rank, ctx) == best_order(hand, ctx)),
    decreases hand.len(),
{
    if hand.len() > 0 {
        let front = hand.drop_last();
        lemma_best_is_held(front, ctx);
        if best_order(hand, ctx) == best_order(front, ctx) && best_order(front, ctx) != 0 {
            let i = choose|i: int|
                0 <= i < front.len() && (card_named((#[trigger] front[i])@) matches Some(card)
                    && !wild(card, ctx) && rank_order(card.rank, ctx) == best_order(front, ctx));
            assert(hand[i] == front[i]);
        } else if best_order(hand, ctx) != best_order(front, ctx) {
            assert(hand[hand.len() - 1] == hand.last());
        }
    }
}

/// A return is a card of the hand of another rank than the tribute that was paid and than the
/// level, and every such card may be returned; a message comes only where a text names no card.
pub proof fn returns_differ_from_the_tribute(hand: Seq<String>, paid: Rank, level: Rank)
    ensures
        match returns_of(hand, paid, level) {
            Ok(list) => {
                &&& forall|k: int|
                    0 <= k < list.len() ==> exists|i: int|
                        0 <= i < hand.len() && #[trigger] list[k] == (Action::ReturnCard {
                            card: (#[trigger] hand[i])@,
                        }) && (card_named(hand[i]@) matches Some(card) && card.rank != paid
                            && card.rank != level)
                &&& forall|i: int|
                    0 <= i < hand.len() && (card_named((#[trigger] hand[i])@) matches Some(card)
                        && card.rank != paid && card.rank != level) ==> list.contains(
                        Action::ReturnCard { card: hand[i]@ },
                    )
                &&& forall|i: int|
                    0 <= i < hand.len() ==> card_named((#[trigger] hand[i])@) is Some
            },
            Err(message) => exists|i: int|
                0 <= i < hand.len() && card_named((#[trigger] hand[i])@) is None,
        },
    decreases hand.len(),
{
    if hand.len() > 0 {
        let front = hand.drop_last();
        let n = hand.len() - 1;
        returns_differ_from_the_tribute(front, paid, level);
        match returns_of(front, paid, level) {
            Err(message) => {
                let i = choose|i: int|
                    0 <= i < front.len() && card_named((#[trigger] front[i])@) is None;
                assert(hand[i] == front[i]);
            },
            Ok(before) => {
                assert(hand[n] == hand.last());
                if let Some(card) = card_named(hand[n]@) {
                    let list = returns_of(hand, paid, level)->Ok_0;
                    assert forall|k: int| 0 <= k < list.len() implies exists|i: int|
                        0 <= i < hand.len() && #[trigger] list[k] == (Action::ReturnCard {
                            card: (#[trigger] hand[i])@,
                        }) && (card_named(hand[i]@) matches Some(card) && card.rank != paid
                            && card.rank != level) by {
                        if k < before.len() {
                            assert(before[k] == list[k]);
                            let i = choose|i: int|
                                0 <= i < front.len() && before[k] == (Action::ReturnCard {
                                    card: (#[trigger] front[i])@,
                                }) && (card_named(front[i]@) matches Some(card) && card.rank != paid
                                    && card.rank != level);
                            assert(hand[i] == front[i]);
                        }
                    }
                    assert forall|i: int|
                        0 <= i < hand.len() && (card_named((#[trigger] hand[i])@) matches Some(card)
                            && card.rank != paid && card.rank != level) implies list.contains(
                        Action::ReturnCard { card: hand[i]@ },
                    ) by {
                        if i < n {
                            assert(front[i] == hand[i]);
                            let k = choose|k: int|
                                0 <= k < before.len() && before[k] == (Action::ReturnCard {
                                    card: hand[i]@,
                                });
                            assert(list[k] == before[k]);
                        } else {
                            assert(list[list.len() - 1] == (Action::ReturnCard { card: hand[i]@ }));
                        }
                    }
                    assert forall|i: int| 0 <= i < hand.len() implies card_named(
                        (#[trigger] hand[i])@,
                    ) is Some by {
                        if i < n {
                            assert(front[i] == hand[i]);
                        }
                    }
                }
            },
        }
    }
}

/// Tributes are paid and returned in their order: whoever has to act is the payer of the first
/// unpaid tribute, or the receiver of the first unreturned one, and nobody once all are settled.
pub proof fn exchanges_go_in_order(pairs: Seq<TributePair>, i: int)
    requires
        0 <= i <= pairs.len(),
    ensures
        match unpaid_from(pairs, i) {
            Some(seat) => exists|k: int|
                i <= k < pairs.len() && (#[trigger] pairs[k]).paid_card is None && pairs[k].payer
                    == seat && forall|j: int| i <= j < k ==> (#[trigger] pairs[j]).paid_card is Some,
            None => forall|j: int| i <= j < pairs.len() ==> (#[trigger] pairs[j]).paid_card is Some,
        },
        match unreturned_from(pairs, i) {
            Some(seat) => exists|k: int|
                i <= k < pairs.len() && (#[trigger] pairs[k]).return_card is None
                    && pairs[k].receiver == seat && forall|j: int|
                    i <= j < k ==> (#[trigger] pairs[j]).return_card is Some,
            None => forall|j: int|
                i <= j < pairs.len() ==> (#[trigger] pairs[j]).return_card is Some,
        },
    decreases pairs.len() - i,
{
    if i < pairs.len() {
        exchanges_go_in_order(pairs, i + 1);
        assert(pairs[i] == pairs[i]);
    }
}

} // verus!
