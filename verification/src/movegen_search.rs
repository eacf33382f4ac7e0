//! The search through the subsets of a hand misses none.

use vstd::prelude::*;
use crate::cards::{Card, RuleContext, Suit, Symbol, card_ok, level_rank, natural};
use crate::combination_parser::{lemma_rank_at, rank_at};
use crate::movegen::{
    Board, MAX_COMBO_TRIES, MAX_PLAY, chosen, first_places, four_of, movable, next_places, plays,
    product, ranks_down, structures, subset, subsets_from, wild_pool, with_wilds,
};
use crate::movegen_laws::{
    board_ok, grown, held, lemma_keep, lemma_kept, lemma_movable, lemma_next_places,
    lemma_places_held, lemma_same, lemma_subsets, lemma_with_wilds, paired_plays, rising,
};
use crate::play_set::{Try, legal};
use crate::wildcard_resolver::wilds;

verus! {

/// In how many ways `k` of `n` things can be chosen.
pub open spec fn choices(n: int, k: int) -> int
    decreases n,
{
    if n < 0 || k < 0 {
        0
    } else if k == 0 {
        1
    } else if n == 0 {
        0
    } else {
        choices(n - 1, k - 1) + choices(n - 1, k)
    }
}

/// How many choices of as many places agree with the given ones on the first `i`, and do not
/// come before them.
pub open spec fn choices_left(places: Seq<usize>, n: int, i: int) -> int
    decreases places.len() - i,
{
    if i >= places.len() {
        1
    } else {
        choices_left(places, n, i + 1) + choices(n - 1 - places[i], places.len() - i)
    }
}

/// In how many ways `from` to `to` of `n` things can be chosen.
pub open spec fn choices_between(n: int, from: int, to: int) -> int
    decreases to - from + 1,
{
    if from > to {
        0
    } else {
        choices_between(n, from, to - 1) + choices(n, to)
    }
}

/// How many subsets of a hand of `n` cards are tried before the one at the given places.
pub open spec fn tries_before(places: Seq<usize>, n: int) -> int {
    choices_between(n, 3, places.len() as int) - choices_left(places, n, 0)
}

proof fn lemma_none_too_many(n: int, k: int)
    requires
        k > n,
    ensures
        choices(n, k) == 0,
    decreases n,
{
    if n > 0 && k > 0 {
        lemma_none_too_many(n - 1, k - 1);
        lemma_none_too_many(n - 1, k);
    }
}

proof fn lemma_choices_grow(a: int, n: int, k: int)
    requires
        a <= n,
    ensures
        0 <= choices(a, k) <= choices(n, k),
    decreases n,
{
    if n > 0 && k >= 0 {
        if a < n {
            lemma_choices_grow(a, n - 1, k);
            lemma_choices_grow(n - 1, n - 1, k - 1);
            lemma_choices_grow(n - 1, n - 1, k);
        } else if a > 0 {
            lemma_choices_grow(a - 1, n - 1, k - 1);
            lemma_choices_grow(a - 1, n - 1, k);
        }
    }
}

/// Places in a row from `s` on come first of all from `s` on.
proof fn lemma_first(places: Seq<usize>, n: int, i: int, s: int)
    requires
        0 <= i <= places.len(),
        0 <= s,
        s + (places.len() - i) <= n,
        forall|j: int| i <= j < places.len() ==> #[trigger] places[j] == s + (j - i),
    ensures
        choices_left(places, n, i) == choices(n - s, places.len() - i),
    decreases places.len() - i,
{
    if i < places.len() {
        lemma_first(places, n, i + 1, s + 1);
        assert(places[i] == s);
    }
}

/// The highest places come last.
proof fn lemma_last(places: Seq<usize>, n: int, i: int)
    requires
        0 <= i <= places.len(),
        forall|j: int| i <= j < places.len() ==> #[trigger] places[j] == n - places.len() + j,
    ensures
        choices_left(places, n, i) == 1,
    decreases places.len() - i,
{
    if i < places.len() {
        lemma_last(places, n, i + 1);
        assert(places[i] == n - places.len() + i);
        lemma_none_too_many(n - 1 - places[i], places.len() - i);
    }
}

proof fn lemma_highest(places: Seq<usize>, n: int, j: int)
    requires
        rising(places, n),
        0 <= j < places.len(),
    ensures
        places[j] <= n - places.len() + j,
    decreases places.len() - j,
{
    if j + 1 < places.len() {
        lemma_highest(places, n, j + 1);
        assert(places[j] < places[j + 1]);
    }
}

proof fn lemma_fixed(places: Seq<usize>, n: int, i: int)
    requires
        0 <= i <= places.len(),
    ensures
        forall|j: int|
            (match movable(places, n, i) {
                Some(p) => p < j < i,
                None => 0 <= j < i,
            }) ==> #[trigger] places[j] >= n - places.len() + j,
    decreases i,
{
    if i > 0 && !(places[i - 1] < n - places.len() + i - 1) {
        lemma_fixed(places, n, i - 1);
    }
}

proof fn lemma_prefix(a: Seq<usize>, c: Seq<usize>, n: int, i: int, p: int)
    requires
        a.len() == c.len(),
        0 <= i <= p < a.len(),
        forall|j: int| 0 <= j < p ==> #[trigger] a[j] == c[j],
        choices_left(a, n, p) == choices_left(c, n, p) + 1,
    ensures
        choices_left(a, n, i) == choices_left(c, n, i) + 1,
    decreases p - i,
{
    if i < p {
        lemma_prefix(a, c, n, i + 1, p);
        assert(a[i] == c[i]);
    }
}

/// Each step of the search leaves one choice less, down to the last.
proof fn lemma_step(places: Seq<usize>, n: int)
    requires
        rising(places, n),
        n <= usize::MAX,
    ensures
        match next_places(places, n) {
            Some(more) => choices_left(places, n, 0) == choices_left(more, n, 0) + 1,
            None => choices_left(places, n, 0) == 1,
        },
{
    let len = places.len() as int;
    lemma_movable(places, n, len);
    lemma_fixed(places, n, len);
    assert forall|j: int| 0 <= j < len implies #[trigger] places[j] <= n - len + j by {
        lemma_highest(places, n, j);
    }
    match next_places(places, n) {
        None => {
            lemma_last(places, n, 0);
        },
        Some(more) => {
            let p = movable(places, n, len)->Some_0;
            lemma_last(places, n, p + 1);
            let v = places[p] + 1;
            assert forall|j: int| p <= j < len implies #[trigger] more[j] == v + (j - p) by {
                assert(v + (j - p) < n);
            }
            lemma_first(more, n, p, v);
            assert(n - 1 - places[p] == n - v);
            assert forall|j: int| 0 <= j < p implies #[trigger] places[j] == more[j] by {}
            lemma_prefix(places, more, n, 0, p);
        },
    }
}

/// There is at least one choice left, and at most as many as there are from `s` on.
proof fn lemma_left_bounds(places: Seq<usize>, n: int, i: int, s: int)
    requires
        rising(places, n),
        0 <= i <= places.len(),
        0 <= s <= n,
        i < places.len() ==> s <= places[i],
    ensures
        1 <= choices_left(places, n, i) <= choices(n - s, places.len() - i),
    decreases places.len() - i,
{
    if i < places.len() {
        let v = places[i] as int;
        if i + 1 < places.len() {
            assert(places[i] < places[i + 1]);
        }
        lemma_left_bounds(places, n, i + 1, v + 1);
        lemma_choices_grow(n - v, n - s, places.len() - i);
        lemma_choices_grow(n - 1 - v, n - 1 - v, places.len() - i);
    }
}

/// No two choices leave equally many.
proof fn lemma_left_differs(a: Seq<usize>, c: Seq<usize>, n: int, i: int)
    requires
        rising(a, n),
        rising(c, n),
        a.len() == c.len(),
        0 <= i <= a.len(),
        choices_left(a, n, i) == choices_left(c, n, i),
    ensures
        forall|j: int| i <= j < a.len() ==> #[trigger] a[j] == c[j],
    decreases a.len() - i,
{
    if i < a.len() {
        if a[i] < c[i] {
            lemma_left_apart(a, c, n, i);
        } else if c[i] < a[i] {
            lemma_left_apart(c, a, n, i);
        }
        lemma_left_differs(a, c, n, i + 1);
    }
}

proof fn lemma_left_apart(a: Seq<usize>, c: Seq<usize>, n: int, i: int)
    requires
        rising(a, n),
        rising(c, n),
        a.len() == c.len(),
        0 <= i < a.len(),
        a[i] < c[i],
    ensures
        choices_left(c, n, i) < choices_left(a, n, i),
{
    lemma_left_bounds(c, n, i, c[i] as int);
    if i + 1 < a.len() {
        assert(a[i] < a[i + 1]);
    }
    lemma_left_bounds(a, n, i + 1, a[i] + 1);
    lemma_choices_grow(n - c[i], n - 1 - a[i], a.len() - i);
}

/// Whatever was found before, the cards at some places yield a play.
pub open spec fn bears(b: Board, places: Seq<usize>, play: Try) -> bool {
    forall|list: Seq<Try>| #[trigger] subset(list, b, places).contains(play)
}

/// The search goes on from what the places at hand yield.
proof fn lemma_goes_on(list: Seq<Try>, b: Board, places: Seq<usize>, used: int)
    requires
        board_ok(b),
        rising(places, b.hand.len() as int),
        used < MAX_COMBO_TRIES,
    ensures
        grown(subset(list, b, places), subsets_from(list, b, places, used), b),
{
    let n = b.hand.len() as int;
    let next = subset(list, b, places);
    lemma_next_places(places, n);
    lemma_same(next, b);
    match next_places(places, n) {
        Some(more) => lemma_subsets(next, b, more, used + 1),
        None => if places.len() + 1 <= n && places.len() + 1 <= MAX_PLAY {
            let more = first_places(places.len() + 1);
            assert(rising(more, n));
            lemma_subsets(next, b, more, used + 1);
        },
    }
}

/// The search comes to later places of the same number.
proof fn lemma_comes_to(
    list: Seq<Try>,
    b: Board,
    places: Seq<usize>,
    used: int,
    goal: Seq<usize>,
    play: Try,
)
    requires
        board_ok(b),
        rising(places, b.hand.len() as int),
        rising(goal, b.hand.len() as int),
        goal.len() == places.len(),
        choices_left(goal, b.hand.len() as int, 0) <= choices_left(places, b.hand.len() as int, 0),
        used + choices_left(places, b.hand.len() as int, 0) - choices_left(
            goal,
            b.hand.len() as int,
            0,
        ) < MAX_COMBO_TRIES,
        bears(b, goal, play),
    ensures
        subsets_from(list, b, places, used).contains(play),
    decreases choices_left(places, b.hand.len() as int, 0),
{
    let n = b.hand.len() as int;
    lemma_left_bounds(goal, n, 0, 0);
    if choices_left(goal, n, 0) == choices_left(places, n, 0) {
        lemma_left_differs(goal, places, n, 0);
        assert(goal =~= places);
        lemma_goes_on(list, b, places, used);
        lemma_kept(subset(list, b, places), subsets_from(list, b, places, used), b, play);
    } else {
        lemma_step(places, n);
        lemma_next_places(places, n);
        let more = next_places(places, n)->Some_0;
        lemma_comes_to(subset(list, b, places), b, more, used + 1, goal, play);
    }
}

/// The search comes to the next number of places once it has been through all of one number.
proof fn lemma_comes_through(list: Seq<Try>, b: Board, places: Seq<usize>, used: int) -> (after:
    Seq<Try>)
    requires
        board_ok(b),
        rising(places, b.hand.len() as int),
        places.len() + 1 <= b.hand.len(),
        places.len() + 1 <= MAX_PLAY,
        used + choices_left(places, b.hand.len() as int, 0) <= MAX_COMBO_TRIES,
    ensures
        subsets_from(list, b, places, used) == subsets_from(
            after,
            b,
            first_places(places.len() + 1),
            used + choices_left(places, b.hand.len() as int, 0),
        ),
    decreases choices_left(places, b.hand.len() as int, 0),
{
    let n = b.hand.len() as int;
    let next = subset(list, b, places);
    lemma_left_bounds(places, n, 0, 0);
    lemma_step(places, n);
    lemma_next_places(places, n);
    match next_places(places, n) {
        Some(more) => lemma_comes_through(next, b, more, used + 1),
        None => next,
    }
}

proof fn lemma_between(n: int, from: int, to: int)
    requires
        from <= to,
    ensures
        choices_between(n, from, to) == choices(n, from) + choices_between(n, from + 1, to),
    decreases to - from,
{
    if from < to {
        lemma_between(n, from, to - 1);
    } else {
        assert(choices_between(n, from, to - 1) == 0);
        assert(choices_between(n, from + 1, to) == 0);
    }
}

proof fn lemma_between_grows(a: int, n: int, from: int, to: int)
    requires
        a <= n,
    ensures
        0 <= choices_between(a, from, to) <= choices_between(n, from, to),
    decreases to - from + 1,
{
    if from <= to {
        lemma_between_grows(a, n, from, to - 1);
        lemma_choices_grow(a, n, to);
    }
}

proof fn lemma_comes_up(
    list: Seq<Try>,
    b: Board,
    k: nat,
    used: int,
    goal: Seq<usize>,
    play: Try,
)
    requires
        board_ok(b),
        1 <= k <= goal.len() <= MAX_PLAY,
        rising(goal, b.hand.len() as int),
        used + choices_between(b.hand.len() as int, k as int, goal.len() as int) - choices_left(
            goal,
            b.hand.len() as int,
            0,
        ) < MAX_COMBO_TRIES,
        bears(b, goal, play),
    ensures
        subsets_from(list, b, first_places(k), used).contains(play),
    decreases goal.len() - k,
{
    let n = b.hand.len() as int;
    let first = first_places(k);
    lemma_highest(goal, n, 0);
    assert(goal.len() <= n);
    assert(rising(first, n));
    lemma_first(first, n, 0, 0);
    lemma_between(n, k as int, goal.len() as int);
    lemma_left_bounds(goal, n, 0, 0);
    if k == goal.len() {
        assert(choices_between(n, k as int + 1, k as int) == 0);
        lemma_comes_to(list, b, first, used, goal, play);
    } else {
        lemma_between_grows(n, n, k as int + 1, goal.len() - 1);
        assert(choices_between(n, k as int + 1, goal.len() as int) == choices_between(
            n,
            k as int + 1,
            goal.len() - 1,
        ) + choices(n, goal.len() as int));
        let after = lemma_comes_through(list, b, first, used);
        lemma_comes_up(after, b, k + 1, used + choices(n, k as int), goal, play);
    }
}

/// A play says what its wild cards stand for: there are none, or one that stands for a card.
pub open spec fn spelled(play: Try, ctx: RuleContext) -> bool {
    match play.targets {
        None => wilds(play.cards, ctx) == 0,
        Some(list) => wilds(play.cards, ctx) == 1 && list.len() == 1 && card_ok(list[0])
            && list[0].suit != Suit::Joker,
    }
}

proof fn lemma_rank_in_pool(value: int, ctx: RuleContext, card: Card)
    requires
        2 <= natural(card.rank) <= value <= 14,
        card_ok(card),
        card.suit != Suit::Joker,
        card.rank != level_rank(ctx.hand_level),
    ensures
        ranks_down(value, ctx).contains(card),
    decreases value,
{
    let tail = ranks_down(value - 1, ctx);
    let four = four_of(rank_at(value));
    lemma_rank_at(card.rank);
    if natural(card.rank) == value {
        assert(four[0] == card || four[1] == card || four[2] == card || four[3] == card);
        let i: int = if four[0] == card {
            0
        } else if four[1] == card {
            1
        } else if four[2] == card {
            2
        } else {
            3
        };
        assert((four + tail)[i] == card);
    } else {
        lemma_rank_in_pool(value - 1, ctx, card);
        let i = tail.index_of(card);
        if rank_at(value) != level_rank(ctx.hand_level) {
            assert((four + tail)[4 + i] == card);
        }
    }
}

/// Every card but the jokers is tried for a wild card.
pub(crate) proof fn lemma_in_pool(hand: Seq<Symbol>, ctx: RuleContext, card: Card)
    requires
        card_ok(card),
        card.suit != Suit::Joker,
    ensures
        wild_pool(hand, ctx).contains(card),
{
    let pool = wild_pool(hand, ctx);
    let four = four_of(level_rank(ctx.hand_level));
    if card.rank == level_rank(ctx.hand_level) {
        let i: int = if four[0] == card {
            0
        } else if four[1] == card {
            1
        } else if four[2] == card {
            2
        } else {
            3
        };
        assert(pool[i] == four[i]);
    } else {
        lemma_rank_at(card.rank);
        lemma_rank_in_pool(14, ctx, card);
        let tail = ranks_down(14, ctx);
        let i = tail.index_of(card);
        assert(pool[pool.len() - tail.len() + i] == tail[i]);
    }
}

pub(crate) proof fn lemma_target_tried(list: Seq<Try>, b: Board, cards: Seq<Card>, i: int, at: int)
    requires
        held(cards, b.hand),
        0 <= i <= at < wild_pool(b.hand, b.ctx).len(),
        legal(Try { cards, targets: Some(seq![wild_pool(b.hand, b.ctx)[at]]) }, b.ctx, b.top),
    ensures
        with_wilds(list, b, cards, 1, i).contains(
            Try { cards, targets: Some(seq![wild_pool(b.hand, b.ctx)[at]]) },
        ),
    decreases at - i,
{
    let pool = wild_pool(b.hand, b.ctx);
    let play = Try { cards, targets: Some(seq![pool[at]]) };
    let next = b.keep(list, cards, Some(product(pool, 1, i)));
    if i == at {
        assert(i % (pool.len() as int) == i) by (nonlinear_arith)
            requires
                0 <= i < pool.len(),
        ;
        assert(product(pool, 1, i) =~= seq![pool[at]]);
        lemma_keep(list, b, cards, Some(product(pool, 1, i)));
        lemma_with_wilds(next, b, cards, 1, i + 1);
        lemma_kept(next, with_wilds(next, b, cards, 1, i + 1), b, play);
    } else {
        lemma_target_tried(next, b, cards, i + 1, at);
    }
}

/// Every legal play of three to ten cards is found, in the order of the hand and with at most
/// one wild card, unless too many subsets come before it.
pub proof fn subsets_are_tried(b: Board, places: Seq<usize>, play: Try)
    requires
        board_ok(b),
        3 <= places.len() <= MAX_PLAY,
        rising(places, b.hand.len() as int),
        chosen(b.hand, places) == Some(play.cards),
        spelled(play, b.ctx),
        legal(play, b.ctx, b.top),
        tries_before(places, b.hand.len() as int) < MAX_COMBO_TRIES,
    ensures
        plays(b).contains(play),
{
    let n = b.hand.len() as int;
    let cards = play.cards;
    assert forall|i: int| 0 <= i < places.len() implies (#[trigger] places[i]) < b.hand.len()
        && b.hand[places[i] as int] == Symbol::Known(cards[i]) by {
        assert(b.hand[places[i] as int] is Known);
    }
    lemma_places_held(b.hand, places, cards);
    assert forall|list: Seq<Try>| #[trigger] subset(list, b, places).contains(play) by {
        match play.targets {
            None => lemma_keep(list, b, cards, None),
            Some(targets) => {
                lemma_in_pool(b.hand, b.ctx, targets[0]);
                let at = wild_pool(b.hand, b.ctx).index_of(targets[0]);
                assert(targets =~= seq![wild_pool(b.hand, b.ctx)[at]]);
                lemma_target_tried(list, b, cards, 0, at);
            },
        }
    }
    lemma_highest(places, n, 0);
    lemma_comes_up(structures(paired_plays(b), b), b, 3, 0, places, play);
}

/// One thing more is chosen in each of the remaining ways, and each choice comes about so often.
proof fn lemma_ratio(n: int, k: int)
    requires
        0 <= n,
        1 <= k,
    ensures
        k * choices(n, k) == (n - k + 1) * choices(n, k - 1),
    decreases n,
{
    if n == 0 {
        if k == 1 {
            assert(choices(0, 1) == 0 && choices(0, 0) == 1);
        } else {
            lemma_none_too_many(0, k);
            lemma_none_too_many(0, k - 1);
        }
        assert(k * choices(n, k) == 0) by (nonlinear_arith)
            requires
                choices(n, k) == 0,
        ;
        assert((n - k + 1) * choices(n, k - 1) == 0) by (nonlinear_arith)
            requires
                n - k + 1 == 0 || choices(n, k - 1) == 0,
        ;
    } else {
        lemma_ratio(n - 1, k);
        let x = choices(n - 1, k - 1);
        let y = choices(n - 1, k);
        assert(k * (x + y) == k * x + k * y) by (nonlinear_arith);
        assert(k * x + (n - k) * x == n * x) by (nonlinear_arith);
        if k == 1 {
            assert(x == 1 && choices(n, 0) == 1);
        } else {
            lemma_ratio(n - 1, k - 1);
            let w = choices(n - 1, k - 2);
            assert(choices(n, k - 1) == w + x);
            assert((n - k + 1) * (w + x) == (n - k + 1) * w + (n - k + 1) * x) by (nonlinear_arith);
            assert((k - 1) * x + (n - k + 1) * x == n * x) by (nonlinear_arith);
        }
    }
}

proof fn lemma_one_more(n: int, k: int, less: int, more: int)
    requires
        0 <= n,
        1 <= k,
        choices(n, k - 1) == less,
        k * more == (n - k + 1) * less,
    ensures
        choices(n, k) == more,
{
    lemma_ratio(n, k);
    let x = choices(n, k);
    assert(x == more) by (nonlinear_arith)
        requires
            k * x == k * more,
            1 <= k,
    ;
}

/// How many subsets of three to five cards a full hand has, and of three to ten a hand of
/// eighteen cards.
proof fn lemma_budget()
    ensures
        choices_between(27, 3, 5) == 101_205,
        choices_between(18, 3, 10) == 198_968,
{
    assert(choices(27, 0) == 1 && choices(18, 0) == 1);
    lemma_one_more(27, 1, 1, 27);
    lemma_one_more(27, 2, 27, 351);
    lemma_one_more(27, 3, 351, 2925);
    lemma_one_more(27, 4, 2925, 17550);
    lemma_one_more(27, 5, 17550, 80730);
    lemma_one_more(18, 1, 1, 18);
    lemma_one_more(18, 2, 18, 153);
    lemma_one_more(18, 3, 153, 816);
    lemma_one_more(18, 4, 816, 3060);
    lemma_one_more(18, 5, 3060, 8568);
    lemma_one_more(18, 6, 8568, 18564);
    lemma_one_more(18, 7, 18564, 31824);
    lemma_one_more(18, 8, 31824, 43758);
    lemma_one_more(18, 9, 43758, 48620);
    lemma_one_more(18, 10, 48620, 43758);
    assert(choices_between(27, 3, 2) == 0 && choices_between(18, 3, 2) == 0);
    assert(choices_between(27, 3, 3) == 2925);
    assert(choices_between(27, 3, 4) == 20475);
    assert(choices_between(27, 3, 5) == 101205);
    assert(choices_between(18, 3, 3) == 816);
    assert(choices_between(18, 3, 4) == 3876);
    assert(choices_between(18, 3, 5) == 12444);
    assert(choices_between(18, 3, 6) == 31008);
    assert(choices_between(18, 3, 7) == 62832);
    assert(choices_between(18, 3, 8) == 106590);
    assert(choices_between(18, 3, 9) == 155210);
    assert(choices_between(18, 3, 10) == 198968);
}

/// More numbers of things can be chosen in more ways.
proof fn lemma_between_wider(n: int, from: int, a: int, to: int)
    requires
        a <= to,
    ensures
        choices_between(n, from, a) <= choices_between(n, from, to),
    decreases to - a,
{
    if a < to {
        lemma_between_wider(n, from, a, to - 1);
        lemma_choices_grow(n, n, to);
        if from > to {
            assert(choices_between(n, from, to) == 0 && choices_between(n, from, a) == 0);
        }
    }
}

/// Every legal play of three to five cards is found in any hand, and every one of up to ten in
/// a hand of up to eighteen cards, in the order of the hand and with at most one wild card.
pub proof fn legal_plays_are_found(b: Board, places: Seq<usize>, play: Try)
    requires
        board_ok(b),
        b.hand.len() <= 27,
        3 <= places.len() <= MAX_PLAY,
        places.len() <= 5 || b.hand.len() <= 18,
        rising(places, b.hand.len() as int),
        chosen(b.hand, places) == Some(play.cards),
        spelled(play, b.ctx),
        legal(play, b.ctx, b.top),
    ensures
        plays(b).contains(play),
{
    let n = b.hand.len() as int;
    let k = places.len() as int;
    lemma_budget();
    lemma_left_bounds(places, n, 0, 0);
    if k <= 5 {
        lemma_between_grows(n, 27, 3, k);
        lemma_between_wider(27, 3, k, 5);
    } else {
        lemma_between_grows(n, 18, 3, k);
        lemma_between_wider(18, 3, k, 10);
    }
    subsets_are_tried(b, places, play);
}

} // verus!
