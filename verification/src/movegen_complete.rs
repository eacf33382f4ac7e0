//! Every legal play of a hand is listed, up to the order of its cards.

use vstd::prelude::*;
use crate::cards::{
    Card, Rank, RuleContext, Suit, Symbol, card_ok, is_joker_rank, natural, symbols_named, wild,
};
use crate::combination_parser::{
    Combination, combination_shown, combination_sought, count_rank, deck_card, has_pair,
    lemma_rank_at, of_rank, one_rank, one_suit, rank_at, run_to, run_top, triple_top,
};
use crate::hand_view::{lemma_named_hand_ok, lemma_plain_cards, plain_at, plain_cards, plain_count};
use crate::leftovers::same_card;
use crate::movegen::{
    Board, action_of, all_wild, chosen, is_symbol, joker_pairs, pair_of, playing_actions, plays,
    singles_from, wild_pair, wild_pairs_from, wild_pool, with_wilds,
};
use crate::movegen_laws::{
    board_ok, held, joker_pairs_are_found, lemma_kept, lemma_one_held, lemma_pair_held,
    lemma_singles, lemma_stages, lemma_wild_pairs, paired_plays, plain_pairs_are_found, rising,
    single_cards_are_found, small_plays,
};
use crate::movegen_search::{legal_plays_are_found, lemma_in_pool, lemma_target_tried, spelled};
use crate::play_set::{Try, cards_ok, legal};
use crate::tally::{
    lemma_tally_order, lemma_tally_positive, lemma_tally_remove, lemma_tally_step, tally,
};
use crate::wildcard_resolver::{fits, substituted, wild_in, wilds};

verus! {

/// The places in a hand of the cards of a play, from the first to the last.
proof fn lemma_places(hand: Seq<Symbol>, cards: Seq<Card>) -> (places: Seq<usize>)
    requires
        held(cards, hand),
        hand.len() <= usize::MAX,
    ensures
        rising(places, hand.len() as int),
        places.len() == cards.len(),
        chosen(hand, places) is Some,
        chosen(hand, places)->Some_0.to_multiset() == cards.to_multiset(),
    decreases hand.len(),
{
    broadcast use vstd::seq_lib::group_to_multiset_ensures;

    if hand.len() == 0 {
        if cards.len() > 0 {
            let card = cards.last();
            assert(same_card(card)(cards[cards.len() - 1]));
            lemma_tally_positive(cards, same_card(card));
            assert(tally(cards, same_card(card)) <= tally(hand, is_symbol(card)));
        }
        let none = Seq::<usize>::empty();
        assert(chosen(hand, none)->Some_0 =~= cards);
        none
    } else {
        let front = hand.drop_last();
        let last = hand.last();
        if last is Known && cards.contains(last->Known_0) {
            let card = last->Known_0;
            let j = cards.index_of(card);
            let rest = cards.remove(j);
            assert forall|c: Card| #[trigger] tally(rest, same_card(c)) <= tally(
                front,
                is_symbol(c),
            ) by {
                lemma_tally_remove(cards, same_card(c), j);
                assert(tally(cards, same_card(c)) <= tally(hand, is_symbol(c)));
            }
            let before = lemma_places(front, rest);
            let places = before.push((hand.len() - 1) as usize);
            assert forall|i: int| 0 <= i < places.len() implies hand[#[trigger] places[i] as int] is Known by {
                if i < before.len() {
                    assert(front[before[i] as int] is Known);
                }
            }
            let picked = chosen(front, before)->Some_0;
            assert(chosen(hand, places)->Some_0 =~= picked.push(card));
            assert(rest.to_multiset() == cards.to_multiset().remove(card));
            assert(cards.to_multiset().count(card) > 0);
            assert(cards.to_multiset().remove(card).insert(card) =~= cards.to_multiset());
            places
        } else {
            assert forall|c: Card| #[trigger] tally(cards, same_card(c)) <= tally(
                front,
                is_symbol(c),
            ) by {
                assert(tally(cards, same_card(c)) <= tally(hand, is_symbol(c)));
                if last == Symbol::Known(c) {
                    lemma_tally_positive(cards, same_card(c));
                    assert(forall|i: int| 0 <= i < cards.len() ==> #[trigger] cards[i] != c);
                }
            }
            let places = lemma_places(front, cards);
            assert forall|i: int| 0 <= i < places.len() implies hand[#[trigger] places[i] as int] is Known by {
                assert(front[places[i] as int] is Known);
            }
            assert(chosen(hand, places)->Some_0 =~= chosen(front, places)->Some_0);
            places
        }
    }
}

proof fn lemma_members(a: Seq<Card>, c: Seq<Card>)
    requires
        a.to_multiset() == c.to_multiset(),
    ensures
        a.len() == c.len(),
        forall|i: int| 0 <= i < c.len() ==> a.contains(#[trigger] c[i]),
{
    broadcast use vstd::seq_lib::group_to_multiset_ensures;

    assert(a.len() == a.to_multiset().len());
    assert(c.len() == c.to_multiset().len());
    assert forall|i: int| 0 <= i < c.len() implies a.contains(#[trigger] c[i]) by {
        assert(c.contains(c[i]));
        assert(c.to_multiset().count(c[i]) > 0);
        assert(a.to_multiset().count(c[i]) > 0);
    }
}

proof fn lemma_alike(a: Seq<Card>, c: Seq<Card>)
    requires
        a.to_multiset() == c.to_multiset(),
        a.len() > 0,
    ensures
        one_rank(a) ==> one_rank(c) && c[0].rank == a[0].rank,
        one_suit(a) ==> one_suit(c),
{
    lemma_members(a, c);
    assert(a.contains(c[0]));
    let k = a.index_of(c[0]);
    if one_rank(a) {
        assert(a[k].rank == a[0].rank);
        assert forall|i: int| 0 <= i < c.len() implies (#[trigger] c[i]).rank == c[0].rank by {
            assert(a.contains(c[i]));
            let m = a.index_of(c[i]);
            assert(a[m].rank == a[0].rank);
        }
    }
    if one_suit(a) {
        assert(a[k].suit == a[0].suit);
        assert forall|i: int| 0 <= i < c.len() implies (#[trigger] c[i]).suit == c[0].suit by {
            assert(a.contains(c[i]));
            let m = a.index_of(c[i]);
            assert(a[m].suit == a[0].suit);
        }
    }
}

proof fn lemma_runs(a: Seq<Card>, c: Seq<Card>, top: int, k: int, m: nat)
    requires
        forall|r: Rank| #[trigger] count_rank(a, r) == count_rank(c, r),
    ensures
        run_top(a, top, k, m) == run_top(c, top, k, m),
    decreases top,
{
    if k >= 1 && top >= k {
        assert(run_to(a, top, k, m) == run_to(c, top, k, m)) by {
            assert(forall|v: int| count_rank(a, #[trigger] rank_at(v)) == count_rank(c, rank_at(v)));
        }
        lemma_runs(a, c, top - 1, k, m);
    }
}

proof fn lemma_triples(a: Seq<Card>, c: Seq<Card>, top: int)
    requires
        forall|r: Rank| #[trigger] count_rank(a, r) == count_rank(c, r),
    ensures
        triple_top(a, top) == triple_top(c, top),
    decreases top,
{
    if top >= 2 {
        assert(count_rank(a, rank_at(top)) == count_rank(c, rank_at(top)));
        lemma_triples(a, c, top - 1);
    }
}

/// What cards amount to does not depend on their order.
pub proof fn order_of_cards_is_free(a: Seq<Card>, c: Seq<Card>, ctx: RuleContext)
    requires
        a.to_multiset() == c.to_multiset(),
    ensures
        combination_shown(a, ctx) == combination_shown(c, ctx),
{
    lemma_members(a, c);
    if a.len() > 0 {
        lemma_alike(a, c);
        lemma_alike(c, a);
        assert forall|r: Rank| #[trigger] count_rank(a, r) == count_rank(c, r) by {
            lemma_tally_order(a, c, of_rank(r));
        }
        lemma_runs(a, c, 14, 5, 1);
        lemma_runs(a, c, 14, 3, 2);
        lemma_runs(a, c, 14, 2, 3);
        lemma_triples(a, c, 14);
        if has_pair(a) {
            let r = choose|r: Rank| #[trigger] count_rank(a, r) == 2;
            assert(count_rank(c, r) == 2);
        }
        if has_pair(c) {
            let r = choose|r: Rank| #[trigger] count_rank(c, r) == 2;
            assert(count_rank(a, r) == 2);
        }
        if a.len() == 1 {
            assert(a.contains(c[0]));
        }
    }
}

/// Where the only wild card of some cards lies.
proof fn lemma_one_wild(cards: Seq<Card>, ctx: RuleContext) -> (pos: int)
    requires
        wilds(cards, ctx) == 1,
    ensures
        0 <= pos < cards.len(),
        wild(cards[pos], ctx),
        forall|i: int| 0 <= i < cards.len() && i != pos ==> !wild(#[trigger] cards[i], ctx),
        forall|t: Card| substituted(cards, #[trigger] seq![t], ctx) == cards.update(pos, t),
{
    lemma_tally_positive(cards, wild_in(ctx));
    let pos = choose|i: int| 0 <= i < cards.len() && wild_in(ctx)(#[trigger] cards[i]);
    lemma_tally_remove(cards, wild_in(ctx), pos);
    let rest = cards.remove(pos);
    lemma_tally_positive(rest, wild_in(ctx));
    assert forall|i: int| 0 <= i < cards.len() && i != pos implies !wild(
        #[trigger] cards[i],
        ctx,
    ) by {
        let j = if i < pos {
            i
        } else {
            i - 1
        };
        assert(rest[j] == cards[i]);
        assert(!wild_in(ctx)(rest[j]));
    }
    let before = cards.take(pos);
    lemma_tally_positive(before, wild_in(ctx));
    assert(wilds(before, ctx) == 0) by {
        assert forall|i: int| 0 <= i < before.len() implies !wild_in(ctx)(#[trigger] before[i]) by {
            assert(before[i] == cards[i]);
        }
    }
    assert forall|t: Card| substituted(cards, #[trigger] seq![t], ctx) == cards.update(pos, t) by {
        assert(substituted(cards, seq![t], ctx) =~= cards.update(pos, t));
    }
    pos
}

proof fn lemma_no_wilds(cards: Seq<Card>, ctx: RuleContext)
    requires
        wilds(cards, ctx) == 0,
    ensures
        forall|i: int| 0 <= i < cards.len() ==> !wild(#[trigger] cards[i], ctx),
{
    lemma_tally_positive(cards, wild_in(ctx));
    assert forall|i: int| 0 <= i < cards.len() implies !wild(#[trigger] cards[i], ctx) by {
        assert(!wild_in(ctx)(cards[i]));
    }
}

/// Behind the last wild card, cards count for what they show.
proof fn lemma_tail_sought(cards: Seq<Card>, ctx: RuleContext, pos: int)
    requires
        0 <= pos <= cards.len(),
        forall|i: int| pos <= i < cards.len() ==> !wild(#[trigger] cards[i], ctx),
    ensures
        combination_sought(cards, ctx, pos, 0) == combination_shown(cards, ctx),
    decreases cards.len() - pos,
{
    if pos < cards.len() {
        lemma_tail_sought(cards, ctx, pos + 1);
    }
}

/// Before the first wild card, nothing is sought.
proof fn lemma_head_sought(cards: Seq<Card>, ctx: RuleContext, from: int, pos: int)
    requires
        0 <= from <= pos < cards.len(),
        forall|i: int| from <= i < pos ==> !wild(#[trigger] cards[i], ctx),
    ensures
        combination_sought(cards, ctx, from, 0) == combination_sought(cards, ctx, pos, 0),
    decreases pos - from,
{
    if from < pos {
        lemma_head_sought(cards, ctx, from + 1, pos);
    }
}

/// What the only wild card stands for where a combination is found.
proof fn lemma_target_sought(cards: Seq<Card>, ctx: RuleContext, pos: int, t: int) -> (k: int)
    requires
        0 <= pos < cards.len(),
        0 <= t,
        wild(cards[pos], ctx),
        forall|i: int| pos < i < cards.len() ==> !wild(#[trigger] cards[i], ctx),
        combination_sought(cards, ctx, pos, t) is Some,
    ensures
        0 <= k < 52,
        combination_shown(cards.update(pos, deck_card(k)), ctx) == combination_sought(
            cards,
            ctx,
            pos,
            t,
        ),
    decreases 52 - t,
{
    assert(t < 52);
    let shown = cards.update(pos, deck_card(t));
    assert forall|i: int| pos + 1 <= i < shown.len() implies !wild(#[trigger] shown[i], ctx) by {
        assert(shown[i] == cards[i]);
    }
    lemma_tail_sought(shown, ctx, pos + 1);
    if combination_sought(shown, ctx, pos + 1, 0) is Some {
        t
    } else {
        lemma_target_sought(cards, ctx, pos, t + 1)
    }
}

/// A legal play with at most one wild card stays legal in any other order of its cards, and
/// the wild card may be spelled out.
pub proof fn legal_in_any_order(
    play: Try,
    cards: Seq<Card>,
    ctx: RuleContext,
    top: Option<Combination>,
) -> (other: Try)
    requires
        legal(play, ctx, top),
        wilds(play.cards, ctx) <= 1,
        play.targets matches Some(list) ==> cards_ok(list),
        cards.to_multiset() == play.cards.to_multiset(),
    ensures
        other.cards == cards,
        legal(other, ctx, top),
        spelled(other, ctx),
        1 <= cards.len() <= 10,
{
    broadcast use vstd::seq_lib::group_to_multiset_ensures;

    lemma_tally_order(cards, play.cards, wild_in(ctx));
    if wilds(cards, ctx) == 0 {
        lemma_no_wilds(cards, ctx);
        lemma_no_wilds(play.cards, ctx);
        order_of_cards_is_free(cards, play.cards, ctx);
        lemma_tail_sought(cards, ctx, 0);
        lemma_tail_sought(play.cards, ctx, 0);
        if let Some(list) = play.targets {
            assert(substituted(play.cards, list, ctx) =~= play.cards);
        }
        Try { cards, targets: None }
    } else {
        let p = lemma_one_wild(play.cards, ctx);
        let q = lemma_one_wild(cards, ctx);
        let target = match play.targets {
            Some(list) => list[0],
            None => {
                lemma_head_sought(play.cards, ctx, 0, p);
                let k = lemma_target_sought(play.cards, ctx, p, 0);
                deck_card(k)
            },
        };
        if let Some(list) = play.targets {
            assert(list =~= seq![target]);
        }
        let there = play.cards.update(p, target);
        let here = cards.update(q, target);
        assert(play.cards[p] == cards[q]);
        vstd::seq_lib::to_multiset_update(play.cards, p, target);
        vstd::seq_lib::to_multiset_update(cards, q, target);
        order_of_cards_is_free(there, here, ctx);
        let other = Try { cards, targets: Some(seq![target]) };
        assert(substituted(cards, seq![target], ctx) == here);
        assert(fits(cards, seq![target], ctx));
        other
    }
}

/// A wild card alone is tried as every card, from a hand of wild cards.
proof fn lemma_finds_wild_single(list: Seq<Try>, b: Board, from: int, i: int, card: Card, t: Card)
    requires
        board_ok(b),
        0 <= from <= i < b.hand.len(),
        b.hand[i] == Symbol::Known(card),
        wild(card, b.ctx),
        all_wild(b.hand, b.ctx),
        card_ok(t),
        t.suit != Suit::Joker,
        legal(Try { cards: seq![card], targets: Some(seq![t]) }, b.ctx, b.top),
    ensures
        singles_from(list, b, from).contains(Try { cards: seq![card], targets: Some(seq![t]) }),
    decreases b.hand.len() - from,
{
    let next = match b.hand[from] {
        Symbol::Known(card) => if wild(card, b.ctx) {
            if all_wild(b.hand, b.ctx) {
                with_wilds(list, b, seq![card], 1, 0)
            } else {
                list
            }
        } else {
            b.keep(list, seq![card], None)
        },
        _ => list,
    };
    if from == i {
        lemma_one_held(b, i, card);
        lemma_in_pool(b.hand, b.ctx, t);
        lemma_target_tried(list, b, seq![card], 0, wild_pool(b.hand, b.ctx).index_of(t));
        lemma_singles(next, b, from + 1);
        lemma_kept(
            next,
            singles_from(next, b, from + 1),
            b,
            Try { cards: seq![card], targets: Some(seq![t]) },
        );
    } else {
        lemma_finds_wild_single(next, b, from + 1, i, card, t);
    }
}

/// A wild card is tried with every other card.
proof fn lemma_finds_wild_pair(
    list: Seq<Try>,
    b: Board,
    i: int,
    j: int,
    p: int,
    q: int,
    play: Try,
    t: Card,
)
    requires
        board_ok(b),
        0 <= i < j <= b.hand.len(),
        0 <= p < q < b.hand.len(),
        i < p || (i == p && j <= q),
        b.hand[p] is Known,
        b.hand[q] is Known,
        play.cards == pair_of(b.hand[p]->Known_0, b.hand[q]->Known_0),
        play.targets == Some(seq![t]),
        wilds(play.cards, b.ctx) == 1,
        card_ok(t),
        t.suit != Suit::Joker,
        legal(play, b.ctx, b.top),
    ensures
        wild_pairs_from(list, b, i, j).contains(play),
    decreases b.hand.len() - i, b.hand.len() - j,
{
    if j >= b.hand.len() {
        lemma_finds_wild_pair(list, b, i + 1, i + 2, p, q, play, t);
    } else {
        let next = wild_pair(list, b, i, j);
        if i == p && j == q {
            lemma_pair_held(b, i, j, b.hand[p]->Known_0, b.hand[q]->Known_0);
            lemma_in_pool(b.hand, b.ctx, t);
            lemma_target_tried(list, b, play.cards, 0, wild_pool(b.hand, b.ctx).index_of(t));
            lemma_wild_pairs(next, b, i, j + 1);
            lemma_kept(next, wild_pairs_from(next, b, i, j + 1), b, play);
        } else {
            lemma_finds_wild_pair(next, b, i, j + 1, p, q, play, t);
        }
    }
}

/// A plain card stands among those of its value behind as many as come before it in the hand.
proof fn lemma_plain_place(hand: Seq<Symbol>, ctx: RuleContext, value: int, i: int)
    requires
        0 <= i < hand.len(),
        plain_at(ctx, value)(hand[i]),
    ensures
        plain_count(hand.take(i), ctx, value) < plain_cards(hand, ctx, value).len(),
        plain_cards(hand, ctx, value)[plain_count(hand.take(i), ctx, value) as int]
            == hand[i]->Known_0,
    decreases hand.len(),
{
    let front = hand.drop_last();
    lemma_plain_cards(front, ctx, value);
    if i == hand.len() - 1 {
        assert(hand.take(i) =~= front);
    } else {
        lemma_plain_place(front, ctx, value, i);
        assert(front.take(i) =~= hand.take(i));
    }
}

proof fn lemma_plain_rises(hand: Seq<Symbol>, ctx: RuleContext, value: int, i: int, j: int)
    requires
        0 <= i < j <= hand.len(),
        plain_at(ctx, value)(hand[i]),
    ensures
        plain_count(hand.take(i), ctx, value) < plain_count(hand.take(j), ctx, value),
    decreases j - i,
{
    lemma_tally_step(hand, plain_at(ctx, value), j - 1);
    if i < j - 1 {
        lemma_plain_rises(hand, ctx, value, i, j - 1);
    }
}

/// Two cards in either order.
proof fn lemma_swapped(x: Card, y: Card)
    ensures
        pair_of(x, y).to_multiset() == seq![x, y].to_multiset(),
{
    broadcast use vstd::seq_lib::group_to_multiset_ensures;

    let none = Seq::<Card>::empty();
    assert(seq![x, y] =~= none.push(x).push(y));
    assert(seq![y, x] =~= none.push(y).push(x));
    assert(none.push(x).push(y).to_multiset() =~= none.push(y).push(x).to_multiset());
}

proof fn lemma_one_listed(b: Board, i: int, play: Try)
    requires
        board_ok(b),
        0 <= i < b.hand.len(),
        b.hand[i] is Known,
        play.cards == seq![b.hand[i]->Known_0],
        spelled(play, b.ctx),
        legal(play, b.ctx, b.top),
        wilds(play.cards, b.ctx) == 1 ==> all_wild(b.hand, b.ctx),
    ensures
        plays(b).contains(play),
{
    let card = b.hand[i]->Known_0;
    assert(play.cards[0] == card);
    if wilds(play.cards, b.ctx) == 0 {
        lemma_no_wilds(play.cards, b.ctx);
        lemma_tail_sought(play.cards, b.ctx, 0);
        assert(!wild(play.cards[0], b.ctx));
        single_cards_are_found(b, i, card);
    } else {
        let p = lemma_one_wild(play.cards, b.ctx);
        let t = play.targets->Some_0[0];
        assert(play.targets->Some_0 =~= seq![t]);
        lemma_finds_wild_single(Seq::empty(), b, 0, i, card, t);
        lemma_stages(b);
        lemma_kept(singles_from(Seq::empty(), b, 0), plays(b), b, play);
    }
}

proof fn lemma_two_listed(b: Board, i: int, j: int, play: Try)
    requires
        board_ok(b),
        0 <= i < j < b.hand.len(),
        b.hand[i] is Known,
        b.hand[j] is Known,
        play.cards == pair_of(b.hand[i]->Known_0, b.hand[j]->Known_0),
        spelled(play, b.ctx),
        legal(play, b.ctx, b.top),
    ensures
        plays(b).contains(play),
{
    let x = b.hand[i]->Known_0;
    let y = b.hand[j]->Known_0;
    let cards = play.cards;
    assert(card_ok(x) && card_ok(y));
    if wilds(cards, b.ctx) == 0 {
        lemma_no_wilds(cards, b.ctx);
        lemma_tail_sought(cards, b.ctx, 0);
        assert(!wild(cards[0], b.ctx) && !wild(cards[1], b.ctx));
        assert(one_rank(cards));
        assert(cards[1].rank == cards[0].rank);
        assert(x.rank == y.rank);
        if is_joker_rank(x.rank) {
            assert(x == y);
            lemma_pair_held(b, i, j, x, y);
            assert(tally(cards, same_card(x)) <= tally(b.hand, is_symbol(x)));
            reveal_with_fuel(tally, 3);
            assert(cards.drop_last() =~= seq![x]);
            assert(tally(cards, same_card(x)) == 2);
            joker_pairs_are_found(b, x);
            assert(cards =~= seq![x, x]);
        } else {
            let value = natural(x.rank);
            lemma_rank_at(x.rank);
            assert(plain_at(b.ctx, value)(b.hand[i]) && plain_at(b.ctx, value)(b.hand[j]));
            lemma_plain_place(b.hand, b.ctx, value, i);
            lemma_plain_place(b.hand, b.ctx, value, j);
            lemma_plain_rises(b.hand, b.ctx, value, i, j);
            plain_pairs_are_found(
                b,
                value,
                plain_count(b.hand.take(i), b.ctx, value) as int,
                plain_count(b.hand.take(j), b.ctx, value) as int,
            );
        }
    } else {
        let t = play.targets->Some_0[0];
        assert(play.targets->Some_0 =~= seq![t]);
        lemma_finds_wild_pair(joker_pairs(small_plays(b), b), b, 0, 1, i, j, play, t);
        lemma_stages(b);
        lemma_kept(paired_plays(b), plays(b), b, play);
    }
}

/// Every legal play is listed, whatever the order of its cards: any cards of a hand with at most
/// one wild card among them that are a combination and beat what lies on the table, in a hand of
/// up to eighteen cards, or of up to 27 where the play has no more than five. A wild card alone
/// is listed from a hand of wild cards only.
pub proof fn every_legal_play_is_listed(b: Board, play: Try)
    requires
        board_ok(b),
        b.hand.len() <= 27,
        play.cards.len() <= 5 || b.hand.len() <= 18,
        held(play.cards, b.hand),
        wilds(play.cards, b.ctx) <= 1,
        play.targets matches Some(list) ==> cards_ok(list),
        legal(play, b.ctx, b.top),
        play.cards.len() == 1 && wilds(play.cards, b.ctx) == 1 ==> all_wild(b.hand, b.ctx),
    ensures
        exists|i: int|
            0 <= i < plays(b).len() && (#[trigger] plays(b)[i]).cards.to_multiset()
                == play.cards.to_multiset(),
{
    let places = lemma_places(b.hand, play.cards);
    let cards = chosen(b.hand, places)->Some_0;
    lemma_tally_order(cards, play.cards, wild_in(b.ctx));
    let n = cards.len();
    assert forall|i: int| 0 <= i < n implies b.hand[#[trigger] places[i] as int] == Symbol::Known(
        cards[i],
    ) by {
        assert(b.hand[places[i] as int] is Known);
    }
    let sorted = if n == 2 {
        lemma_swapped(cards[0], cards[1]);
        assert(cards =~= seq![cards[0], cards[1]]);
        pair_of(cards[0], cards[1])
    } else {
        cards
    };
    let other = legal_in_any_order(play, sorted, b.ctx, b.top);
    if n == 1 {
        assert(b.hand[places[0] as int] == Symbol::Known(cards[0]));
        assert(cards =~= seq![cards[0]]);
        lemma_one_listed(b, places[0] as int, other);
    } else if n == 2 {
        assert(places[0] < places[1]);
        assert(b.hand[places[0] as int] == Symbol::Known(cards[0]));
        assert(b.hand[places[1] as int] == Symbol::Known(cards[1]));
        lemma_two_listed(b, places[0] as int, places[1] as int, other);
    } else {
        legal_plays_are_found(b, places, other);
    }
    let k = plays(b).index_of(other);
    assert(plays(b)[k] == other);
}

/// Every legal play of a player who has to play or follow is among the actions, whatever the
/// order of its cards.
pub proof fn every_legal_play_is_offered(
    hand: Seq<String>,
    top: Option<Combination>,
    ctx: RuleContext,
    play: Try,
)
    requires
        hand.len() <= 27,
        play.cards.len() <= 5 || hand.len() <= 18,
        held(play.cards, symbols_named(hand)),
        wilds(play.cards, ctx) <= 1,
        play.targets matches Some(list) ==> cards_ok(list),
        legal(play, ctx, top),
        play.cards.len() == 1 && wilds(play.cards, ctx) == 1 ==> all_wild(symbols_named(hand), ctx),
    ensures
        playing_actions(Some(hand), top, ctx) matches Ok(list) && exists|i: int, found: Try|
            0 <= i < list.len() && #[trigger] list[i] == #[trigger] action_of(found)
                && found.cards.to_multiset() == play.cards.to_multiset(),
{
    let b = Board { hand: symbols_named(hand), ctx, top };
    lemma_named_hand_ok(hand);
    every_legal_play_is_listed(b, play);
    let k = choose|i: int|
        0 <= i < plays(b).len() && (#[trigger] plays(b)[i]).cards.to_multiset()
            == play.cards.to_multiset();
    let found = plays(b).map_values(|t: Try| action_of(t));
    assert(found[k] == action_of(plays(b)[k]));
    let same = legal_in_any_order(play, play.cards, ctx, top);
    let places = lemma_places(b.hand, play.cards);
    assert(places[0] < hand.len());
    let list = playing_actions(Some(hand), top, ctx)->Ok_0;
    if top is Some {
        assert(list[k + 1] == action_of(plays(b)[k]));
    } else {
        assert(list[k] == action_of(plays(b)[k]));
    }
}

} // verus!
