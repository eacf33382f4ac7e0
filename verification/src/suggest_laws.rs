//! What holds of every suggestion.

use vstd::prelude::*;
use crate::beat_comparator::beats;
use crate::cards::{
    Card, Rank, RuleContext, Suit, Symbol, card_named, level_rank, natural, rank_order,
    symbols_named,
};
use crate::combination_parser::{
    BombKind, Combination, CombinationKind, OrdinaryKind, combination_of,
};
use crate::domain::{Seat, partner_of, team_of};
use crate::follow_decision::{
    TopSeen, partner_stands, pass_points, play_points, shows_joker, top_seen,
};
use crate::game_types::{Action, GamePhase, HandState, TableGameState};
use crate::hand_combos::{BombSplitVerdict, bomb_count, own_count, singles_count, split_verdict};
use crate::hand_view::{plain, plain_count};
use crate::leftovers::{
    bomb_stays, fewer, fewest_from, fewest_tricks, is_joker_symbol, leftover, one_trick,
    only_wild_left, row_left, same_card, straights_left_are_rows, wild_bomb_at_hand,
};
use crate::movegen::{
    Board, action_of, actor_of, held_by, is_symbol, legal_actions, playing_actions, plays,
    return_actions, suit_order, top_of, tribute_actions,
};
use crate::movegen_laws::{fine, held, plays_are_fine};
use crate::params::AdvancedBotParams;
use crate::play_context::{Situation, first_opponent, second_opponent, situation_of};
use crate::play_facts::{facts_of, plain_off_level, wild_makes_pair};
use crate::play_set::{Try, legal};
use crate::scoring_terms::pts;
use crate::suggest::{
    Answers, answers_of, bare_lead, best_answer, best_any_lead, best_lead, best_plain_lead,
    bomb_withheld, breaks_plain_bomb, card_text, combo_of, feeding, follow_choice, follow_rules,
    follow_score_at, follow_skipped, gift_order, high_pair, high_single, keeps_company, lead_choice,
    lead_rules, lead_score, lead_score_at, lead_skipped, leaves_plan, lowest_gift, natural_answer,
    playing_choice, some_answer, suggestion, without_copies,
};
use crate::tally::{lemma_tally_positive, tally};
use crate::wildcard_resolver::{fits, substituted, wilds};

verus! {

proof fn lemma_best_lead(s: Situation, list: Seq<Try>, solver: bool, n: int)
    requires
        0 <= n <= list.len(),
    ensures
        best_lead(s, list, solver, n) matches Some(i) ==> 0 <= i < n && !lead_skipped(
            s,
            list[i].cards,
            combo_of(list[i], s.ctx).kind,
        ),
    decreases n,
{
    if n > 0 {
        lemma_best_lead(s, list, solver, n - 1);
    }
}

proof fn lemma_best_plain_lead(s: Situation, list: Seq<Try>, solver: bool, n: int)
    requires
        0 <= n <= list.len(),
    ensures
        match best_plain_lead(s, list, solver, n) {
            Some(i) => 0 <= i < n && !(combo_of(list[i], s.ctx).kind is Bomb),
            None => forall|i: int|
                0 <= i < n ==> barred_lead(s, #[trigger] list[i]),
        },
    decreases n,
{
    if n > 0 {
        lemma_best_plain_lead(s, list, solver, n - 1);
    }
}

proof fn lemma_best_any_lead(s: Situation, list: Seq<Try>, solver: bool, n: int)
    requires
        0 <= n <= list.len(),
    ensures
        match best_any_lead(s, list, solver, n) {
            Some(i) => 0 <= i < n,
            None => n == 0,
        },
    decreases n,
{
    if n > 0 {
        lemma_best_any_lead(s, list, solver, n - 1);
    }
}

proof fn lemma_best_answer(s: Situation, list: Seq<Try>, top: TopSeen, a: Answers, n: int)
    requires
        0 <= n <= list.len(),
    ensures
        best_answer(s, list, top, a, n) matches Some(i) ==> 0 <= i < n && !follow_skipped(
            s,
            list[i],
            top,
            a,
        ),
    decreases n,
{
    if n > 0 {
        lemma_best_answer(s, list, top, a, n - 1);
    }
}

/// A lead that may not stand in for a bomb: a bomb itself, one that is passed over, or one that
/// breaks up a bomb against the rules.
pub open spec fn barred_lead(s: Situation, play: Try) -> bool {
    let kind = combo_of(play, s.ctx).kind;
    lead_skipped(s, play.cards, kind) || kind is Bomb || split_verdict(
        play.cards,
        s.hand,
        kind,
        s.hand.len() as int,
    ) == BombSplitVerdict::Banned
}

proof fn lemma_lead_in_list(s: Situation, list: Seq<Try>, solver: bool)
    ensures
        match lead_choice(s, list, solver) {
            Some(i) => 0 <= i < list.len(),
            None => list.len() == 0,
        },
{
    let n = list.len() as int;
    lemma_best_lead(s, list, solver, n);
    lemma_best_plain_lead(s, list, solver, n);
    lemma_best_any_lead(s, list, solver, n);
}

proof fn lemma_answer_in_list(s: Situation, list: Seq<Try>, top: TopSeen)
    ensures
        follow_choice(s, list, top) matches Some(i) ==> 0 <= i < list.len(),
{
    lemma_best_answer(s, list, top, answers_of(s, list, top), list.len() as int);
}

proof fn lemma_gift_in_list(list: Seq<Action>, ctx: RuleContext, tribute: bool, n: int)
    requires
        0 <= n <= list.len(),
    ensures
        lowest_gift(list, ctx, tribute, n) matches Ok(Some(i)) ==> 0 <= i < n,
    decreases n,
{
    if n > 0 {
        lemma_gift_in_list(list, ctx, tribute, n - 1);
    }
}

/// Whatever is suggested is one of the legal actions.
pub proof fn suggestions_are_legal(
    state: TableGameState,
    actor: Seat,
    params: AdvancedBotParams,
    solver: bool,
)
    ensures
        suggestion(state, actor, params, solver) matches Ok(action) ==> (legal_actions(
            state,
            actor,
        ) matches Ok(list) && list.contains(action)),
{
    if let (Some(hand), Ok(action)) = (state.hand, suggestion(state, actor, params, solver)) {
        if actor_of(state) == Some(actor) {
            let ctx = RuleContext { hand_level: hand.hand_level };
            if state.phase == GamePhase::Playing {
                lemma_playing_is_legal(hand, actor, params, solver);
            } else if state.phase == GamePhase::Tribute {
                let list = tribute_actions(held_by(hand, actor), ctx);
                lemma_gift_in_list(list, ctx, true, list.len() as int);
            } else {
                let list = return_actions(hand, actor)->Ok_0;
                lemma_gift_in_list(list, ctx, false, list.len() as int);
            }
        }
    }
}

proof fn lemma_playing_is_legal(
    hand: HandState,
    actor: Seat,
    params: AdvancedBotParams,
    solver: bool,
)
    ensures
        playing_choice(hand, actor, params, solver) matches Ok(action) ==> (playing_actions(
            held_by(hand, actor),
            top_of(hand),
            RuleContext { hand_level: hand.hand_level },
        ) matches Ok(list) && list.contains(action)),
{
    let s = situation_of(hand, actor, params);
    let b = Board { hand: s.hand, ctx: s.ctx, top: top_of(hand) };
    let list = plays(b);
    if let Some(held) = held_by(hand, actor) {
        assert(s.hand == symbols_named(held));
        let found = list.map_values(|t: Try| action_of(t));
        if held.len() == 0 {
            assert(b.hand.len() == 0);
            lemma_no_plays(b);
            lemma_lead_in_list(s, list, solver);
            assert(seq![Action::Pass][0] == Action::Pass);
        } else {
            match hand.trick.top_play {
                None => {
                    lemma_lead_in_list(s, list, solver);
                    if let Some(i) = lead_choice(s, list, solver) {
                        assert(found[i] == action_of(list[i]));
                    } else if let Some(action) = bare_lead(held, list) {
                        assert(seq![action][0] == action);
                    }
                },
                Some(top) => {
                    let all = seq![Action::Pass] + found;
                    assert(all[0] == Action::Pass);
                    lemma_answer_in_list(s, list, top_seen(top));
                    if let Some(i) = follow_choice(s, list, top_seen(top)) {
                        assert(all[i + 1] == found[i]);
                    }
                },
            }
        }
    }
}

/// An empty hand has no plays.
proof fn lemma_no_plays(b: Board)
    requires
        b.hand.len() == 0,
    ensures
        plays(b).len() == 0,
{
    lemma_stages_fine(b);
    if plays(b).len() > 0 {
        let play = plays(b)[0];
        assert(legal(play, b.ctx, b.top));
        assert(held(play.cards, b.hand));
        if play.cards.len() > 0 {
            let card = play.cards[0];
            lemma_tally_positive(play.cards, same_card(card));
            assert(same_card(card)(play.cards[0]));
            assert(tally(play.cards, same_card(card)) <= tally(b.hand, is_symbol(card)));
            assert(tally(b.hand, is_symbol(card)) == 0);
        } else {
            lemma_nothing_is_no_combination(play, b.ctx);
        }
    }
}

proof fn lemma_stages_fine(b: Board)
    requires
        b.hand.len() == 0,
    ensures
        fine(plays(b), b),
{
    plays_are_fine(b);
}

proof fn lemma_nothing_is_no_combination(play: Try, ctx: RuleContext)
    requires
        play.cards.len() == 0,
    ensures
        combination_of(play.cards, play.targets, ctx) is None,
{
    if let Some(list) = play.targets {
        if fits(play.cards, list, ctx) {
            assert(substituted(play.cards, list, ctx).len() == 0);
        }
    }
}

/// A bomb is led only to empty the hand, to leave a straight behind a straight flush with a wild
/// card, or where no other lead may stand in for it.
pub proof fn bombs_are_led_last(s: Situation, list: Seq<Try>, solver: bool)
    ensures
        lead_choice(s, list, solver) matches Some(i) ==> (combo_of(list[i], s.ctx).kind is Bomb
            && list[i].cards.len() < s.hand.len() && !leaves_plan(
            s,
            list[i].cards,
            combo_of(list[i], s.ctx).kind,
        ) ==> forall|j: int| 0 <= j < list.len() ==> barred_lead(s, #[trigger] list[j])),
{
    let n = list.len() as int;
    lemma_best_lead(s, list, solver, n);
    lemma_best_plain_lead(s, list, solver, n);
    if best_lead(s, list, solver, n) is None {
        lemma_all_skipped(s, list, solver, n);
    }
}

proof fn lemma_all_skipped(s: Situation, list: Seq<Try>, solver: bool, n: int)
    requires
        0 <= n <= list.len(),
        best_lead(s, list, solver, n) is None,
    ensures
        forall|j: int|
            0 <= j < n ==> lead_skipped(
                s,
                (#[trigger] list[j]).cards,
                combo_of(list[j], s.ctx).kind,
            ),
    decreases n,
{
    if n > 0 {
        lemma_all_skipped(s, list, solver, n - 1);
    }
}

/// The last card is played whenever it can be.
pub proof fn last_card_answers(s: Situation, list: Seq<Try>, top: TopSeen)
    requires
        s.hand.len() == 1,
        list.len() > 0,
    ensures
        follow_choice(s, list, top) == Some(0int),
{
}

/// A partner's bomb, level card, joker, plate, tube or big play is never beaten, unless the own
/// last card can be played.
pub proof fn partner_plays_stand(s: Situation, list: Seq<Try>, top: TopSeen)
    requires
        top.seat == partner_of(s.actor),
        partner_stands(top, s.ctx),
        s.hand.len() != 1,
    ensures
        follow_choice(s, list, top) is None,
{
}

/// No bomb is ever spent on the partner's play, unless the own last card can be played.
pub proof fn partner_is_never_bombed(s: Situation, list: Seq<Try>, top: TopSeen)
    requires
        top.seat == partner_of(s.actor),
        s.hand.len() != 1,
    ensures
        follow_choice(s, list, top) matches Some(i) ==> !(combo_of(list[i], s.ctx).kind is Bomb),
{
}

/// An answer that is given is none that is passed over: in particular no wild card goes into a
/// bomb where a plain bomb will do, and no bomb where a plain answer of the same kind will do,
/// unless that empties the hand.
pub proof fn answers_spare_wild_cards(s: Situation, list: Seq<Try>, top: TopSeen)
    requires
        s.hand.len() != 1,
    ensures
        follow_choice(s, list, top) matches Some(i) ==> ({
            let a = answers_of(s, list, top);
            let kind = combo_of(list[i], s.ctx).kind;
            list[i].cards.len() >= s.hand.len() || (!follow_skipped(s, list[i], top, a) && !(
            a.plain_bomb && kind is Bomb && wilds(list[i].cards, s.ctx) > 0) && !(a.same_kind
                && kind is Bomb))
        }),
{
    lemma_best_answer(s, list, top, answers_of(s, list, top), list.len() as int);
}

/// Single cards and pairs below the level are not bombed, unless the own last card can be played.
pub proof fn low_singles_are_not_bombed(s: Situation, list: Seq<Try>, top: TopSeen)
    requires
        s.hand.len() != 1,
        (top.combination.kind == CombinationKind::Ordinary(OrdinaryKind::Single)
            && top.cards.len() == 1 && !high_single(top, s.ctx)) || (top.combination.kind
            == CombinationKind::Ordinary(OrdinaryKind::Pair) && !high_pair(top, s.ctx)),
    ensures
        follow_choice(s, list, top) matches Some(i) ==> !(combo_of(list[i], s.ctx).kind is Bomb),
{
}

/// The last bomb is kept: with seven cards or more in hand and no opponent about to run out, a
/// plain bomb that leaves cards answers a bomb only where another stays, plain or with a wild
/// card, and answers anything else only where there were two plain ones and one stays.
pub proof fn last_bomb_is_kept(s: Situation, list: Seq<Try>, top: TopSeen)
    requires
        s.hand.len() > 6,
        !s.enemy_within(6),
    ensures
        follow_choice(s, list, top) matches Some(i) ==> (combo_of(list[i], s.ctx).kind is Bomb
            && wilds(list[i].cards, s.ctx) == 0 && list[i].cards.len() < s.hand.len() ==> ({
            let rest = without_copies(s.hand, list[i].cards, s.hand.len() as int);
            if top.combination.kind is Bomb {
                bomb_stays(rest, s.ctx)
            } else {
                bomb_count(s.hand, s.ctx) != 1 && bomb_count(rest, s.ctx) > 0
            }
        })),
{
}

/// The symbols that a choice takes from a list.
pub open spec fn picked(rest: Seq<Symbol>, mask: Seq<bool>) -> Seq<Symbol>
    decreases rest.len(),
{
    if rest.len() == 0 || mask.len() == 0 {
        Seq::empty()
    } else {
        (if mask[0] {
            seq![rest[0]]
        } else {
            Seq::empty()
        }) + picked(rest.skip(1), mask.skip(1))
    }
}

/// The symbols that a choice leaves.
pub open spec fn unpicked(rest: Seq<Symbol>, mask: Seq<bool>) -> Seq<Symbol>
    decreases rest.len(),
{
    if rest.len() == 0 || mask.len() == 0 {
        Seq::empty()
    } else {
        (if mask[0] {
            Seq::empty()
        } else {
            seq![rest[0]]
        }) + unpicked(rest.skip(1), mask.skip(1))
    }
}

/// A hand goes down in `n` tricks: the first takes the first card and some of the others, the
/// rest goes down in the remaining ones.
pub open spec fn goes_down(cards: Seq<Symbol>, ctx: RuleContext, n: nat) -> bool
    decreases n,
{
    if n == 0 {
        cards.len() == 0
    } else {
        cards.len() > 0 && exists|mask: Seq<bool>|
            mask.len() == cards.len() - 1 && #[trigger] first_trick(cards, mask, ctx)
                && goes_down(unpicked(cards.skip(1), mask), ctx, (n - 1) as nat)
    }
}

/// The first card and the picked ones go down together.
pub open spec fn first_trick(cards: Seq<Symbol>, mask: Seq<bool>, ctx: RuleContext) -> bool {
    one_trick(cards.take(1) + picked(cards.skip(1), mask), ctx)
}

proof fn lemma_from_mask(
    taken: Seq<Symbol>,
    kept: Seq<Symbol>,
    rest: Seq<Symbol>,
    ctx: RuleContext,
    mask: Seq<bool>,
)
    requires
        taken.len() > 0,
        mask.len() == rest.len(),
        one_trick(taken + picked(rest, mask), ctx),
    ensures
        fewest_from(taken, kept, rest, ctx) matches Some(v) && v <= 1 + fewest_tricks(
            kept + unpicked(rest, mask),
            ctx,
        ),
    decreases rest.len(),
{
    if rest.len() == 0 {
        assert(taken + picked(rest, mask) =~= taken);
        assert(kept + unpicked(rest, mask) =~= kept);
    } else {
        let more = mask.skip(1);
        if mask[0] {
            assert(taken + picked(rest, mask) =~= taken.push(rest[0]) + picked(rest.skip(1), more));
            assert(kept + unpicked(rest, mask) =~= kept + unpicked(rest.skip(1), more));
            lemma_from_mask(taken.push(rest[0]), kept, rest.skip(1), ctx, more);
        } else {
            assert(taken + picked(rest, mask) =~= taken + picked(rest.skip(1), more));
            assert(kept + unpicked(rest, mask) =~= kept.push(rest[0]) + unpicked(
                rest.skip(1),
                more,
            ));
            lemma_from_mask(taken, kept.push(rest[0]), rest.skip(1), ctx, more);
        }
    }
}

proof fn lemma_mask_from(
    taken: Seq<Symbol>,
    kept: Seq<Symbol>,
    rest: Seq<Symbol>,
    ctx: RuleContext,
) -> (mask: Seq<bool>)
    requires
        taken.len() > 0,
        fewest_from(taken, kept, rest, ctx) is Some,
    ensures
        mask.len() == rest.len(),
        one_trick(taken + picked(rest, mask), ctx),
        fewest_from(taken, kept, rest, ctx) == Some(
            1 + fewest_tricks(kept + unpicked(rest, mask), ctx),
        ),
    decreases rest.len(),
{
    if rest.len() == 0 {
        let mask = Seq::<bool>::empty();
        assert(taken + picked(rest, mask) =~= taken);
        assert(kept + unpicked(rest, mask) =~= kept);
        mask
    } else {
        let with = fewest_from(taken.push(rest[0]), kept, rest.skip(1), ctx);
        let without = fewest_from(taken, kept.push(rest[0]), rest.skip(1), ctx);
        if fewer(with, without) == with && with is Some {
            let more = lemma_mask_from(taken.push(rest[0]), kept, rest.skip(1), ctx);
            let mask = seq![true] + more;
            assert(mask.skip(1) =~= more);
            assert(taken + picked(rest, mask) =~= taken.push(rest[0]) + picked(rest.skip(1), more));
            assert(kept + unpicked(rest, mask) =~= kept + unpicked(rest.skip(1), more));
            mask
        } else {
            let more = lemma_mask_from(taken, kept.push(rest[0]), rest.skip(1), ctx);
            let mask = seq![false] + more;
            assert(mask.skip(1) =~= more);
            assert(taken + picked(rest, mask) =~= taken + picked(rest.skip(1), more));
            assert(kept + unpicked(rest, mask) =~= kept.push(rest[0]) + unpicked(
                rest.skip(1),
                more,
            ));
            mask
        }
    }
}

proof fn lemma_unpicked_len(rest: Seq<Symbol>, mask: Seq<bool>)
    ensures
        unpicked(rest, mask).len() <= rest.len(),
    decreases rest.len(),
{
    if rest.len() > 0 && mask.len() > 0 {
        lemma_unpicked_len(rest.skip(1), mask.skip(1));
    }
}

/// A hand goes down in the number of tricks that is counted.
pub proof fn fewest_tricks_suffice(cards: Seq<Symbol>, ctx: RuleContext)
    ensures
        goes_down(cards, ctx, fewest_tricks(cards, ctx)),
    decreases cards.len(),
{
    if cards.len() > 0 {
        let first = cards.take(1);
        let rest = cards.skip(1);
        lemma_alone(first, Seq::empty(), rest, ctx);
        let mask = lemma_mask_from(first, Seq::empty(), rest, ctx);
        assert(Seq::<Symbol>::empty() + unpicked(rest, mask) =~= unpicked(rest, mask));
        lemma_unpicked_len(rest, mask);
        fewest_tricks_suffice(unpicked(rest, mask), ctx);
        assert(first_trick(cards, mask, ctx));
    }
}

proof fn lemma_alone(taken: Seq<Symbol>, kept: Seq<Symbol>, rest: Seq<Symbol>, ctx: RuleContext)
    requires
        taken.len() == 1,
    ensures
        fewest_from(taken, kept, rest, ctx) is Some,
    decreases rest.len(),
{
    if rest.len() > 0 {
        lemma_alone(taken, kept.push(rest[0]), rest.skip(1), ctx);
    }
}

/// A hand does not go down in fewer tricks than are counted.
pub proof fn fewest_tricks_are_needed(cards: Seq<Symbol>, ctx: RuleContext, n: nat)
    requires
        goes_down(cards, ctx, n),
    ensures
        fewest_tricks(cards, ctx) <= n,
    decreases n,
{
    if n > 0 {
        let mask = choose|mask: Seq<bool>|
            mask.len() == cards.len() - 1 && #[trigger] first_trick(cards, mask, ctx)
                && goes_down(unpicked(cards.skip(1), mask), ctx, (n - 1) as nat);
        let rest = cards.skip(1);
        fewest_tricks_are_needed(unpicked(rest, mask), ctx, (n - 1) as nat);
        lemma_from_mask(cards.take(1), Seq::empty(), rest, ctx, mask);
        assert(Seq::<Symbol>::empty() + unpicked(rest, mask) =~= unpicked(rest, mask));
    }
}

/// Of the gifts that a list offers, the one that is picked names a card that no other falls below:
/// none is of a lower rank at the hand's level, and none of that rank is of a suit that comes
/// first. A message comes only where a text names no card.
pub proof fn lowest_gift_is_picked(list: Seq<Action>, ctx: RuleContext, tribute: bool)
    ensures
        match lowest_gift(list, ctx, tribute, list.len() as int) {
            Ok(Some(i)) => 0 <= i < list.len() && (card_text(list[i], tribute) matches Some(text)
                && (card_named(text) matches Some(card) && forall|j: int|
                0 <= j < list.len() ==> (card_text(#[trigger] list[j], tribute) matches Some(other)
                    ==> (card_named(other) matches Some(c) && (rank_order(card.rank, ctx)
                    < rank_order(c.rank, ctx) || (rank_order(card.rank, ctx) == rank_order(
                    c.rank,
                    ctx,
                ) && suit_order(card.suit) <= suit_order(c.suit))))))),
            Ok(None) => forall|j: int|
                0 <= j < list.len() ==> card_text(#[trigger] list[j], tribute) is None,
            Err(message) => exists|j: int|
                0 <= j < list.len() && (card_text(#[trigger] list[j], tribute) matches Some(other)
                    && card_named(other) is None),
        },
{
    lemma_lowest_gift(list, ctx, tribute, list.len() as int);
}

proof fn lemma_lowest_gift(list: Seq<Action>, ctx: RuleContext, tribute: bool, n: int)
    requires
        0 <= n <= list.len(),
    ensures
        match lowest_gift(list, ctx, tribute, n) {
            Ok(Some(i)) => 0 <= i < n && (card_text(list[i], tribute) matches Some(text) && (
            card_named(text) matches Some(card) && forall|j: int|
                0 <= j < n ==> (card_text(#[trigger] list[j], tribute) matches Some(other) ==> (
                card_named(other) matches Some(c) && (rank_order(card.rank, ctx) < rank_order(
                    c.rank,
                    ctx,
                ) || (rank_order(card.rank, ctx) == rank_order(c.rank, ctx) && suit_order(card.suit)
                    <= suit_order(c.suit))))))),
            Ok(None) => forall|j: int|
                0 <= j < n ==> card_text(#[trigger] list[j], tribute) is None,
            Err(message) => exists|j: int|
                0 <= j < n && (card_text(#[trigger] list[j], tribute) matches Some(other)
                    && card_named(other) is None),
        },
    decreases n,
{
    if n > 0 {
        lemma_lowest_gift(list, ctx, tribute, n - 1);
        let before = lowest_gift(list, ctx, tribute, n - 1);
        if before is Ok {
            if let Some(text) = card_text(list[n - 1], tribute) {
                if let Some(card) = card_named(text) {
                    if let Some(i) = before->Ok_0 {
                        let held = card_named(card_text(list[i], tribute)->Some_0)->Some_0;
                        assert(gift_order(card, ctx) < gift_order(held, ctx) <==> (rank_order(
                            card.rank,
                            ctx,
                        ) < rank_order(held.rank, ctx) || (rank_order(card.rank, ctx)
                            == rank_order(held.rank, ctx) && suit_order(card.suit) < suit_order(
                            held.suit,
                        ))));
                    }
                } else {
                    assert(card_text(list[n - 1], tribute) is Some);
                }
            }
        }
    }
}

/// Whoever has to pay a tribute or to give a card back is told to give the lowest of the cards
/// that may be given: no legal gift is of a lower rank at the hand's level.
pub proof fn suggested_gifts_are_lowest(
    state: TableGameState,
    actor: Seat,
    params: AdvancedBotParams,
    solver: bool,
)
    requires
        state.phase == GamePhase::Tribute || state.phase == GamePhase::Exchange,
        state.hand is Some,
    ensures
        match suggestion(state, actor, params, solver) {
            Ok(action) => ({
                let ctx = RuleContext { hand_level: state.hand->Some_0.hand_level };
                let tribute = state.phase == GamePhase::Tribute;
                legal_actions(state, actor) matches Ok(list) && list.contains(action) && (card_text(
                    action,
                    tribute,
                ) matches Some(text) && (card_named(text) matches Some(card) && forall|j: int|
                    0 <= j < list.len() ==> (card_text(#[trigger] list[j], tribute) matches Some(
                        other,
                    ) ==> (card_named(other) matches Some(c) && rank_order(card.rank, ctx)
                        <= rank_order(c.rank, ctx)))))
            }),
            Err(message) => true,
        },
{
    suggestions_are_legal(state, actor, params, solver);
    let hand = state.hand->Some_0;
    let ctx = RuleContext { hand_level: hand.hand_level };
    if suggestion(state, actor, params, solver) is Ok {
        let list = legal_actions(state, actor)->Ok_0;
        lowest_gift_is_picked(list, ctx, state.phase == GamePhase::Tribute);
    }
}

/// The order of ranks in a hand: the red joker above the black one, jokers above the level, the
/// level above every other rank, and those as by nature.
pub proof fn ranks_are_ordered_by_level(a: Rank, b: Rank, ctx: RuleContext)
    ensures
        ({
            let level = level_rank(ctx.hand_level);
            &&& rank_order(a, ctx) == rank_order(b, ctx) <==> a == b
            &&& rank_order(Rank::RedJoker, ctx) > rank_order(Rank::BlackJoker, ctx) > rank_order(
                level,
                ctx,
            )
            &&& natural(a) != 0 && a != level ==> rank_order(a, ctx) < rank_order(level, ctx)
            &&& natural(a) != 0 && natural(b) != 0 && a != level && b != level ==> (rank_order(
                a,
                ctx,
            ) < rank_order(b, ctx) <==> natural(a) < natural(b))
        }),
{
}

proof fn lemma_best_lead_is_best(s: Situation, list: Seq<Try>, solver: bool, n: int)
    requires
        0 <= n <= list.len(),
    ensures
        match best_lead(s, list, solver, n) {
            Some(i) => 0 <= i < n && !lead_skipped(s, list[i].cards, combo_of(list[i], s.ctx).kind)
                && forall|j: int|
                0 <= j < n && !lead_skipped(
                    s,
                    (#[trigger] list[j]).cards,
                    combo_of(list[j], s.ctx).kind,
                ) ==> lead_score_at(s, list, solver, j) <= lead_score_at(s, list, solver, i) && (j
                    < i ==> lead_score_at(s, list, solver, j) < lead_score_at(s, list, solver, i)),
            None => forall|j: int|
                0 <= j < n ==> lead_skipped(
                    s,
                    (#[trigger] list[j]).cards,
                    combo_of(list[j], s.ctx).kind,
                ),
        },
    decreases n,
{
    if n > 0 {
        lemma_best_lead_is_best(s, list, solver, n - 1);
    }
}

proof fn lemma_best_plain_lead_is_best(s: Situation, list: Seq<Try>, solver: bool, n: int)
    requires
        0 <= n <= list.len(),
    ensures
        match best_plain_lead(s, list, solver, n) {
            Some(i) => 0 <= i < n && !barred_lead(s, list[i]) && forall|j: int|
                0 <= j < n && !barred_lead(s, #[trigger] list[j]) ==> lead_score_at(
                    s,
                    list,
                    solver,
                    j,
                ) <= lead_score_at(s, list, solver, i),
            None => forall|j: int| 0 <= j < n ==> barred_lead(s, #[trigger] list[j]),
        },
    decreases n,
{
    if n > 0 {
        lemma_best_plain_lead_is_best(s, list, solver, n - 1);
    }
}

proof fn lemma_best_any_lead_is_best(s: Situation, list: Seq<Try>, solver: bool, n: int)
    requires
        0 <= n <= list.len(),
    ensures
        match best_any_lead(s, list, solver, n) {
            Some(i) => 0 <= i < n && forall|j: int|
                0 <= j < n ==> #[trigger] lead_score_at(s, list, solver, j) <= lead_score_at(
                    s,
                    list,
                    solver,
                    i,
                ),
            None => n == 0,
        },
    decreases n,
{
    if n > 0 {
        lemma_best_any_lead_is_best(s, list, solver, n - 1);
    }
}

/// The lead that is chosen has the most points of those it was chosen from: of all that are not
/// passed over, where one of these is best and no bomb that may wait; else of those that may
/// stand in for the bomb; and of all leads where every one is passed over.
pub proof fn best_lead_is_made(s: Situation, list: Seq<Try>, solver: bool)
    requires
        list.len() > 0,
    ensures
        lead_choice(s, list, solver) matches Some(i) && 0 <= i < list.len() && {
            let chosen = list[i];
            let free = |t: Try| !lead_skipped(s, t.cards, combo_of(t, s.ctx).kind);
            let beats = |j: int| lead_score_at(s, list, solver, j) <= lead_score_at(s, list, solver, i);
            ||| free(chosen) && forall|j: int|
                0 <= j < list.len() && free(#[trigger] list[j]) ==> beats(j)
            ||| !barred_lead(s, chosen) && (forall|j: int|
                0 <= j < list.len() && !barred_lead(s, #[trigger] list[j]) ==> beats(j))
                && exists|b: int|
                0 <= b < list.len() && combo_of(#[trigger] list[b], s.ctx).kind is Bomb && free(
                    list[b],
                ) && list[b].cards.len() < s.hand.len()
            ||| (forall|j: int| 0 <= j < list.len() ==> !free(#[trigger] list[j]))
                && forall|j: int|
                0 <= j < list.len() ==> #[trigger] lead_score_at(s, list, solver, j)
                    <= lead_score_at(s, list, solver, i)
        },
{
    let n = list.len() as int;
    lemma_best_lead_is_best(s, list, solver, n);
    lemma_best_plain_lead_is_best(s, list, solver, n);
    lemma_best_any_lead_is_best(s, list, solver, n);
    lemma_lead_in_list(s, list, solver);
}

/// A lead that is no bomb, is not passed over and has the most points of all that are not passed
/// over, none before it as many, is made.
pub proof fn best_plain_lead_is_made(s: Situation, list: Seq<Try>, solver: bool, i: int)
    requires
        0 <= i < list.len(),
        !(combo_of(list[i], s.ctx).kind is Bomb) || list[i].cards.len() >= s.hand.len(),
        !lead_skipped(s, list[i].cards, combo_of(list[i], s.ctx).kind),
        forall|j: int|
            0 <= j < list.len() && j != i && !lead_skipped(
                s,
                (#[trigger] list[j]).cards,
                combo_of(list[j], s.ctx).kind,
            ) ==> lead_score_at(s, list, solver, j) < lead_score_at(s, list, solver, i),
    ensures
        lead_choice(s, list, solver) == Some(i),
{
    let n = list.len() as int;
    lemma_best_lead_is_best(s, list, solver, n);
    if let Some(k) = best_lead(s, list, solver, n) {
        assert(list[k] == list[k]);
    }
}

proof fn lemma_best_answer_is_best(s: Situation, list: Seq<Try>, top: TopSeen, a: Answers, n: int)
    requires
        0 <= n <= list.len(),
    ensures
        match best_answer(s, list, top, a, n) {
            Some(i) => 0 <= i < n && !follow_skipped(s, list[i], top, a) && forall|j: int|
                0 <= j < n && !follow_skipped(s, #[trigger] list[j], top, a) ==> follow_score_at(
                    s,
                    list,
                    top,
                    a.stranding,
                    j,
                ) <= follow_score_at(s, list, top, a.stranding, i) && (j < i ==> follow_score_at(
                    s,
                    list,
                    top,
                    a.stranding,
                    j,
                ) < follow_score_at(s, list, top, a.stranding, i)),
            None => forall|j: int|
                0 <= j < n ==> follow_skipped(s, #[trigger] list[j], top, a),
        },
    decreases n,
{
    if n > 0 {
        lemma_best_answer_is_best(s, list, top, a, n - 1);
    }
}

/// An answer that is given has the most points of all that are not passed over, none before it as
/// many, and no fewer than a thousand below zero, unless it is the last card.
pub proof fn best_answer_is_given(s: Situation, list: Seq<Try>, top: TopSeen)
    requires
        s.hand.len() != 1,
    ensures
        follow_choice(s, list, top) matches Some(i) ==> 0 <= i < list.len() && ({
            let a = answers_of(s, list, top);
            let points = |j: int| follow_score_at(s, list, top, a.stranding, j);
            &&& points(i) >= -1000 * 100_000_000
            &&& forall|j: int|
                0 <= j < list.len() && !follow_skipped(s, #[trigger] list[j], top, a) ==> points(j)
                    <= points(i) && (j < i ==> points(j) < points(i))
        }),
{
    lemma_best_answer_is_best(s, list, top, answers_of(s, list, top), list.len() as int);
}

/// An opponent's play is answered whenever answering is decided on and the best answer is no bomb
/// and not below minus a thousand points.
pub proof fn good_answers_are_given(s: Situation, list: Seq<Try>, top: TopSeen, i: int)
    requires
        s.hand.len() != 1,
        0 <= i < list.len(),
        top.seat != partner_of(s.actor),
        pass_points(s, top) <= play_points(s, top),
        !(combo_of(list[i], s.ctx).kind is Bomb),
        ({
            let a = answers_of(s, list, top);
            &&& !follow_skipped(s, list[i], top, a)
            &&& follow_score_at(s, list, top, a.stranding, i) >= pts(-1000)
            &&& forall|j: int|
                0 <= j < list.len() && j != i && !follow_skipped(s, #[trigger] list[j], top, a)
                    ==> follow_score_at(s, list, top, a.stranding, j) < follow_score_at(
                    s,
                    list,
                    top,
                    a.stranding,
                    i,
                )
        }),
    ensures
        follow_choice(s, list, top) == Some(i),
{
    lemma_best_answer_is_best(s, list, top, answers_of(s, list, top), list.len() as int);
    if let Some(k) = best_answer(s, list, top, answers_of(s, list, top), list.len() as int) {
        assert(list[k] == list[k]);
    }
}

/// A partner with one to six cards left is not beaten, unless the own hand goes down at once.
pub proof fn partner_with_few_cards_is_let_through(s: Situation, list: Seq<Try>, top: TopSeen)
    requires
        top.seat == partner_of(s.actor),
        1 <= s.left_at(partner_of(s.actor)) <= 6,
        s.hand.len() != 1,
        forall|j: int| 0 <= j < list.len() ==> (#[trigger] list[j]).cards.len() < s.hand.len(),
    ensures
        follow_choice(s, list, top) is None,
{
}

/// Where there is more to say for a pass than for a play, the play on the table stands, unless
/// the own last card can be played.
pub proof fn passing_is_weighed(s: Situation, list: Seq<Try>, top: TopSeen)
    requires
        s.hand.len() != 1,
        pass_points(s, top) > play_points(s, top),
    ensures
        follow_choice(s, list, top) is None,
{
}

/// A leader leads and never passes; with a play on the table what is suggested is a pass or one
/// of the plays that beat it.
pub proof fn leaders_lead(state: TableGameState, actor: Seat, params: AdvancedBotParams, solver: bool)
    requires
        state.phase == GamePhase::Playing,
        state.hand is Some,
    ensures
        suggestion(state, actor, params, solver) matches Ok(action) ==> ({
            let hand = state.hand->Some_0;
            let list = plays(
                Board {
                    hand: situation_of(hand, actor, params).hand,
                    ctx: RuleContext { hand_level: hand.hand_level },
                    top: top_of(hand),
                },
            );
            &&& actor_of(state) == Some(actor)
            &&& hand.trick.top_play is None ==> action is Play
            &&& hand.trick.top_play is Some ==> action is Pass || exists|i: int|
                0 <= i < list.len() && action == action_of(#[trigger] list[i])
        }),
{
    let hand = state.hand->Some_0;
    let s = situation_of(hand, actor, params);
    let list = plays(Board { hand: s.hand, ctx: s.ctx, top: top_of(hand) });
    lemma_lead_in_list(s, list, solver);
    if let Some(top) = hand.trick.top_play {
        lemma_answer_in_list(s, list, top_seen(top));
        if let Some(i) = follow_choice(s, list, top_seen(top)) {
            assert(action_of(list[i]) == action_of(list[i]));
        }
    }
}

/// No lead that empties the hand is passed over. Any other with two wild cards from seven cards or
/// more is; and while no opponent is about to run out so are a triple with one wild card, a full
/// house whose pair is a single with a wild card, and a full house with a wild card where one could
/// complete a bomb. Nothing else is, and no play without a wild card.
pub proof fn leads_spare_wild_cards(s: Situation, play: Seq<Card>, kind: CombinationKind)
    ensures
        ({
            let w = wilds(play, s.ctx);
            let leaves = play.len() < s.hand.len();
            let house = kind == CombinationKind::Ordinary(OrdinaryKind::FullHouse);
            let calm = !s.enemy_within(6);
            &&& !leaves ==> !lead_skipped(s, play, kind)
            &&& leaves && w >= 2 && s.hand.len() >= 7 ==> lead_skipped(s, play, kind)
            &&& leaves && calm && kind == CombinationKind::Ordinary(OrdinaryKind::Triple) && w == 1
                ==> lead_skipped(s, play, kind)
            &&& leaves && calm && house && wild_makes_pair(play, s.hand, s.ctx) ==> lead_skipped(
                s,
                play,
                kind,
            )
            &&& leaves && calm && house && w > 0 && wild_bomb_at_hand(s.hand, s.ctx) ==> lead_skipped(
                s,
                play,
                kind,
            )
            &&& w == 0 ==> !lead_skipped(s, play, kind)
            &&& w == 1 && !house && kind != CombinationKind::Ordinary(OrdinaryKind::Triple)
                ==> !lead_skipped(s, play, kind)
            &&& w == 1 && !calm ==> !lead_skipped(s, play, kind)
            &&& w >= 2 && s.hand.len() <= 6 && !house && kind != CombinationKind::Ordinary(
                OrdinaryKind::Triple,
            ) ==> !lead_skipped(s, play, kind)
        }),
{
}

/// No answer that empties the hand is passed over, nor one without a wild card that is no bomb.
/// A bomb is where a plain answer of the same kind will do. With a wild card so is a bomb where a
/// plain one will do, or an answer in kind against an opponent about to run out; any answer from
/// seven cards or more where one without will do, or with two of them; and others as for leads.
pub proof fn answers_that_are_passed_over(s: Situation, play: Try, top: TopSeen, a: Answers)
    ensures
        ({
            let kind = combo_of(play, s.ctx).kind;
            let w = wilds(play.cards, s.ctx);
            let large = s.hand.len() >= 7;
            let calm = !s.enemy_within(6);
            let house = kind == CombinationKind::Ordinary(OrdinaryKind::FullHouse);
            let skipped = follow_skipped(s, play, top, a);
            &&& play.cards.len() >= s.hand.len() ==> !skipped
            &&& w == 0 && !(kind is Bomb) ==> !skipped
            &&& w == 0 && kind is Bomb ==> (skipped <==> a.same_kind && play.cards.len()
                < s.hand.len())
            &&& play.cards.len() < s.hand.len() ==> {
                &&& a.same_kind && kind is Bomb ==> skipped
                &&& a.same_kind && w > 0 && !a.stranding ==> skipped
                &&& a.plain_bomb && kind is Bomb && w > 0 ==> skipped
                &&& a.in_kind && !calm && kind is Bomb && w > 0 ==> skipped
                &&& a.wild_free && large && w > 0 ==> skipped
                &&& large && w >= 2 ==> skipped
                &&& calm && kind == CombinationKind::Ordinary(OrdinaryKind::Triple) && w == 1
                    ==> skipped
                &&& calm && house && wild_makes_pair(play.cards, s.hand, s.ctx) ==> skipped
                &&& calm && large && house && w > 0 && (a.wild_bomb || a.wild_run) ==> skipped
                &&& large && w > 0 && kind == CombinationKind::Ordinary(OrdinaryKind::Pair)
                    && !a.stranding && plain_off_level(play.cards, s.ctx) ==> skipped
            }
        }),
{
    let kind = combo_of(play, s.ctx).kind;
    if kind == CombinationKind::Ordinary(OrdinaryKind::FullHouse) && wild_makes_pair(
        play.cards,
        s.hand,
        s.ctx,
    ) {
        assert(wilds(play.cards, s.ctx) == 1);
    }
}

/// Before the endgame and while no opponent is about to run out, a plain bomb that leaves cards is
/// not spent on a triple, nor on a full house below the queen; but a bomb that is not held back for
/// one of these reasons, or as the last one, or as too much for a low single or pair or for the
/// partner, may go.
pub proof fn bombs_are_held_back(s: Situation, play: Try, top: TopSeen)
    ensures
        ({
            let kind = top.combination.kind;
            let held = bomb_withheld(s, play, top);
            let early = s.hand.len() >= 7 && !s.enemy_within(6) && play.cards.len() < s.hand.len();
            let plain = wilds(play.cards, s.ctx) == 0;
            &&& early && plain && kind == CombinationKind::Ordinary(OrdinaryKind::Triple) ==> held
            &&& early && plain && kind == CombinationKind::Ordinary(OrdinaryKind::FullHouse)
                && top.combination.primary <= 10 ==> held
            &&& top.seat == partner_of(s.actor) ==> held
            &&& top.seat != partner_of(s.actor) && !early && kind != CombinationKind::Ordinary(
                OrdinaryKind::Single,
            ) && kind != CombinationKind::Ordinary(OrdinaryKind::Pair) ==> !held
            &&& top.seat != partner_of(s.actor) && !early && kind == CombinationKind::Ordinary(
                OrdinaryKind::Single,
            ) && high_single(top, s.ctx) ==> !held
            &&& top.seat != partner_of(s.actor) && !early && kind == CombinationKind::Ordinary(
                OrdinaryKind::Pair,
            ) && high_pair(top, s.ctx) ==> !held
        }),
{
}

/// Someone is about to run out where an opponent holds at most two cards, or the partner one or
/// two.
pub proof fn feeding_is_for_hands_that_run_out(s: Situation, seat: Seat)
    ensures
        team_of(seat) != team_of(s.actor) && s.left_at(seat) <= 2 ==> feeding(s),
        1 <= s.left_at(partner_of(s.actor)) <= 2 ==> feeding(s),
        feeding(s) ==> 1 <= s.left_at(partner_of(s.actor)) <= 2 || s.left_at(
            first_opponent(s.actor),
        ) <= 2 || s.left_at(second_opponent(s.actor)) <= 2,
{
}

/// With at most six cards in hand, and unless the hand is emptied or someone is about to run out,
/// a lead also counts in how many tricks the rest goes down; in no other case does the solver make
/// a difference.
pub proof fn plans_count_in_small_hands(s: Situation, play: Seq<Card>, c: Combination)
    ensures
        ({
            let f = facts_of(s, play, c.kind, lead_rules(s));
            lead_score(s, play, c, true) - lead_score(s, play, c, false) == if s.hand.len() <= 6
                && play.len() < s.hand.len() && !feeding(s) {
                f.lone * s.params.solver_junk_bonus - fewest_tricks(leftover(s.hand, play), s.ctx)
                    * s.params.solver_trick_penalty
            } else {
                0
            }
        }),
{
}

/// An answer other than the last card, unless it empties the hand, is never a bomb where some
/// answer of the same kind costs no wild card and breaks up no bomb; and never a bomb with a wild
/// card where some bomb needs none.
pub proof fn cheaper_answers_come_first(s: Situation, list: Seq<Try>, top: TopSeen, k: int)
    requires
        s.hand.len() != 1,
        0 <= k < list.len(),
        wilds(list[k].cards, s.ctx) == 0,
    ensures
        follow_choice(s, list, top) matches Some(i) ==> (list[i].cards.len() < s.hand.len() ==> {
            let kind = combo_of(list[i], s.ctx).kind;
            let other = combo_of(list[k], s.ctx).kind;
            &&& other is Bomb && kind is Bomb ==> wilds(list[i].cards, s.ctx) == 0
            &&& !(other is Bomb) && other == top.combination.kind && !breaks_plain_bomb(
                s,
                list[k].cards,
            ) ==> !(kind is Bomb)
            &&& !breaks_plain_bomb(s, list[k].cards) && s.hand.len() >= 7 ==> wilds(
                list[i].cards,
                s.ctx,
            ) == 0
        }),
{
    let a = answers_of(s, list, top);
    lemma_best_answer(s, list, top, a, list.len() as int);
    let natural_test = |t: Try| natural_answer(s, t, top);
    let bomb_test = |t: Try| combo_of(t, s.ctx).kind is Bomb && wilds(t.cards, s.ctx) == 0;
    let free_test = |t: Try| wilds(t.cards, s.ctx) == 0 && !breaks_plain_bomb(s, t.cards);
    assert(natural_test(list[k]) ==> some_answer(list, natural_test));
    assert(bomb_test(list[k]) ==> some_answer(list, bomb_test));
    assert(free_test(list[k]) ==> some_answer(list, free_test));
}

/// A play breaks up a plain bomb where it takes some but not all of four or more plain cards of a
/// rank.
pub proof fn bombs_are_broken_by_parts(s: Situation, play: Seq<Card>, v: int)
    requires
        2 <= v <= 14,
    ensures
        plain_count(s.hand, s.ctx, v) >= 4 && 1 <= own_count(play, s.hand, s.ctx, v) && own_count(
            play,
            s.hand,
            s.ctx,
            v,
        ) < plain_count(s.hand, s.ctx, v) ==> breaks_plain_bomb(s, play),
        (forall|u: int|
            2 <= u <= 14 ==> #[trigger] plain_count(s.hand, s.ctx, u) < 4 || own_count(
                play,
                s.hand,
                s.ctx,
                u,
            ) == 0 || own_count(play, s.hand, s.ctx, u) >= plain_count(s.hand, s.ctx, u))
            ==> !breaks_plain_bomb(s, play),
{
}

/// A single that may be bombed is a joker or a card of the level; so is a pair with a joker, or of
/// cards of the level alone.
pub proof fn jokers_and_level_cards_may_be_bombed(top: TopSeen, ctx: RuleContext, card: Card)
    requires
        top.cards.len() == 1,
        top.cards[0] == Symbol::Known(card),
    ensures
        high_single(top, ctx) <==> card.suit == Suit::Joker || card.rank == level_rank(ctx.hand_level),
        high_pair(top, ctx) <==> card.suit == Suit::Joker || card.rank == level_rank(ctx.hand_level),
{
    if card.suit == Suit::Joker {
        assert(is_joker_symbol(top.cards[0]));
    }
    assert(top.cards[0] == top.cards[0]);
    if high_pair(top, ctx) && !shows_joker(top) {
        assert(top.cards[0] is Known && top.cards[0]->Known_0.rank == level_rank(ctx.hand_level));
    }
}

/// Groups are broken up for a lead only where someone is about to run out; for an answer as the
/// play on the table unlocks them, and in the endgame where no single card is in hand and the
/// partner has passed.
pub proof fn groups_are_unlocked_for_a_purpose(s: Situation)
    ensures
        lead_rules(s).feed_exempt == feeding(s),
        !lead_rules(s).unlock_pair_for_single && !lead_rules(s).unlock_triple_for_pair
            && !lead_rules(s).allow_endgame_split,
        follow_rules(s).unlock_pair_for_single == s.unlock_single,
        follow_rules(s).unlock_triple_for_pair == s.unlock_pair,
        !follow_rules(s).feed_exempt,
        follow_rules(s).allow_endgame_split <==> s.hand.len()
            <= s.params.endgame_hand_count_threshold && singles_count(s.hand, s.ctx) == 0
            && s.partner_passed,
        lead_rules(s).has_level_card_or_joker == follow_rules(s).has_level_card_or_joker,
{
}

/// A straight flush with a wild card leaves a plan where what it leaves has five ranks in a row,
/// each with a plain card; no other play does.
pub proof fn plans_leave_a_straight(s: Situation, play: Seq<Card>, kind: CombinationKind)
    ensures
        ({
            let rest = leftover(s.hand, play);
            let row = exists|l: int| 2 <= l <= 10 && #[trigger] row_left(rest, s.ctx, l);
            leaves_plan(s, play, kind) <==> kind == CombinationKind::Bomb(BombKind::StraightFlush)
                && wilds(play, s.ctx) >= 1 && row
        }),
{
    straights_left_are_rows(leftover(s.hand, play), s.ctx);
}

/// What the answers have to offer is what some one of them has: a bomb without a wild card, or
/// with one; an answer in kind, with or without one; a run with one; an answer without one that
/// breaks up no bomb.
pub proof fn answers_offer_what_one_of_them_has(s: Situation, list: Seq<Try>, top: TopSeen, k: int)
    requires
        0 <= k < list.len(),
    ensures
        ({
            let a = answers_of(s, list, top);
            let kind = combo_of(list[k], s.ctx).kind;
            let w = wilds(list[k].cards, s.ctx);
            let breaks = breaks_plain_bomb(s, list[k].cards);
            let alike = kind == top.combination.kind && !(kind is Bomb);
            &&& kind is Bomb && w == 0 ==> a.plain_bomb
            &&& kind is Bomb && kind != CombinationKind::Bomb(BombKind::StraightFlush) && w > 0
                ==> a.wild_bomb
            &&& (kind == CombinationKind::Ordinary(OrdinaryKind::Straight) || kind
                == CombinationKind::Ordinary(OrdinaryKind::Tube) || kind == CombinationKind::Ordinary(
                OrdinaryKind::Plate,
            )) && w > 0 ==> a.wild_run
            &&& w == 0 && !breaks ==> a.wild_free
            &&& alike && !breaks ==> a.in_kind
            &&& alike && !breaks && w == 0 ==> a.same_kind
            &&& alike && !breaks && w == 0 && !only_wild_left(
                leftover(s.hand, list[k].cards),
                s.ctx,
            ) ==> !a.stranding
        }),
{
    assert(list[k] == list[k]);
    let tests = seq![
        |t: Try| combo_of(t, s.ctx).kind is Bomb && wilds(t.cards, s.ctx) == 0,
        |t: Try| natural_answer(s, t, top),
        |t: Try| keeps_company(s, t, top),
    ];
    assert(tests[0](list[k]) ==> some_answer(list, tests[0]));
    assert(tests[1](list[k]) ==> some_answer(list, tests[1]));
    assert(tests[2](list[k]) ==> some_answer(list, tests[2]));
}

/// Answers of which none has something offer none of it: without a bomb there is no plain one;
/// without an answer in kind that costs no wild card and breaks up no bomb none of the same kind,
/// and nothing is stranded; where all such answers leave the wild cards alone, and there is one, all
/// are stranding.
pub proof fn answers_offer_nothing_else(s: Situation, list: Seq<Try>, top: TopSeen)
    ensures
        ({
            let a = answers_of(s, list, top);
            let plain = |t: Try|
                combo_of(t, s.ctx).kind == top.combination.kind && !(combo_of(t, s.ctx).kind is Bomb)
                    && wilds(t.cards, s.ctx) == 0 && !breaks_plain_bomb(s, t.cards);
            &&& (forall|i: int|
                0 <= i < list.len() ==> !(combo_of(#[trigger] list[i], s.ctx).kind is Bomb))
                ==> !a.plain_bomb && !a.wild_bomb
            &&& (forall|i: int| 0 <= i < list.len() ==> !plain(#[trigger] list[i])) ==> !a.same_kind
                && !a.stranding
            &&& (forall|i: int| 0 <= i < list.len() ==> wilds((#[trigger] list[i]).cards, s.ctx) > 0)
                ==> !a.wild_free && !a.plain_bomb && !a.same_kind
            &&& (forall|i: int| 0 <= i < list.len() ==> wilds((#[trigger] list[i]).cards, s.ctx) == 0)
                ==> !a.wild_bomb && !a.wild_run
            &&& (exists|i: int| 0 <= i < list.len() && plain(#[trigger] list[i])) && (forall|i: int|
                0 <= i < list.len() && plain(#[trigger] list[i]) ==> only_wild_left(
                    leftover(s.hand, list[i].cards),
                    s.ctx,
                )) ==> a.stranding
        }),
{
    let plain = |t: Try|
        combo_of(t, s.ctx).kind == top.combination.kind && !(combo_of(t, s.ctx).kind is Bomb)
            && wilds(t.cards, s.ctx) == 0 && !breaks_plain_bomb(s, t.cards);
    let natural_test = |t: Try| natural_answer(s, t, top);
    let keeps_test = |t: Try| keeps_company(s, t, top);
    assert forall|t: Try| #[trigger] plain(t) == natural_test(t) by {}
    if exists|i: int| 0 <= i < list.len() && plain(#[trigger] list[i]) {
        let i = choose|i: int| 0 <= i < list.len() && plain(#[trigger] list[i]);
        assert(natural_test(list[i]));
        assert(some_answer(list, natural_test));
    }
    if some_answer(list, natural_test) {
        let i = choose|i: int| 0 <= i < list.len() && natural_test(#[trigger] list[i]);
        assert(plain(list[i]));
    }
    if some_answer(list, keeps_test) {
        let i = choose|i: int| 0 <= i < list.len() && keeps_test(#[trigger] list[i]);
        assert(plain(list[i]));
    }
}

/// What is suggested to a leader is the lead that was chosen, and to a follower the answer that was
/// chosen, or a pass where none was.
pub proof fn choices_are_suggested(hand: HandState, actor: Seat, params: AdvancedBotParams, solver: bool)
    requires
        held_by(hand, actor) is Some,
    ensures
        ({
            let s = situation_of(hand, actor, params);
            let list = plays(Board { hand: s.hand, ctx: s.ctx, top: top_of(hand) });
            match hand.trick.top_play {
                None => lead_choice(s, list, solver) matches Some(i) ==> playing_choice(
                    hand,
                    actor,
                    params,
                    solver,
                ) == Ok::<Action, Seq<char>>(action_of(list[i])),
                Some(top) => playing_choice(hand, actor, params, solver) == Ok::<Action, Seq<char>>(
                    match follow_choice(s, list, top_seen(top)) {
                        Some(i) => action_of(list[i]),
                        None => Action::Pass,
                    },
                ),
            }
        }),
{
}

} // verus!
