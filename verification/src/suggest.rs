//! Which of the legal actions to take.

use vstd::prelude::*;
use vstd::string::*;
use crate::cards::{
    Card, RuleContext, Suit, Symbol, card_named, is_wild, level_order_value, level_rank, natural,
    natural_of, not_a_card, parse_card_symbol, rank_order, read_card,
};
use crate::combination_parser::{
    BombKind, Combination, CombinationKind, OrdinaryKind, combination_of,
};
use crate::domain::{Seat, partner_of};
use crate::follow_decision::{
    FollowDecision, TopPlay, TopSeen, decide_follow, enemy_leads, lets_stand, read_top, shows_joker,
    top_has_joker, top_seen,
};
use crate::game_types::{Action, GamePhase, HandState, PlayerAction, TableGameState, actions};
use crate::hand_combos::{
    BombSplitVerdict, SplitRules, analyze_hand_combos, bomb_count, classify_bomb_split, count_own,
    own_count, singles_count, split_verdict,
};
use crate::hand_view::plain_count;
use crate::leftovers::{
    TrickMemo, bomb_stays, fewest_tricks, hand_has_wild_bomb_or_sf, is_joker_symbol, leftover,
    leftover_all_wild, min_tricks_partition, only_wild_left, sf_leftover_straights_and_singles,
    still_has_bomb, straights_and_singles, symbol_is_joker, take_away, wild_bomb_at_hand,
};
use crate::movegen::{
    Board, action_of, actor_of, current_actor_seat, enumerate_return, enumerate_tribute, find_plays,
    held_by, plays, return_actions, suit_order, top_of, tribute_actions, write_action,
};
use crate::params::{AdvancedBotParams, house};
use crate::play_context::{
    PlayContext, Situation, build_play_context, has_level_or_joker, situation_of,
};
use crate::play_facts::{
    facts_of, fh_wild_shape, first_plain, plain_off_level, study, wild_makes_pair,
};
use crate::play_set::{Move, Try, combined, tries};
use crate::scoring_terms::{
    count_follow_points, count_lead_points, count_plan_points, follow_points, is_run_kind,
    lead_points, plan_points, pts,
};
use crate::text::texts;
use crate::wildcard_resolver::{count_wilds, wilds};

verus! {

/// The combination that a legal play forms.
pub open spec fn combo_of(play: Try, ctx: RuleContext) -> Combination {
    combination_of(play.cards, play.targets, ctx)->Some_0
}

/// Someone is about to run out of cards: an opponent with at most two, or the partner with one
/// or two.
pub open spec fn feeding(s: Situation) -> bool {
    s.min_opponent() <= 2 || 1 <= s.partner_left() <= 2
}

/// How groups may be broken up by a lead.
pub open spec fn lead_rules(s: Situation) -> SplitRules {
    SplitRules {
        has_level_card_or_joker: has_level_or_joker(s.hand, s.ctx),
        allow_endgame_split: false,
        unlock_pair_for_single: false,
        unlock_triple_for_pair: false,
        feed_exempt: feeding(s),
    }
}

/// How groups may be broken up by an answer.
pub open spec fn follow_rules(s: Situation) -> SplitRules {
    SplitRules {
        has_level_card_or_joker: has_level_or_joker(s.hand, s.ctx),
        allow_endgame_split: s.endgame() && singles_count(s.hand, s.ctx) == 0 && s.partner_passed,
        unlock_pair_for_single: s.unlock_single,
        unlock_triple_for_pair: s.unlock_pair,
        feed_exempt: false,
    }
}

/// The points of a lead. With at most six cards in hand, and unless someone is about to run
/// out, it also counts in how many tricks the rest goes down.
pub open spec fn lead_score(s: Situation, play: Seq<Card>, c: Combination, solver: bool) -> int {
    let f = facts_of(s, play, c.kind, lead_rules(s));
    lead_points(f, s.params, c) + if solver && s.hand.len() <= 6 && play.len() < s.hand.len()
        && !feeding(s) {
        plan_points(f, s.params, fewest_tricks(leftover(s.hand, play), s.ctx))
    } else {
        0
    }
}

/// The points of an answer. `rescue` is set where every plain answer would strand the wild
/// cards.
pub open spec fn follow_score(
    s: Situation,
    play: Seq<Card>,
    c: Combination,
    top: TopSeen,
    rescue: bool,
) -> int {
    follow_points(
        facts_of(s, play, c.kind, follow_rules(s)),
        s.params,
        c,
        top.combination,
        top.seat == partner_of(s.actor),
        rescue,
    )
}

/// The points of a lead.
pub fn score_lead(
    play: &[Card],
    combo: &Combination,
    p: &PlayContext,
    solver: bool,
    memo: &mut TrickMemo,
) -> (score: i128)
    requires
        p.wf(),
        old(memo).wf(),
        old(memo).rules() == p@.ctx,
    ensures
        score == lead_score(p@, play@, *combo, solver),
        final(memo).wf(),
        final(memo).rules() == old(memo).rules(),
{
    let min_opponent: usize = p.min_opp_remaining();
    let partner: usize = p.teammate_remaining();
    let feed = min_opponent <= 2 || (1 <= partner && partner <= 2);
    let rules = SplitRules {
        has_level_card_or_joker: p.has_level_card_or_joker,
        allow_endgame_split: false,
        unlock_pair_for_single: false,
        unlock_triple_for_pair: false,
        feed_exempt: feed,
    };
    let facts = study(play, combo.kind, p, rules);
    let points: i128 = count_lead_points(facts, p.params, *combo);
    if solver && p.my_hand.len() <= 6 && play.len() < p.my_hand.len() && !feed {
        let rest = take_away(p.my_hand.as_slice(), play);
        let tricks: usize = min_tricks_partition(&rest, memo);
        points + count_plan_points(facts, p.params, tricks)
    } else {
        points
    }
}

/// The points of an answer, with or without the rescue of stranded wild cards.
pub fn score_follow_ex(
    play: &[Card],
    combo: &Combination,
    top: &TopPlay,
    p: &PlayContext,
    rescue: bool,
) -> (score: i128)
    requires
        p.wf(),
    ensures
        score == follow_score(p@, play@, *combo, top@, rescue),
{
    let rules = SplitRules {
        has_level_card_or_joker: p.has_level_card_or_joker,
        allow_endgame_split: p.is_endgame && p.combos.singles_count == 0 && p.teammate_passed_top,
        unlock_pair_for_single: p.unlock_single_follow_split,
        unlock_triple_for_pair: p.unlock_pair_follow_split,
        feed_exempt: false,
    };
    let facts = study(play, combo.kind, p, rules);
    let partner_led = top.seat == p.actor_seat.teammate();
    count_follow_points(facts, p.params, *combo, top.combination, partner_led, rescue)
}

/// The points of an answer.
pub fn score_follow(play: &[Card], combo: &Combination, top: &TopPlay, p: &PlayContext) -> (score:
    i128)
    requires
        p.wf(),
    ensures
        score == follow_score(p@, play@, *combo, top@, false),
{
    score_follow_ex(play, combo, top, p, false)
}

/// Leads that are passed over although they are legal: a wild card that turns a pair into a
/// triple or a single of a full house into its pair, a full house with a wild card that could
/// complete a bomb, and two wild cards from a large hand. Emptying the hand is always
/// allowed, and all but the last are while an opponent is about to run out.
pub open spec fn lead_skipped(s: Situation, play: Seq<Card>, kind: CombinationKind) -> bool {
    let w = wilds(play, s.ctx);
    let house = kind == CombinationKind::Ordinary(OrdinaryKind::FullHouse);
    play.len() < s.hand.len() && ((!s.enemy_within(6) && ((kind == CombinationKind::Ordinary(
        OrdinaryKind::Triple,
    ) && w == 1) || (house && wild_makes_pair(play, s.hand, s.ctx)) || (house && w > 0
        && wild_bomb_at_hand(s.hand, s.ctx)))) || (s.hand.len() > 6 && w >= 2))
}

fn skips_lead(play: &[Card], kind: CombinationKind, p: &PlayContext) -> (b: bool)
    requires
        p.wf(),
    ensures
        b == lead_skipped(p@, play@, kind),
{
    if play.len() >= p.my_hand.len() {
        return false;
    }
    let ctx = p.ctx;
    let w: usize = count_wilds(play, ctx);
    if p.my_hand.len() > 6 && w >= 2 {
        return true;
    }
    if p.enemy_sprinting() {
        return false;
    }
    if kind == CombinationKind::Ordinary(OrdinaryKind::Triple) {
        return w == 1;
    }
    if kind == CombinationKind::Ordinary(OrdinaryKind::FullHouse) {
        let (_, pair) = fh_wild_shape(play, p.my_hand.as_slice(), ctx);
        return pair || (w > 0 && hand_has_wild_bomb_or_sf(p.my_hand.as_slice(), ctx));
    }
    false
}

/// The points of the `i`-th lead.
pub open spec fn lead_score_at(s: Situation, list: Seq<Try>, solver: bool, i: int) -> int {
    lead_score(s, list[i].cards, combo_of(list[i], s.ctx), solver)
}

/// The first best of the first `n` leads that are not passed over.
pub open spec fn best_lead(s: Situation, list: Seq<Try>, solver: bool, n: int) -> Option<int>
    decreases n,
{
    if n <= 0 {
        None
    } else {
        let before = best_lead(s, list, solver, n - 1);
        let kind = combo_of(list[n - 1], s.ctx).kind;
        if lead_skipped(s, list[n - 1].cards, kind) {
            before
        } else {
            match before {
                Some(i) => if lead_score_at(s, list, solver, n - 1) > lead_score_at(
                    s,
                    list,
                    solver,
                    i,
                ) {
                    Some(n - 1)
                } else {
                    before
                },
                None => Some(n - 1),
            }
        }
    }
}

/// The first best of the first `n` leads that are neither passed over nor bombs nor break up
/// a bomb against the rules.
pub open spec fn best_plain_lead(s: Situation, list: Seq<Try>, solver: bool, n: int) -> Option<int>
    decreases n,
{
    if n <= 0 {
        None
    } else {
        let before = best_plain_lead(s, list, solver, n - 1);
        let play = list[n - 1].cards;
        let kind = combo_of(list[n - 1], s.ctx).kind;
        if lead_skipped(s, play, kind) || kind is Bomb || split_verdict(
            play,
            s.hand,
            kind,
            s.hand.len() as int,
        ) == BombSplitVerdict::Banned {
            before
        } else {
            match before {
                Some(i) => if lead_score_at(s, list, solver, n - 1) > lead_score_at(
                    s,
                    list,
                    solver,
                    i,
                ) {
                    Some(n - 1)
                } else {
                    before
                },
                None => Some(n - 1),
            }
        }
    }
}

/// The last best of the first `n` leads, whether passed over or not.
pub open spec fn best_any_lead(s: Situation, list: Seq<Try>, solver: bool, n: int) -> Option<int>
    decreases n,
{
    if n <= 0 {
        None
    } else {
        let before = best_any_lead(s, list, solver, n - 1);
        match before {
            Some(i) => if lead_score_at(s, list, solver, n - 1) >= lead_score_at(
                s,
                list,
                solver,
                i,
            ) {
                Some(n - 1)
            } else {
                before
            },
            None => Some(n - 1),
        }
    }
}

/// A straight flush with a wild card that leaves a straight: the hand goes down in two tricks.
pub open spec fn leaves_plan(s: Situation, play: Seq<Card>, kind: CombinationKind) -> bool {
    kind == CombinationKind::Bomb(BombKind::StraightFlush) && wilds(play, s.ctx) > 0
        && straights_and_singles(leftover(s.hand, play), s.ctx).0 > 0
}

/// The lead to make. A bomb is led only to empty the hand, to leave a straight after a straight
/// flush with a wild card, or when every other lead is barred.
pub open spec fn lead_choice(s: Situation, list: Seq<Try>, solver: bool) -> Option<int> {
    let n = list.len() as int;
    match best_lead(s, list, solver, n) {
        None => best_any_lead(s, list, solver, n),
        Some(i) => if combo_of(list[i], s.ctx).kind is Bomb && list[i].cards.len() < s.hand.len()
            && !leaves_plan(s, list[i].cards, combo_of(list[i], s.ctx).kind) {
            match best_plain_lead(s, list, solver, n) {
                Some(j) => Some(j),
                None => Some(i),
            }
        } else {
            Some(i)
        },
    }
}

/// The moves are a list of plays with their combinations.
spec fn moves_of(moves: Seq<Move>, list: Seq<Try>, s: Situation) -> bool {
    tries(moves) == list && combined(moves, s.ctx)
}

proof fn lemma_move(moves: Seq<Move>, list: Seq<Try>, s: Situation, i: int)
    requires
        moves_of(moves, list, s),
        0 <= i < moves.len(),
    ensures
        list.len() == moves.len(),
        list[i] == moves[i]@,
        list[i].cards == moves[i].cards@,
        combo_of(list[i], s.ctx) == moves[i].combination,
{
    assert(tries(moves)[i] == moves[i]@);
}

fn score_all_leads(moves: &Vec<Move>, p: &PlayContext, solver: bool) -> (scores: Vec<i128>)
    requires
        p.wf(),
        combined(moves@, p@.ctx),
    ensures
        scores@.len() == moves@.len(),
        forall|i: int|
            0 <= i < moves@.len() ==> #[trigger] scores@[i] == lead_score_at(
                p@,
                tries(moves@),
                solver,
                i,
            ),
{
    let mut memo = TrickMemo::new(p.ctx);
    let mut scores: Vec<i128> = Vec::new();
    let ghost list = tries(moves@);
    for i in 0..moves.len()
        invariant
            p.wf(),
            combined(moves@, p@.ctx),
            list == tries(moves@),
            memo.wf(),
            memo.rules() == p@.ctx,
            scores@.len() == i,
            forall|j: int|
                0 <= j < i ==> #[trigger] scores@[j] == lead_score_at(p@, list, solver, j),
    {
        proof {
            lemma_move(moves@, list, p@, i as int);
        }
        let score: i128 = score_lead(
            moves[i].cards.as_slice(),
            &moves[i].combination,
            p,
            solver,
            &mut memo,
        );
        scores.push(score);
    }
    scores
}

/// The numbers are the points of the leads.
spec fn scores_of(scores: Seq<i128>, s: Situation, list: Seq<Try>, solver: bool) -> bool {
    scores.len() == list.len() && forall|j: int|
        0 <= j < scores.len() ==> #[trigger] scores[j] == lead_score_at(s, list, solver, j)
}

spec fn place(at: Option<usize>) -> Option<int> {
    match at {
        Some(j) => Some(j as int),
        None => None,
    }
}

fn find_best_lead(moves: &Vec<Move>, scores: &Vec<i128>, p: &PlayContext, Ghost(solver): Ghost<bool>) -> (best:
    Option<usize>)
    requires
        p.wf(),
        combined(moves@, p@.ctx),
        scores_of(scores@, p@, tries(moves@), solver),
    ensures
        best_lead(p@, tries(moves@), solver, moves@.len() as int) == place(best),
        best matches Some(i) ==> i < moves@.len(),
{
    let ghost list = tries(moves@);
    let mut best: Option<usize> = None;
    for i in 0..moves.len()
        invariant
            p.wf(),
            moves_of(moves@, list, p@),
            scores_of(scores@, p@, list, solver),
            best_lead(p@, list, solver, i as int) == place(best),
            best matches Some(j) ==> j < i,
    {
        proof {
            lemma_move(moves@, list, p@, i as int);
        }
        if !skips_lead(moves[i].cards.as_slice(), moves[i].combination.kind, p) {
            best = match best {
                Some(j) => if scores[i] > scores[j] {
                    Some(i)
                } else {
                    Some(j)
                },
                None => Some(i),
            };
        }
    }
    best
}

fn find_best_plain_lead(
    moves: &Vec<Move>,
    scores: &Vec<i128>,
    p: &PlayContext,
    Ghost(solver): Ghost<bool>,
) -> (best: Option<usize>)
    requires
        p.wf(),
        combined(moves@, p@.ctx),
        scores_of(scores@, p@, tries(moves@), solver),
    ensures
        best_plain_lead(p@, tries(moves@), solver, moves@.len() as int) == place(best),
        best matches Some(i) ==> i < moves@.len(),
{
    let ghost list = tries(moves@);
    let mut best: Option<usize> = None;
    for i in 0..moves.len()
        invariant
            p.wf(),
            moves_of(moves@, list, p@),
            scores_of(scores@, p@, list, solver),
            best_plain_lead(p@, list, solver, i as int) == place(best),
            best matches Some(j) ==> j < i,
    {
        proof {
            lemma_move(moves@, list, p@, i as int);
        }
        let cards = moves[i].cards.as_slice();
        let kind = moves[i].combination.kind;
        let barred = moves[i].combination.is_bomb() || skips_lead(cards, kind, p)
            || classify_bomb_split(cards, p.my_hand.as_slice(), kind, p.my_hand.len())
            == BombSplitVerdict::Banned;
        if !barred {
            best = match best {
                Some(j) => if scores[i] > scores[j] {
                    Some(i)
                } else {
                    Some(j)
                },
                None => Some(i),
            };
        }
    }
    best
}

fn find_best_any_lead(scores: &Vec<i128>, Ghost(s): Ghost<Situation>, Ghost(list): Ghost<Seq<Try>>, Ghost(
    solver,
): Ghost<bool>) -> (best: Option<usize>)
    requires
        scores_of(scores@, s, list, solver),
    ensures
        best_any_lead(s, list, solver, scores@.len() as int) == place(best),
        best matches Some(i) ==> i < scores@.len(),
{
    let mut best: Option<usize> = None;
    for i in 0..scores.len()
        invariant
            scores_of(scores@, s, list, solver),
            best_any_lead(s, list, solver, i as int) == place(best),
            best matches Some(j) ==> j < i,
    {
        best = match best {
            Some(j) => if scores[i] >= scores[j] {
                Some(i)
            } else {
                Some(j)
            },
            None => Some(i),
        };
    }
    best
}

fn has_plan(play: &[Card], kind: CombinationKind, p: &PlayContext) -> (b: bool)
    requires
        p.wf(),
    ensures
        b == leaves_plan(p@, play@, kind),
{
    if kind != CombinationKind::Bomb(BombKind::StraightFlush) || count_wilds(play, p.ctx) == 0 {
        return false;
    }
    let rest = take_away(p.my_hand.as_slice(), play);
    let (straights, _) = sf_leftover_straights_and_singles(rest.as_slice(), p.ctx);
    straights > 0
}

/// The lead to make, by its place among the legal plays.
pub fn choose_lead(moves: &Vec<Move>, p: &PlayContext, solver: bool) -> (choice: Option<usize>)
    requires
        p.wf(),
        combined(moves@, p@.ctx),
    ensures
        match choice {
            Some(i) => lead_choice(p@, tries(moves@), solver) == Some(i as int) && i < moves@.len(),
            None => lead_choice(p@, tries(moves@), solver) is None,
        },
{
    let ghost list = tries(moves@);
    let scores = score_all_leads(moves, p, solver);
    assert(list.len() == moves@.len());
    match find_best_lead(moves, &scores, p, Ghost(solver)) {
        None => find_best_any_lead(&scores, Ghost(p@), Ghost(list), Ghost(solver)),
        Some(i) => {
            proof {
                lemma_move(moves@, list, p@, i as int);
            }
            if moves[i].combination.is_bomb() && moves[i].cards.len() < p.my_hand.len()
                && !has_plan(moves[i].cards.as_slice(), moves[i].combination.kind, p) {
                match find_best_plain_lead(moves, &scores, p, Ghost(solver)) {
                    Some(j) => Some(j),
                    None => Some(i),
                }
            } else {
                Some(i)
            }
        },
    }
}

/// A play that takes some but not all of four or more plain cards of a rank.
pub open spec fn breaks_plain_bomb(s: Situation, play: Seq<Card>) -> bool {
    exists|v: int|
        2 <= v <= 14 && #[trigger] plain_count(s.hand, s.ctx, v) >= 4 && 0 < own_count(
            play,
            s.hand,
            s.ctx,
            v,
        ) < plain_count(s.hand, s.ctx, v)
}

/// An answer of the same kind as the play on the table that costs no wild card and breaks up
/// no bomb.
pub open spec fn natural_answer(s: Situation, play: Try, top: TopSeen) -> bool {
    let kind = combo_of(play, s.ctx).kind;
    !(kind is Bomb) && wilds(play.cards, s.ctx) == 0 && !breaks_plain_bomb(s, play.cards) && kind
        == top.combination.kind
}

/// What the answers have to offer as a whole.
#[derive(Clone, Copy, Debug, PartialEq, Eq, Structural)]
pub struct Answers {
    /// A bomb without a wild card.
    pub plain_bomb: bool,
    /// A natural answer of the same kind.
    pub same_kind: bool,
    /// Every natural answer of the same kind leaves the wild cards stranded.
    pub stranding: bool,
    /// A bomb, other than a straight flush, with a wild card.
    pub wild_bomb: bool,
    /// A straight, tube or plate with a wild card.
    pub wild_run: bool,
    /// Any answer that costs no wild card and breaks up no bomb.
    pub wild_free: bool,
    /// An answer of the same kind that breaks up no bomb, with or without a wild card.
    pub in_kind: bool,
}

pub open spec fn some_answer(list: Seq<Try>, test: spec_fn(Try) -> bool) -> bool {
    exists|i: int| 0 <= i < list.len() && test(#[trigger] list[i])
}

/// A natural answer that does not leave the wild cards stranded.
pub open spec fn keeps_company(s: Situation, play: Try, top: TopSeen) -> bool {
    natural_answer(s, play, top) && !only_wild_left(leftover(s.hand, play.cards), s.ctx)
}

/// An answer of the same kind as the play on the table that breaks up no bomb.
pub open spec fn answers_in_kind(s: Situation, play: Try, top: TopSeen) -> bool {
    let kind = combo_of(play, s.ctx).kind;
    !(kind is Bomb) && !breaks_plain_bomb(s, play.cards) && kind == top.combination.kind
}

/// What the answers have to offer as a whole.
pub open spec fn answers_of(s: Situation, list: Seq<Try>, top: TopSeen) -> Answers {
    let same_kind = some_answer(list, |t: Try| natural_answer(s, t, top));
    Answers {
        plain_bomb: some_answer(
            list,
            |t: Try| combo_of(t, s.ctx).kind is Bomb && wilds(t.cards, s.ctx) == 0,
        ),
        same_kind,
        stranding: same_kind && !some_answer(list, |t: Try| keeps_company(s, t, top)),
        wild_bomb: some_answer(
            list,
            |t: Try|
                combo_of(t, s.ctx).kind is Bomb && combo_of(t, s.ctx).kind != CombinationKind::Bomb(
                    BombKind::StraightFlush,
                ) && wilds(t.cards, s.ctx) > 0,
        ),
        wild_run: some_answer(
            list,
            |t: Try| is_run_kind(combo_of(t, s.ctx).kind) && wilds(t.cards, s.ctx) > 0,
        ),
        wild_free: some_answer(
            list,
            |t: Try| wilds(t.cards, s.ctx) == 0 && !breaks_plain_bomb(s, t.cards),
        ),
        in_kind: some_answer(list, |t: Try| answers_in_kind(s, t, top)),
    }
}

/// Answers that are passed over although they are legal. None is that empties the hand.
pub open spec fn follow_skipped(s: Situation, play: Try, top: TopSeen, a: Answers) -> bool {
    let kind = combo_of(play, s.ctx).kind;
    let w = wilds(play.cards, s.ctx);
    let large = s.hand.len() > 6;
    let calm = !s.enemy_within(6);
    let house = kind == CombinationKind::Ordinary(OrdinaryKind::FullHouse);
    play.cards.len() < s.hand.len() && {
        // A wild card in a bomb where a plain bomb will do.
        ||| a.plain_bomb && kind is Bomb && w > 0
        // A wild card in a bomb against an opponent about to run out where an answer in kind
        // will do.
        ||| a.in_kind && !calm && kind is Bomb && w > 0
        // A wild card from a large hand where the answer needs none.
        ||| a.wild_free && large && w > 0
        // A bomb or wild card where a plain answer of the same kind will do.
        ||| a.same_kind && (kind is Bomb || (w > 0 && !a.stranding))
        // A wild card that turns a pair into a triple.
        ||| kind == CombinationKind::Ordinary(OrdinaryKind::Triple) && w == 1 && calm
        // Three cards of the level and a wild card against an opponent's full house.
        ||| house && top.combination.kind == CombinationKind::Ordinary(OrdinaryKind::FullHouse)
            && enemy_leads(s, top) && w == 1 && own_count(
            play.cards,
            s.hand,
            s.ctx,
            natural(level_rank(s.ctx.hand_level)),
        ) == 3 && calm
        // Two wild cards from a large hand.
        ||| large && w >= 2
        // A wild card that completes the pair of a full house.
        ||| house && wild_makes_pair(play.cards, s.hand, s.ctx) && calm
        // A full house with a wild card where that serves a better combination.
        ||| large && house && w > 0 && (a.wild_bomb || a.wild_run) && calm
        // A wild card in a plain pair from a large hand.
        ||| large && w > 0 && kind == CombinationKind::Ordinary(OrdinaryKind::Pair)
            && !a.stranding && plain_off_level(play.cards, s.ctx)
    }
}

/// The points of the `i`-th answer.
pub open spec fn follow_score_at(
    s: Situation,
    list: Seq<Try>,
    top: TopSeen,
    rescue: bool,
    i: int,
) -> int {
    follow_score(s, list[i].cards, combo_of(list[i], s.ctx), top, rescue)
}

/// The first best of the first `n` answers that are not passed over.
pub open spec fn best_answer(s: Situation, list: Seq<Try>, top: TopSeen, a: Answers, n: int) -> Option<
    int,
>
    decreases n,
{
    if n <= 0 {
        None
    } else {
        let before = best_answer(s, list, top, a, n - 1);
        if follow_skipped(s, list[n - 1], top, a) {
            before
        } else {
            match before {
                Some(i) => if follow_score_at(s, list, top, a.stranding, n - 1) > follow_score_at(
                    s,
                    list,
                    top,
                    a.stranding,
                    i,
                ) {
                    Some(n - 1)
                } else {
                    before
                },
                None => Some(n - 1),
            }
        }
    }
}

/// A hand without any copy of the cards of a play.
pub open spec fn without_copies(hand: Seq<Symbol>, play: Seq<Card>, n: int) -> Seq<Symbol>
    decreases n,
{
    if n <= 0 {
        Seq::empty()
    } else {
        let front = without_copies(hand, play, n - 1);
        match hand[n - 1] {
            Symbol::Known(card) => if play.contains(card) {
                front
            } else {
                front.push(hand[n - 1])
            },
            _ => front.push(hand[n - 1]),
        }
    }
}

/// A single on the table that may be bombed: a joker or a card of the level.
pub open spec fn high_single(top: TopSeen, ctx: RuleContext) -> bool {
    is_joker_symbol(top.cards[0]) || (top.cards[0] is Known && top.cards[0]->Known_0.rank
        == level_rank(ctx.hand_level))
}

/// A pair on the table that may be bombed: jokers or cards of the level.
pub open spec fn high_pair(top: TopSeen, ctx: RuleContext) -> bool {
    shows_joker(top) || forall|i: int|
        0 <= i < top.cards.len() ==> (#[trigger] top.cards[i] is Known
            && top.cards[i]->Known_0.rank == level_rank(ctx.hand_level))
}

/// Whether a bomb is the last one. On a bomb it is where no bomb stays, plain or with the help of a
/// wild card; on any other play plain bombs alone count: one before, or none after.
pub open spec fn last_bomb(s: Situation, play: Try, kind: CombinationKind) -> bool {
    let rest = without_copies(s.hand, play.cards, s.hand.len() as int);
    if kind is Bomb {
        !bomb_stays(rest, s.ctx)
    } else {
        bomb_count(s.hand, s.ctx) == 1 || bomb_count(rest, s.ctx) == 0
    }
}

/// A bomb that is better kept.
pub open spec fn bomb_withheld(s: Situation, play: Try, top: TopSeen) -> bool {
    let kind = top.combination.kind;
    let early = s.hand.len() > 6 && !s.enemy_within(6) && play.cards.len() < s.hand.len();
    let wild_first = wilds(play.cards, s.ctx) > 0 && wild_bomb_at_hand(s.hand, s.ctx);
    // The last bomb.
    ||| early && !wild_first && last_bomb(s, play, kind)
    // The partner's play.
    ||| top.seat == partner_of(s.actor)
    // A low single or pair.
    ||| kind == CombinationKind::Ordinary(OrdinaryKind::Single) && top.cards.len() == 1
        && !high_single(top, s.ctx)
    ||| kind == CombinationKind::Ordinary(OrdinaryKind::Pair) && !high_pair(top, s.ctx)
    // A triple, or a full house below the queen.
    ||| early && !wild_first && (kind == CombinationKind::Ordinary(OrdinaryKind::Triple) || (kind
        == CombinationKind::Ordinary(OrdinaryKind::FullHouse) && top.combination.primary < 11))
}

/// The answer to give once the decision to answer was made; none is a pass.
pub open spec fn answer_choice(s: Situation, list: Seq<Try>, top: TopSeen) -> Option<int> {
    let a = answers_of(s, list, top);
    match best_answer(s, list, top, a, list.len() as int) {
        None => None,
        Some(i) => if combo_of(list[i], s.ctx).kind is Bomb && bomb_withheld(s, list[i], top) {
            None
        } else if follow_score_at(s, list, top, a.stranding, i) < pts(-1000) {
            None
        } else {
            Some(i)
        },
    }
}

/// The answer to give; none is a pass. The last card is played whenever it can be, and a
/// partner with few cards is let through unless the own hand goes down at once.
pub open spec fn follow_choice(s: Situation, list: Seq<Try>, top: TopSeen) -> Option<int> {
    if list.len() == 0 {
        None
    } else if s.hand.len() == 1 {
        Some(0)
    } else if top.seat == partner_of(s.actor) && 1 <= s.partner_left() <= 6 && !some_answer(
        list,
        |t: Try| t.cards.len() >= s.hand.len(),
    ) {
        None
    } else if lets_stand(s, top) {
        None
    } else {
        answer_choice(s, list, top)
    }
}

fn splits_plain_bomb(play: &[Card], p: &PlayContext) -> (b: bool)
    requires
        p.wf(),
    ensures
        b == breaks_plain_bomb(p@, play@),
{
    let used = count_own(play, p.my_hand.as_slice(), p.ctx);
    for v in 2..15
        invariant
            p.wf(),
            used@.len() == 15,
            forall|v: int|
                2 <= v <= 14 ==> #[trigger] used@[v] == own_count(play@, p@.hand, p@.ctx, v),
            forall|u: int|
                2 <= u < v ==> !(#[trigger] plain_count(p@.hand, p@.ctx, u) >= 4 && 0 < own_count(
                    play@,
                    p@.hand,
                    p@.ctx,
                    u,
                ) < plain_count(p@.hand, p@.ctx, u)),
    {
        let held: usize = p.combos.counts[v];
        if held >= 4 && used[v] > 0 && used[v] < held {
            assert(plain_count(p@.hand, p@.ctx, v as int) >= 4);
            return true;
        }
    }
    false
}

fn runs(kind: CombinationKind) -> (b: bool)
    ensures
        b == is_run_kind(kind),
{
    kind == CombinationKind::Ordinary(OrdinaryKind::Straight) || kind == CombinationKind::Ordinary(
        OrdinaryKind::Tube,
    ) || kind == CombinationKind::Ordinary(OrdinaryKind::Plate)
}

/// The first `n` plays of a list have one that passes a test if and only if `found`.
spec fn found_in(found: bool, list: Seq<Try>, test: spec_fn(Try) -> bool, n: int) -> bool {
    found == exists|i: int| 0 <= i < n && test(#[trigger] list[i])
}

proof fn lemma_found_step(found: bool, list: Seq<Try>, test: spec_fn(Try) -> bool, n: int)
    requires
        found_in(found, list, test, n),
        0 <= n < list.len(),
    ensures
        found_in(found || test(list[n]), list, test, n + 1),
{
    if test(list[n]) {
        assert(test(list[n]));
    } else if found {
        let i = choose|i: int| 0 <= i < n && test(#[trigger] list[i]);
        assert(test(list[i]));
    }
}

fn survey(moves: &Vec<Move>, top: &TopPlay, p: &PlayContext) -> (a: Answers)
    requires
        p.wf(),
        combined(moves@, p@.ctx),
    ensures
        a == answers_of(p@, tries(moves@), top@),
{
    let ghost list = tries(moves@);
    let ghost s = p@;
    let ghost t0 = top@;
    let ghost f_plain = |t: Try| combo_of(t, s.ctx).kind is Bomb && wilds(t.cards, s.ctx) == 0;
    let ghost f_same = |t: Try| natural_answer(s, t, t0);
    let ghost f_kept = |t: Try| keeps_company(s, t, t0);
    let ghost f_bomb = |t: Try|
        combo_of(t, s.ctx).kind is Bomb && combo_of(t, s.ctx).kind != CombinationKind::Bomb(
            BombKind::StraightFlush,
        ) && wilds(t.cards, s.ctx) > 0;
    let ghost f_run = |t: Try| is_run_kind(combo_of(t, s.ctx).kind) && wilds(t.cards, s.ctx) > 0;
    let ghost f_free = |t: Try| wilds(t.cards, s.ctx) == 0 && !breaks_plain_bomb(s, t.cards);
    let ghost f_kind = |t: Try| answers_in_kind(s, t, t0);
    let mut plain_bomb = false;
    let mut same_kind = false;
    let mut kept = false;
    let mut wild_bomb = false;
    let mut wild_run = false;
    let mut wild_free = false;
    let mut in_kind = false;
    for i in 0..moves.len()
        invariant
            p.wf(),
            moves_of(moves@, list, p@),
            s == p@,
            t0 == top@,
            f_plain == (|t: Try|
                combo_of(t, s.ctx).kind is Bomb && wilds(t.cards, s.ctx) == 0),
            f_same == (|t: Try| natural_answer(s, t, t0)),
            f_kept == (|t: Try| keeps_company(s, t, t0)),
            f_bomb == (|t: Try|
                combo_of(t, s.ctx).kind is Bomb && combo_of(t, s.ctx).kind
                    != CombinationKind::Bomb(BombKind::StraightFlush) && wilds(t.cards, s.ctx)
                    > 0),
            f_run == (|t: Try| is_run_kind(combo_of(t, s.ctx).kind) && wilds(t.cards, s.ctx) > 0),
            f_free == (|t: Try|
                wilds(t.cards, s.ctx) == 0 && !breaks_plain_bomb(s, t.cards)),
            f_kind == (|t: Try| answers_in_kind(s, t, t0)),
            found_in(in_kind, list, f_kind, i as int),
            found_in(plain_bomb, list, f_plain, i as int),
            found_in(same_kind, list, f_same, i as int),
            found_in(kept, list, f_kept, i as int),
            found_in(wild_bomb, list, f_bomb, i as int),
            found_in(wild_run, list, f_run, i as int),
            found_in(wild_free, list, f_free, i as int),
    {
        proof {
            lemma_move(moves@, list, p@, i as int);
            lemma_found_step(plain_bomb, list, f_plain, i as int);
            lemma_found_step(same_kind, list, f_same, i as int);
            lemma_found_step(kept, list, f_kept, i as int);
            lemma_found_step(wild_bomb, list, f_bomb, i as int);
            lemma_found_step(wild_run, list, f_run, i as int);
            lemma_found_step(wild_free, list, f_free, i as int);
            lemma_found_step(in_kind, list, f_kind, i as int);
        }
        let cards = moves[i].cards.as_slice();
        let kind = moves[i].combination.kind;
        let bomb = moves[i].combination.is_bomb();
        let wild = count_wilds(cards, p.ctx) > 0;
        let breaks = splits_plain_bomb(cards, p);
        let natural = !bomb && !wild && !breaks && kind == top.combination.kind;
        let strands = leftover_all_wild(
            take_away(p.my_hand.as_slice(), cards).as_slice(),
            p.ctx,
        );
        plain_bomb = plain_bomb || (bomb && !wild);
        same_kind = same_kind || natural;
        kept = kept || (natural && !strands);
        wild_bomb = wild_bomb || (bomb && wild && kind != CombinationKind::Bomb(
            BombKind::StraightFlush,
        ));
        wild_run = wild_run || (wild && runs(kind));
        wild_free = wild_free || (!wild && !breaks);
        in_kind = in_kind || (!bomb && !breaks && kind == top.combination.kind);
    }
    assert(list.len() == moves@.len());
    Answers {
        plain_bomb,
        same_kind,
        stranding: same_kind && !kept,
        wild_bomb,
        wild_run,
        wild_free,
        in_kind,
    }
}

fn starts_off_level(play: &[Card], ctx: RuleContext) -> (b: bool)
    ensures
        b == plain_off_level(play@, ctx),
{
    let level = ctx.hand_level.to_rank();
    let mut i: usize = 0;
    while i < play.len()
        invariant
            i <= play@.len(),
            level == level_rank(ctx.hand_level),
            first_plain(play@, ctx, 0) == first_plain(play@, ctx, i as int),
        decreases play@.len() - i,
    {
        if !is_wild(play[i], ctx) && play[i].suit != Suit::Joker {
            return play[i].rank != level;
        }
        i = i + 1;
    }
    false
}

fn skips_answer(play: &Move, top: &TopPlay, p: &PlayContext, a: Answers) -> (b: bool)
    requires
        p.wf(),
        combination_of(play@.cards, play@.targets, p@.ctx) == Some(play.combination),
    ensures
        b == follow_skipped(p@, play@, top@, a),
{
    let cards = play.cards.as_slice();
    let hand = p.my_hand.as_slice();
    let ctx = p.ctx;
    if cards.len() >= hand.len() {
        return false;
    }
    let kind = play.combination.kind;
    let bomb = play.combination.is_bomb();
    let w: usize = count_wilds(cards, ctx);
    let large = hand.len() > 6;
    if a.same_kind && bomb {
        return true;
    }
    if w == 0 {
        return false;
    }
    if (a.plain_bomb && bomb) || (a.wild_free && large) || (a.same_kind && !a.stranding) || (large
        && w >= 2) {
        return true;
    }
    if large && kind == CombinationKind::Ordinary(OrdinaryKind::Pair) && !a.stranding
        && starts_off_level(cards, ctx) {
        return true;
    }
    if p.enemy_sprinting() {
        return a.in_kind && bomb;
    }
    if kind == CombinationKind::Ordinary(OrdinaryKind::Triple) {
        return w == 1;
    }
    if kind == CombinationKind::Ordinary(OrdinaryKind::FullHouse) {
        if large && (a.wild_bomb || a.wild_run) {
            return true;
        }
        let (_, pair) = fh_wild_shape(cards, hand, ctx);
        if pair {
            return true;
        }
        let enemy = top.seat != p.actor_seat.teammate() && top.seat != p.actor_seat;
        let used = count_own(cards, hand, ctx);
        let level: usize = natural_of(ctx.hand_level.to_rank()) as usize;
        return top.combination.kind == CombinationKind::Ordinary(OrdinaryKind::FullHouse) && enemy
            && w == 1 && used[level] == 3;
    }
    false
}

fn drop_copies(hand: &[Symbol], play: &[Card]) -> (rest: Vec<Symbol>)
    ensures
        rest@ == without_copies(hand@, play@, hand@.len() as int),
{
    let mut rest: Vec<Symbol> = Vec::new();
    for i in 0..hand.len()
        invariant
            rest@ == without_copies(hand@, play@, i as int),
    {
        let symbol = hand[i];
        let mut keep = true;
        if let Symbol::Known(card) = symbol {
            for j in 0..play.len()
                invariant
                    keep == forall|x: int| 0 <= x < j ==> #[trigger] play@[x] != card,
            {
                if play[j] == card {
                    keep = false;
                }
            }
            assert(keep == !play@.contains(card)) by {
                if play@.contains(card) {
                    let x = play@.index_of(card);
                    assert(play@[x] == card);
                }
            }
        }
        if keep {
            rest.push(symbol);
        }
    }
    rest
}

fn pair_is_high(top: &TopPlay, ctx: RuleContext) -> (b: bool)
    ensures
        b == high_pair(top@, ctx),
{
    if top_has_joker(top) {
        return true;
    }
    let level = ctx.hand_level.to_rank();
    for i in 0..top.cards.len()
        invariant
            level == level_rank(ctx.hand_level),
            !shows_joker(top@),
            forall|j: int|
                0 <= j < i ==> (#[trigger] top@.cards[j] is Known && top@.cards[j]->Known_0.rank
                    == level),
    {
        let symbol = top.cards[i];
        let fine = match symbol {
            Symbol::Known(card) => card.rank == level,
            _ => false,
        };
        if !fine {
            assert(!(top@.cards[i as int] is Known && top@.cards[i as int]->Known_0.rank == level));
            return false;
        }
    }
    true
}

fn single_is_high(top: &TopPlay, ctx: RuleContext) -> (b: bool)
    requires
        top@.cards.len() > 0,
    ensures
        b == high_single(top@, ctx),
{
    let first = top.cards[0];
    symbol_is_joker(first) || match first {
        Symbol::Known(card) => card.rank == ctx.hand_level.to_rank(),
        _ => false,
    }
}

fn is_last_bomb(hand: &[Symbol], rest: &[Symbol], kind: CombinationKind, ctx: RuleContext) -> (b: bool)
    ensures
        b == if kind is Bomb {
            !bomb_stays(rest@, ctx)
        } else {
            bomb_count(hand@, ctx) == 1 || bomb_count(rest@, ctx) == 0
        },
{
    match kind {
        CombinationKind::Bomb(_) => !still_has_bomb(rest, ctx),
        CombinationKind::Ordinary(_) => analyze_hand_combos(hand, ctx).bomb_count == 1
            || analyze_hand_combos(rest, ctx).bomb_count == 0,
    }
}

fn withholds_bomb(play: &Move, top: &TopPlay, p: &PlayContext) -> (b: bool)
    requires
        p.wf(),
    ensures
        b == bomb_withheld(p@, play@, top@),
{
    let ctx = p.ctx;
    let cards = play.cards.as_slice();
    let hand = p.my_hand.as_slice();
    let kind = top.combination.kind;
    if top.seat == p.actor_seat.teammate() {
        return true;
    }
    if kind == CombinationKind::Ordinary(OrdinaryKind::Single) && top.cards.len() == 1
        && !single_is_high(top, ctx) {
        return true;
    }
    if kind == CombinationKind::Ordinary(OrdinaryKind::Pair) && !pair_is_high(top, ctx) {
        return true;
    }
    if hand.len() <= 6 || p.enemy_sprinting() || cards.len() >= hand.len() {
        return false;
    }
    if count_wilds(cards, ctx) > 0 && hand_has_wild_bomb_or_sf(hand, ctx) {
        return false;
    }
    let rest = drop_copies(hand, cards);
    if is_last_bomb(hand, rest.as_slice(), kind, ctx) {
        return true;
    }
    kind == CombinationKind::Ordinary(OrdinaryKind::Triple) || (kind == CombinationKind::Ordinary(
        OrdinaryKind::FullHouse,
    ) && top.combination.primary < 11)
}

/// The answer to give, by its place among the legal plays; none is a pass.
pub fn find_best_play_follow(moves: &Vec<Move>, top: &TopPlay, p: &PlayContext) -> (choice: Option<
    usize,
>)
    requires
        p.wf(),
        combined(moves@, p@.ctx),
    ensures
        match choice {
            Some(i) => answer_choice(p@, tries(moves@), top@) == Some(i as int) && i < moves@.len(),
            None => answer_choice(p@, tries(moves@), top@) is None,
        },
{
    let ghost list = tries(moves@);
    let a = survey(moves, top, p);
    let mut best: Option<usize> = None;
    let mut best_score: i128 = 0;
    for i in 0..moves.len()
        invariant
            p.wf(),
            moves_of(moves@, list, p@),
            best_answer(p@, list, top@, a, i as int) == match best {
                Some(j) => Some(j as int),
                None => None,
            },
            best matches Some(j) ==> j < i && best_score == follow_score_at(
                p@,
                list,
                top@,
                a.stranding,
                j as int,
            ),
    {
        proof {
            lemma_move(moves@, list, p@, i as int);
        }
        if !skips_answer(&moves[i], top, p, a) {
            let score: i128 = score_follow_ex(
                moves[i].cards.as_slice(),
                &moves[i].combination,
                top,
                p,
                a.stranding,
            );
            if best.is_none() || score > best_score {
                best = Some(i);
                best_score = score;
            }
        }
    }
    assert(list.len() == moves@.len());
    match best {
        None => None,
        Some(i) => {
            proof {
                lemma_move(moves@, list, p@, i as int);
            }
            if moves[i].combination.is_bomb() && withholds_bomb(&moves[i], top, p) {
                return None;
            }
            if best_score < -100_000_000_000 {
                None
            } else {
                Some(i)
            }
        },
    }
}

fn can_empty_hand(moves: &Vec<Move>, held: usize) -> (b: bool)
    ensures
        b == some_answer(tries(moves@), |t: Try| t.cards.len() >= held),
{
    let ghost test = |t: Try| t.cards.len() >= held;
    for i in 0..moves.len()
        invariant
            test == (|t: Try| t.cards.len() >= held),
            forall|j: int| 0 <= j < i ==> !test(#[trigger] tries(moves@)[j]),
    {
        assert(tries(moves@)[i as int] == moves@[i as int]@);
        if moves[i].cards.len() >= held {
            assert(test(tries(moves@)[i as int]));
            return true;
        }
    }
    false
}

/// The answer to give, by its place among the legal plays; none is a pass.
pub fn choose_answer(moves: &Vec<Move>, top: &TopPlay, p: &PlayContext) -> (choice: Option<usize>)
    requires
        p.wf(),
        combined(moves@, p@.ctx),
    ensures
        match choice {
            Some(i) => follow_choice(p@, tries(moves@), top@) == Some(i as int) && i < moves@.len(),
            None => follow_choice(p@, tries(moves@), top@) is None,
        },
{
    assert(tries(moves@).len() == moves@.len());
    if moves.len() == 0 {
        return None;
    }
    let held: usize = p.my_hand.len();
    if held == 1 {
        return Some(0);
    }
    let partner: usize = p.teammate_remaining();
    if top.seat == p.actor_seat.teammate() && 1 <= partner && partner <= 6 && !can_empty_hand(
        moves,
        held,
    ) {
        return None;
    }
    if decide_follow(top, p) == FollowDecision::Pass {
        return None;
    }
    find_best_play_follow(moves, top, p)
}

/// What a leader puts down where no play is listed: the first of the hand alone, if it is a card.
pub open spec fn bare_lead(held: Seq<String>, list: Seq<Try>) -> Option<Action> {
    if list.len() == 0 && held.len() > 0 && card_named(held[0]@) is Some {
        Some(Action::Play { cards: seq![held[0]@], wild_targets: None })
    } else {
        None
    }
}

/// The action of a player who has to play or follow.
pub open spec fn playing_choice(
    hand: HandState,
    actor: Seat,
    params: AdvancedBotParams,
    solver: bool,
) -> Result<Action, Seq<char>> {
    let s = situation_of(hand, actor, params);
    let list = plays(Board { hand: s.hand, ctx: s.ctx, top: top_of(hand) });
    match held_by(hand, actor) {
        None => Err("missing actor hand"@),
        Some(held) => match hand.trick.top_play {
            None => match lead_choice(s, list, solver) {
                Some(i) => Ok(action_of(list[i])),
                None => match bare_lead(held, list) {
                    Some(action) => Ok(action),
                    None => Err("suggest: no lead play available"@),
                },
            },
            Some(top) => match follow_choice(s, list, top_seen(top)) {
                Some(i) => Ok(action_of(list[i])),
                None => Ok(Action::Pass),
            },
        },
    }
}

/// An action or a message, as expected.
pub open spec fn suggests(
    found: Result<PlayerAction, String>,
    expected: Result<Action, Seq<char>>,
) -> bool {
    match found {
        Ok(action) => expected == Ok::<Action, Seq<char>>(action@),
        Err(message) => expected == Err::<Action, Seq<char>>(message@),
    }
}

fn find_bare_lead(held: &Vec<String>, moves: &Vec<Move>) -> (found: Option<PlayerAction>)
    ensures
        match found {
            Some(action) => bare_lead(held@, tries(moves@)) == Some(action@),
            None => bare_lead(held@, tries(moves@)) is None,
        },
{
    assert(tries(moves@).len() == moves@.len());
    if moves.len() > 0 || held.len() == 0 || read_card(held[0].as_str()).is_none() {
        return None;
    }
    let cards = vec![held[0].clone()];
    assert(texts(cards@) =~= seq![held@[0]@]);
    Some(PlayerAction::Play { cards, wild_targets: None })
}

fn pick_playing(hand: &HandState, actor: Seat, params: AdvancedBotParams, solver: bool) -> (found:
    Result<PlayerAction, String>)
    requires
        params.ok(),
    ensures
        suggests(found, playing_choice(*hand, actor, params, solver)),
{
    let held = match hand.hands.get(actor) {
        Some(h) => h,
        None => {
            return Err("missing actor hand".to_owned());
        },
    };
    let p = build_play_context(hand, actor, params);
    let top: Option<Combination> = match &hand.trick.top_play {
        Some(play) => Some(play.combination),
        None => None,
    };
    let moves = find_plays(p.my_hand.as_slice(), p.ctx, top);
    let ghost list = tries(moves@);
    match &hand.trick.top_play {
        None => match choose_lead(&moves, &p, solver) {
            Some(i) => {
                assert(list[i as int] == moves@[i as int]@);
                Ok(write_action(&moves[i]))
            },
            None => match find_bare_lead(held, &moves) {
                Some(action) => Ok(action),
                None => Err("suggest: no lead play available".to_owned()),
            },
        },
        Some(play) => {
            let seen = read_top(play);
            match choose_answer(&moves, &seen, &p) {
                Some(i) => {
                    assert(list[i as int] == moves@[i as int]@);
                    Ok(write_action(&moves[i]))
                },
                None => Ok(PlayerAction::Pass),
            }
        },
    }
}

/// The card of a tribute or of a return.
pub open spec fn card_text(action: Action, tribute: bool) -> Option<Seq<char>> {
    match action {
        Action::Tribute { card } => if tribute {
            Some(card)
        } else {
            None
        },
        Action::ReturnCard { card } => if tribute {
            None
        } else {
            Some(card)
        },
        _ => None,
    }
}

/// How cards compare that are given away: by their order, then by suit.
pub open spec fn gift_order(card: Card, ctx: RuleContext) -> int {
    10 * rank_order(card.rank, ctx) + suit_order(card.suit)
}

/// Which of the first `n` actions gives away the lowest card, or a message about the first
/// text that names none.
pub open spec fn lowest_gift(list: Seq<Action>, ctx: RuleContext, tribute: bool, n: int) -> Result<
    Option<int>,
    Seq<char>,
>
    decreases n,
{
    if n <= 0 {
        Ok(None)
    } else {
        match lowest_gift(list, ctx, tribute, n - 1) {
            Err(message) => Err(message),
            Ok(before) => match card_text(list[n - 1], tribute) {
                None => Ok(before),
                Some(text) => match card_named(text) {
                    None => Err(not_a_card(text)),
                    Some(card) => match before {
                        None => Ok(Some(n - 1)),
                        Some(i) => if gift_order(card, ctx) < gift_order(
                            card_named(card_text(list[i], tribute)->Some_0)->Some_0,
                            ctx,
                        ) {
                            Ok(Some(n - 1))
                        } else {
                            Ok(before)
                        },
                    },
                },
            },
        }
    }
}

proof fn lemma_lowest_prefix(list: Seq<Action>, ctx: RuleContext, tribute: bool, n: int)
    requires
        0 <= n <= list.len(),
        lowest_gift(list, ctx, tribute, n) is Err,
    ensures
        lowest_gift(list, ctx, tribute, list.len() as int) == lowest_gift(list, ctx, tribute, n),
    decreases list.len() - n,
{
    if n < list.len() {
        lemma_lowest_prefix(list, ctx, tribute, n + 1);
    }
}

/// The lowest card to give away, of a list of tributes or returns.
pub open spec fn gift_choice(list: Seq<Action>, ctx: RuleContext, tribute: bool) -> Result<
    Action,
    Seq<char>,
> {
    match lowest_gift(list, ctx, tribute, list.len() as int) {
        Err(message) => Err(message),
        Ok(Some(i)) => Ok(list[i]),
        Ok(None) => Err(
            if tribute {
                "suggest: no tribute action"@
            } else {
                "suggest: no return_card action"@
            },
        ),
    }
}

fn suit_rank(suit: Suit) -> (n: u16)
    ensures
        n == suit_order(suit),
        n <= 4,
{
    match suit {
        Suit::Spades => 0,
        Suit::Clubs => 1,
        Suit::Hearts => 2,
        Suit::Diamonds => 3,
        Suit::Joker => 4,
    }
}

fn pick_lowest_card_action(legal: &Vec<PlayerAction>, ctx: RuleContext, tribute: bool) -> (found:
    Result<PlayerAction, String>)
    ensures
        suggests(found, gift_choice(actions(legal@), ctx, tribute)),
{
    let ghost list = actions(legal@);
    let mut best: Option<usize> = None;
    let mut best_order: u16 = 0;
    for i in 0..legal.len()
        invariant
            list == actions(legal@),
            lowest_gift(list, ctx, tribute, i as int) == Ok::<Option<int>, Seq<char>>(
                match best {
                    Some(j) => Some(j as int),
                    None => None,
                },
            ),
            best matches Some(j) ==> j < i && best_order == gift_order(
                card_named(card_text(list[j as int], tribute)->Some_0)->Some_0,
                ctx,
            ),
    {
        assert(list[i as int] == legal@[i as int]@);
        let text: Option<&String> = match &legal[i] {
            PlayerAction::Tribute { card } => if tribute {
                Some(card)
            } else {
                None
            },
            PlayerAction::ReturnCard { card } => if tribute {
                None
            } else {
                Some(card)
            },
            _ => None,
        };
        if let Some(symbol) = text {
            match parse_card_symbol(symbol.as_str()) {
                Ok(card) => {
                    let order: u16 = 10 * level_order_value(card, ctx) as u16 + suit_rank(
                        card.suit,
                    );
                    if best.is_none() || order < best_order {
                        best = Some(i);
                        best_order = order;
                    }
                },
                Err(message) => {
                    proof {
                        lemma_lowest_prefix(list, ctx, tribute, i + 1);
                    }
                    return Err(message);
                },
            }
        }
    }
    match best {
        Some(i) => {
            assert(list[i as int] == legal@[i as int]@);
            Ok(legal[i].duplicate())
        },
        None => if tribute {
            Err("suggest: no tribute action".to_owned())
        } else {
            Err("suggest: no return_card action".to_owned())
        },
    }
}

/// The action to take with given weights, or why there is none.
pub open spec fn suggestion(
    state: TableGameState,
    actor: Seat,
    params: AdvancedBotParams,
    solver: bool,
) -> Result<Action, Seq<char>> {
    match state.hand {
        Some(hand) if actor_of(state) == Some(actor) => {
            let ctx = RuleContext { hand_level: hand.hand_level };
            match state.phase {
                GamePhase::Playing => playing_choice(hand, actor, params, solver),
                GamePhase::Tribute => {
                    let list = tribute_actions(held_by(hand, actor), ctx);
                    if list.len() == 0 {
                        Err("no legal actions"@)
                    } else {
                        gift_choice(list, ctx, true)
                    }
                },
                _ => match return_actions(hand, actor) {
                    Err(message) => Err(message),
                    Ok(list) => if list.len() == 0 {
                        Err("no legal actions"@)
                    } else {
                        gift_choice(list, ctx, false)
                    },
                },
            }
        },
        _ => Err("not actor turn"@),
    }
}

/// The action to take with given weights. With `solver` off, leads from small hands are not
/// judged by the number of tricks that are left.
pub fn suggest_with(
    state: &TableGameState,
    actor: Seat,
    params: AdvancedBotParams,
    solver: bool,
) -> (found: Result<PlayerAction, String>)
    requires
        params.ok(),
    ensures
        suggests(found, suggestion(*state, actor, params, solver)),
{
    if current_actor_seat(state) != Some(actor) {
        return Err("not actor turn".to_owned());
    }
    let hand = match &state.hand {
        Some(h) => h,
        None => {
            return Err("not actor turn".to_owned());
        },
    };
    let ctx = RuleContext { hand_level: hand.hand_level };
    match state.phase {
        GamePhase::Playing => pick_playing(hand, actor, params, solver),
        GamePhase::Tribute => {
            let legal = enumerate_tribute(hand, actor, ctx);
            assert(actions(legal@).len() == legal@.len());
            if legal.len() == 0 {
                return Err("no legal actions".to_owned());
            }
            pick_lowest_card_action(&legal, ctx, true)
        },
        _ => match enumerate_return(hand, actor) {
            Err(message) => Err(message),
            Ok(legal) => {
                assert(actions(legal@).len() == legal@.len());
                if legal.len() == 0 {
                    return Err("no legal actions".to_owned());
                }
                pick_lowest_card_action(&legal, ctx, false)
            },
        },
    }
}

/// The action to take under the house rules.
pub fn suggest_next_action(state: &TableGameState, actor: Seat) -> (found: Result<
    PlayerAction,
    String,
>)
    ensures
        suggests(found, suggestion(*state, actor, house(), true)),
{
    suggest_with(state, actor, AdvancedBotParams::house_params(), true)
}

} // verus!
