//! Whether to answer the play on the table at all.

use vstd::prelude::*;
use crate::cards::{Rank, RuleContext, Symbol, level_rank, read_symbols, symbols_named};
use crate::combination_parser::{Combination, CombinationKind, OrdinaryKind};
use crate::domain::{Seat, partner_of};
use crate::game_types::PlayState;
use crate::leftovers::{is_joker_symbol, symbol_is_joker};
use crate::params::{UNIT, weight_ok};
use crate::play_context::{Chance, Odds, PlayContext, Situation, rank_slot, slot};

verus! {

/// The play on the table.
#[derive(Debug)]
pub struct TopPlay {
    pub seat: Seat,
    pub cards: Vec<Symbol>,
    pub combination: Combination,
}

/// The contents of the play on the table.
pub ghost struct TopSeen {
    pub seat: Seat,
    pub cards: Seq<Symbol>,
    pub combination: Combination,
}

impl View for TopPlay {
    type V = TopSeen;

    open spec fn view(&self) -> TopSeen {
        TopSeen { seat: self.seat, cards: self.cards@, combination: self.combination }
    }
}

/// What a play on the table shows.
pub open spec fn top_seen(play: PlayState) -> TopSeen {
    TopSeen {
        seat: play.seat,
        cards: symbols_named(play.cards@),
        combination: play.combination,
    }
}

/// Reads the play on the table.
pub fn read_top(play: &PlayState) -> (top: TopPlay)
    ensures
        top@ == top_seen(*play),
{
    TopPlay {
        seat: play.seat,
        cards: read_symbols(play.cards.as_slice()),
        combination: play.combination,
    }
}

/// The rank of the first card of a play, if it has one.
pub open spec fn lead_rank(top: TopSeen) -> Option<Rank> {
    if top.cards.len() > 0 {
        match top.cards[0] {
            Symbol::Known(card) => Some(card.rank),
            _ => None,
        }
    } else {
        None
    }
}

/// Whether a play has a joker.
pub open spec fn shows_joker(top: TopSeen) -> bool {
    exists|i: int| 0 <= i < top.cards.len() && is_joker_symbol(#[trigger] top.cards[i])
}

/// Plays of the partner that are never taken over: bombs, cards of the level, jokers, plates
/// and tubes, pairs from the king up, full houses from the ten up, anything from the queen up.
pub open spec fn partner_stands(top: TopSeen, ctx: RuleContext) -> bool {
    let kind = top.combination.kind;
    let primary = top.combination.primary;
    ||| kind is Bomb
    ||| lead_rank(top) == Some(level_rank(ctx.hand_level))
    ||| shows_joker(top)
    ||| kind == CombinationKind::Ordinary(OrdinaryKind::Plate)
    ||| kind == CombinationKind::Ordinary(OrdinaryKind::Tube)
    ||| kind == CombinationKind::Ordinary(OrdinaryKind::Pair) && primary >= 12
    ||| kind == CombinationKind::Ordinary(OrdinaryKind::FullHouse) && primary >= 9
    ||| primary >= 11
}

/// A chance is below a weight.
pub open spec fn odds_below(odds: Odds, w: i64) -> bool {
    odds.num * UNIT < w * odds.den
}

/// A chance is above a weight.
pub open spec fn odds_above(odds: Odds, w: i64) -> bool {
    odds.num * UNIT > w * odds.den
}

pub open spec fn enemy_leads(s: Situation, top: TopSeen) -> bool {
    top.seat != partner_of(s.actor) && top.seat != s.actor
}

pub open spec fn lead_slot(top: TopSeen) -> int {
    match lead_rank(top) {
        Some(rank) => slot(rank),
        None => 0,
    }
}

/// What speaks for passing.
pub open spec fn pass_points(s: Situation, top: TopSeen) -> int {
    let p = s.params;
    let partner_leads = top.seat == partner_of(s.actor);
    (if partner_leads && p.hand_tracker_enabled && !odds_below(
        s.others_rank_odds(lead_slot(top)),
        p.prob_threshold_for_intercept,
    ) {
        p.yield_to_partner_bias as int
    } else {
        0
    }) + (if enemy_leads(s, top) && p.hand_tracker_enabled && odds_above(
        s.enemy_bomb_odds(),
        p.prob_threshold_for_bomb,
    ) {
        2 * p.bomb_conserve_bias
    } else {
        0
    }) + (if s.partner_left() <= p.partner_sprint_threshold && !enemy_leads(s, top) {
        2 * p.second_out_weight
    } else {
        0
    }) + (if p.hand_tracker_enabled && odds_above(s.win_odds(), 70_000_000) && !enemy_leads(
        s,
        top,
    ) {
        UNIT as int
    } else {
        0
    })
}

/// What speaks for playing.
pub open spec fn play_points(s: Situation, top: TopSeen) -> int {
    let p = s.params;
    let partner_leads = top.seat == partner_of(s.actor);
    (if partner_leads && p.hand_tracker_enabled && odds_below(
        s.others_rank_odds(lead_slot(top)),
        p.prob_threshold_for_intercept,
    ) {
        2 * p.low_card_dump_bias
    } else {
        0
    }) + (if enemy_leads(s, top) {
        2 * UNIT + (if s.enemy_within(p.enemy_low_cards_threshold as int) {
            p.bomb_aggression_when_enemy_low as int
        } else {
            0
        }) + (if s.endgame() {
            p.endgame_clear_hand_bias as int
        } else {
            0
        })
    } else if !partner_leads {
        p.proactive_play_bias as int
    } else {
        0
    }) + (if p.hand_tracker_enabled && !(odds_above(s.win_odds(), 70_000_000) && !enemy_leads(
        s,
        top,
    )) && odds_below(s.win_odds(), 30_000_000) {
        150_000_000int
    } else {
        0int
    })
}

/// Whether a player lets the play on the table stand.
pub open spec fn lets_stand(s: Situation, top: TopSeen) -> bool {
    if top.seat == partner_of(s.actor) && partner_stands(top, s.ctx) {
        true
    } else {
        pass_points(s, top) > play_points(s, top)
    }
}

fn below(chance: Chance, w: i64) -> (b: bool)
    requires
        chance.num <= 4000 * 4 * 0x1_0000_0000_0000_0000,
        chance.den <= 4000 * 4 * 0x1_0000_0000_0000_0000,
        0 <= w <= UNIT || chance.den <= 11664 && weight_ok(w),
    ensures
        b == odds_below(chance@, w),
{
    proof {
        lemma_product_bound(chance.den as int, w as int);
    }
    (chance.num as i128) * (UNIT as i128) < (w as i128) * (chance.den as i128)
}

fn above(chance: Chance, w: i64) -> (b: bool)
    requires
        chance.num <= 4000 * 4 * 0x1_0000_0000_0000_0000,
        chance.den <= 4000 * 4 * 0x1_0000_0000_0000_0000,
        0 <= w <= UNIT || chance.den <= 11664 && weight_ok(w),
    ensures
        b == odds_above(chance@, w),
{
    proof {
        lemma_product_bound(chance.den as int, w as int);
    }
    (chance.num as i128) * (UNIT as i128) > (w as i128) * (chance.den as i128)
}

proof fn lemma_product_bound(den: int, w: int)
    requires
        0 <= den <= 4000 * 4 * 0x1_0000_0000_0000_0000,
        -1_000_000_000_000_000 <= w <= 1_000_000_000_000_000,
        0 <= w <= 100_000_000 || den <= 11664,
    ensures
        -100_000_000 * 4000 * 4 * 0x1_0000_0000_0000_0000 <= w * den <= 100_000_000 * 4000 * 4
            * 0x1_0000_0000_0000_0000,
{
    if den <= 11664 {
        assert(-1_000_000_000_000_000 * 11664 <= w * den <= 1_000_000_000_000_000 * 11664)
            by (nonlinear_arith)
            requires
                0 <= den <= 11664,
                -1_000_000_000_000_000 <= w <= 1_000_000_000_000_000,
        ;
    } else {
        assert(0 <= w * den <= 100_000_000 * (4000 * 4 * 0x1_0000_0000_0000_0000))
            by (nonlinear_arith)
            requires
                0 <= den <= 4000 * 4 * 0x1_0000_0000_0000_0000,
                0 <= w <= 100_000_000,
        ;
    }
}

/// The rank of the first card of a play, if it has one.
pub fn extract_top_rank(top: &TopPlay) -> (rank: Option<Rank>)
    ensures
        rank == lead_rank(top@),
{
    if top.cards.len() == 0 {
        return None;
    }
    let first = top.cards[0];
    match first {
        Symbol::Known(card) => Some(card.rank),
        _ => None,
    }
}

/// Whether a play has a joker.
pub fn top_has_joker(top: &TopPlay) -> (b: bool)
    ensures
        b == shows_joker(top@),
{
    for i in 0..top.cards.len()
        invariant
            forall|j: int| 0 <= j < i ==> !is_joker_symbol(#[trigger] top.cards@[j]),
    {
        if symbol_is_joker(top.cards[i]) {
            assert(is_joker_symbol(top@.cards[i as int]));
            return true;
        }
    }
    false
}

fn partner_play_stands(top: &TopPlay, ctx: RuleContext) -> (b: bool)
    ensures
        b == partner_stands(top@, ctx),
{
    let kind = top.combination.kind;
    let primary: u8 = top.combination.primary;
    top.combination.is_bomb() || extract_top_rank(top) == Some(ctx.hand_level.to_rank())
        || top_has_joker(top) || kind == CombinationKind::Ordinary(OrdinaryKind::Plate) || kind
        == CombinationKind::Ordinary(OrdinaryKind::Tube) || (kind == CombinationKind::Ordinary(
        OrdinaryKind::Pair,
    ) && primary >= 12) || (kind == CombinationKind::Ordinary(OrdinaryKind::FullHouse) && primary
        >= 9) || primary >= 11
}

#[derive(Clone, Copy, Debug, PartialEq, Eq, Structural)]
pub enum FollowDecision {
    Pass,
    Play,
}

/// Whether to let the play on the table stand or to look for an answer.
pub fn decide_follow(top: &TopPlay, p: &PlayContext) -> (decision: FollowDecision)
    requires
        p.wf(),
    ensures
        (decision == FollowDecision::Pass) == lets_stand(p@, top@),
{
    let w = p.params;
    let partner_leads = top.seat == p.actor_seat.teammate();
    let enemy = top.seat != p.actor_seat.teammate() && top.seat != p.actor_seat;
    if partner_leads && partner_play_stands(top, p.ctx) {
        return FollowDecision::Pass;
    }
    let mut pass: i128 = 0;
    let mut play: i128 = 0;
    if partner_leads {
        if w.hand_tracker_enabled {
            let v: usize = match extract_top_rank(top) {
                Some(rank) => rank_slot(rank) as usize,
                None => 0,
            };
            if below(p.opponent_has_rank(v), w.prob_threshold_for_intercept) {
                play = play + 2 * w.low_card_dump_bias as i128;
            } else {
                pass = pass + w.yield_to_partner_bias as i128;
            }
        }
    } else if enemy {
        play = play + 2 * UNIT as i128;
        if w.hand_tracker_enabled && above(p.opponent_bomb_prob(), w.prob_threshold_for_bomb) {
            pass = pass + 2 * w.bomb_conserve_bias as i128;
        }
        if p.enemy_within(w.enemy_low_cards_threshold as usize) {
            play = play + w.bomb_aggression_when_enemy_low as i128;
        }
        if p.is_endgame {
            play = play + w.endgame_clear_hand_bias as i128;
        }
    } else {
        play = play + w.proactive_play_bias as i128;
    }
    if p.teammate_remaining() <= w.partner_sprint_threshold as usize && !enemy {
        pass = pass + 2 * w.second_out_weight as i128;
    }
    if w.hand_tracker_enabled {
        let win = p.game_win_prob();
        if above(win, 70_000_000) && !enemy {
            pass = pass + UNIT as i128;
        } else if below(win, 30_000_000) {
            play = play + 150_000_000;
        }
    }
    if pass > play {
        FollowDecision::Pass
    } else {
        FollowDecision::Play
    }
}

/// A partner's play that may be taken over is followed where it is safe: where the chance that
/// others hold its rank is below the threshold, twice the weight for shedding cards speaks for a
/// play; otherwise the weight for yielding speaks for a pass.
pub proof fn partner_is_taken_over_where_safe(s: Situation, top: TopSeen)
    requires
        top.seat == partner_of(s.actor),
        s.params.hand_tracker_enabled,
        s.left_at(partner_of(s.actor)) > s.params.partner_sprint_threshold,
        3 * s.win_odds().den <= 10 * s.win_odds().num <= 7 * s.win_odds().den,
    ensures
        ({
            let odds = s.others_rank_odds(
                match lead_rank(top) {
                    Some(rank) => slot(rank),
                    None => 0,
                },
            );
            let safe = odds.num * 100_000_000 < s.params.prob_threshold_for_intercept * odds.den;
            &&& pass_points(s, top) == if safe {
                0
            } else {
                s.params.yield_to_partner_bias as int
            }
            &&& play_points(s, top) == if safe {
                2 * s.params.low_card_dump_bias
            } else {
                0
            }
        }),
{
}

/// Against an opponent's play two points speak for a play, the weight for bombing more where an
/// opponent is about to run out, the weight for emptying the hand more in the endgame, and one and
/// a half more where the team is behind; for a pass speaks only a likely bomb, with twice the
/// weight for keeping bombs.
pub proof fn opponents_call_for_an_answer(s: Situation, top: TopSeen)
    requires
        top.seat != partner_of(s.actor),
        top.seat != s.actor,
    ensures
        ({
            let p = s.params;
            let bomb = s.enemy_bomb_odds();
            let win = s.win_odds();
            &&& pass_points(s, top) == if p.hand_tracker_enabled && bomb.num * 100_000_000
                > p.prob_threshold_for_bomb * bomb.den {
                2 * p.bomb_conserve_bias
            } else {
                0
            }
            &&& play_points(s, top) == 200_000_000 + (if s.enemy_within(
                p.enemy_low_cards_threshold as int,
            ) {
                p.bomb_aggression_when_enemy_low as int
            } else {
                0
            }) + (if s.hand.len() <= p.endgame_hand_count_threshold {
                p.endgame_clear_hand_bias as int
            } else {
                0
            }) + if p.hand_tracker_enabled && 10 * win.num < 3 * win.den {
                150_000_000int
            } else {
                0
            }
        }),
{
}

/// With no opponent's play on the table, twice the weight for going out second speaks for a pass
/// where the partner is about to run out, and one point where the team is ahead; one and a half
/// points speak for a play where it is behind.
pub proof fn partners_hold_back(s: Situation, top: TopSeen)
    requires
        top.seat == partner_of(s.actor),
        s.params.hand_tracker_enabled,
    ensures
        ({
            let p = s.params;
            let win = s.win_odds();
            let odds = s.others_rank_odds(lead_slot(top));
            let safe = odds.num * 100_000_000 < p.prob_threshold_for_intercept * odds.den;
            &&& pass_points(s, top) == (if safe {
                0
            } else {
                p.yield_to_partner_bias as int
            }) + (if s.left_at(partner_of(s.actor)) <= p.partner_sprint_threshold {
                2 * p.second_out_weight
            } else {
                0
            }) + (if 10 * win.num > 7 * win.den {
                100_000_000int
            } else {
                0
            })
            &&& play_points(s, top) == (if safe {
                2 * p.low_card_dump_bias
            } else {
                0
            }) + (if 10 * win.num <= 7 * win.den && 10 * win.num < 3 * win.den {
                150_000_000int
            } else {
                0
            })
        }),
{
}

/// Of the partner's plays these stand: bombs, plays that begin with a card of the level, jokers,
/// plates and tubes, anything from the queen up, and full houses from the ten up; pairs below the
/// queen, full houses below the ten and other groups below the queen do not, where they show
/// neither.
pub proof fn big_plays_of_the_partner_stand(top: TopSeen, ctx: RuleContext)
    ensures
        top.combination.kind is Bomb ==> partner_stands(top, ctx),
        top.combination.primary >= 11 ==> partner_stands(top, ctx),
        lead_rank(top) == Some(level_rank(ctx.hand_level)) ==> partner_stands(top, ctx),
        shows_joker(top) ==> partner_stands(top, ctx),
        top.combination.kind == CombinationKind::Ordinary(OrdinaryKind::Plate) || top.combination.kind
            == CombinationKind::Ordinary(OrdinaryKind::Tube) ==> partner_stands(top, ctx),
        top.combination.kind == CombinationKind::Ordinary(OrdinaryKind::FullHouse)
            && top.combination.primary >= 9 ==> partner_stands(top, ctx),
        !shows_joker(top) && lead_rank(top) != Some(level_rank(ctx.hand_level)) && (
        top.combination.kind matches CombinationKind::Ordinary(k) && k != OrdinaryKind::Plate && k
            != OrdinaryKind::Tube && top.combination.primary < if k == OrdinaryKind::FullHouse {
            9int
        } else {
            11int
        }) ==> !partner_stands(top, ctx),
{
}

} // verus!
