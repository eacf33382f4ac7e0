//! The weights of the rule bot, held like those of the advanced bot.

use vstd::prelude::*;
use crate::chance::{random_between, random_index};
use crate::params::{WEIGHT_LIMIT, held_between, weight_ok};

verus! {

#[derive(Clone, Copy, Debug, PartialEq, Eq, Structural)]
pub struct RuleBotParams {
    pub team_win_weight: i64,
    pub first_out_weight: i64,
    pub second_out_weight: i64,
    pub yield_to_partner_bias: i64,
    pub partner_support_threshold: u8,
    /// A partner with at most this many cards is sprinting.
    pub partner_sprint_threshold: u8,
    pub bomb_conserve_bias: i64,
    pub bomb_aggression_when_enemy_low_cards: i64,
    pub enemy_low_cards_threshold: u8,
    pub endgame_hand_count_threshold: u8,
    pub endgame_clear_hand_bias: i64,
    pub proactive_play_bias: i64,
    pub low_card_dump_bias: i64,
    pub pass_stall_penalty: i64,
    pub use_suggest_fallback: bool,
    pub enable_reason_trace: bool,
}

impl RuleBotParams {
    /// All weights are within the limit.
    pub open spec fn ok(self) -> bool {
        &&& weight_ok(self.team_win_weight)
        &&& weight_ok(self.first_out_weight)
        &&& weight_ok(self.second_out_weight)
        &&& weight_ok(self.yield_to_partner_bias)
        &&& weight_ok(self.bomb_conserve_bias)
        &&& weight_ok(self.bomb_aggression_when_enemy_low_cards)
        &&& weight_ok(self.endgame_clear_hand_bias)
        &&& weight_ok(self.proactive_play_bias)
        &&& weight_ok(self.low_card_dump_bias)
        &&& weight_ok(self.pass_stall_penalty)
    }
}

/// A balanced player.
pub open spec fn rule_balanced() -> RuleBotParams {
    RuleBotParams {
        team_win_weight: 100_000_000,
        first_out_weight: 80_000_000,
        second_out_weight: 90_000_000,
        yield_to_partner_bias: 140_000_000,
        partner_support_threshold: 3,
        partner_sprint_threshold: 3,
        bomb_conserve_bias: 80_000_000,
        bomb_aggression_when_enemy_low_cards: 220_000_000,
        enemy_low_cards_threshold: 3,
        endgame_hand_count_threshold: 6,
        endgame_clear_hand_bias: 120_000_000,
        proactive_play_bias: 110_000_000,
        low_card_dump_bias: 140_000_000,
        pass_stall_penalty: 90_000_000,
        use_suggest_fallback: true,
        enable_reason_trace: false,
    }
}

/// A player who goes for the win alone.
pub open spec fn rule_aggressive() -> RuleBotParams {
    RuleBotParams {
        team_win_weight: 90_000_000,
        first_out_weight: 140_000_000,
        second_out_weight: 70_000_000,
        yield_to_partner_bias: 60_000_000,
        partner_support_threshold: 2,
        partner_sprint_threshold: 2,
        bomb_conserve_bias: 30_000_000,
        bomb_aggression_when_enemy_low_cards: 280_000_000,
        enemy_low_cards_threshold: 4,
        endgame_hand_count_threshold: 8,
        endgame_clear_hand_bias: 200_000_000,
        proactive_play_bias: 160_000_000,
        low_card_dump_bias: 110_000_000,
        pass_stall_penalty: 120_000_000,
        use_suggest_fallback: true,
        enable_reason_trace: false,
    }
}

/// A player who works for the partner.
pub open spec fn rule_supportive() -> RuleBotParams {
    RuleBotParams {
        team_win_weight: 140_000_000,
        first_out_weight: 70_000_000,
        second_out_weight: 130_000_000,
        yield_to_partner_bias: 220_000_000,
        partner_support_threshold: 4,
        partner_sprint_threshold: 4,
        bomb_conserve_bias: 110_000_000,
        bomb_aggression_when_enemy_low_cards: 160_000_000,
        enemy_low_cards_threshold: 3,
        endgame_hand_count_threshold: 6,
        endgame_clear_hand_bias: 100_000_000,
        proactive_play_bias: 60_000_000,
        low_card_dump_bias: 120_000_000,
        pass_stall_penalty: 50_000_000,
        use_suggest_fallback: true,
        enable_reason_trace: false,
    }
}

impl RuleBotParams {
    /// A balanced player.
    pub fn default_balanced() -> (params: Self)
        ensures
            params == rule_balanced(),
            params.ok(),
    {
        RuleBotParams {
            team_win_weight: 100_000_000,
            first_out_weight: 80_000_000,
            second_out_weight: 90_000_000,
            yield_to_partner_bias: 140_000_000,
            partner_support_threshold: 3,
            partner_sprint_threshold: 3,
            bomb_conserve_bias: 80_000_000,
            bomb_aggression_when_enemy_low_cards: 220_000_000,
            enemy_low_cards_threshold: 3,
            endgame_hand_count_threshold: 6,
            endgame_clear_hand_bias: 120_000_000,
            proactive_play_bias: 110_000_000,
            low_card_dump_bias: 140_000_000,
            pass_stall_penalty: 90_000_000,
            use_suggest_fallback: true,
            enable_reason_trace: false,
        }
    }

    /// A player who goes for the win alone.
    pub fn default_aggressive() -> (params: Self)
        ensures
            params == rule_aggressive(),
            params.ok(),
    {
        RuleBotParams {
            team_win_weight: 90_000_000,
            first_out_weight: 140_000_000,
            second_out_weight: 70_000_000,
            yield_to_partner_bias: 60_000_000,
            partner_support_threshold: 2,
            partner_sprint_threshold: 2,
            bomb_conserve_bias: 30_000_000,
            bomb_aggression_when_enemy_low_cards: 280_000_000,
            enemy_low_cards_threshold: 4,
            endgame_hand_count_threshold: 8,
            endgame_clear_hand_bias: 200_000_000,
            proactive_play_bias: 160_000_000,
            low_card_dump_bias: 110_000_000,
            pass_stall_penalty: 120_000_000,
            use_suggest_fallback: true,
            enable_reason_trace: false,
        }
    }

    /// A player who works for the partner.
    pub fn default_supportive() -> (params: Self)
        ensures
            params == rule_supportive(),
            params.ok(),
    {
        RuleBotParams {
            team_win_weight: 140_000_000,
            first_out_weight: 70_000_000,
            second_out_weight: 130_000_000,
            yield_to_partner_bias: 220_000_000,
            partner_support_threshold: 4,
            partner_sprint_threshold: 4,
            bomb_conserve_bias: 110_000_000,
            bomb_aggression_when_enemy_low_cards: 160_000_000,
            enemy_low_cards_threshold: 3,
            endgame_hand_count_threshold: 6,
            endgame_clear_hand_bias: 100_000_000,
            proactive_play_bias: 60_000_000,
            low_card_dump_bias: 120_000_000,
            pass_stall_penalty: 50_000_000,
            use_suggest_fallback: true,
            enable_reason_trace: false,
        }
    }

    /// Moves the weight with number `which` by `delta`, within 0.1 and 10.
    pub fn mutate_weight(&self, which: usize, delta: i64) -> (params: Self)
        requires
            self.ok(),
            weight_ok(delta),
            which < 10,
        ensures
            params == weight_moved(*self, which as int, delta as int),
            params.ok(),
    {
        let mut params = *self;
        match which {
            0 => {
                params.team_win_weight = shift_weight(self.team_win_weight, delta);
            },
            1 => {
                params.first_out_weight = shift_weight(self.first_out_weight, delta);
            },
            2 => {
                params.second_out_weight = shift_weight(self.second_out_weight, delta);
            },
            3 => {
                params.yield_to_partner_bias = shift_weight(self.yield_to_partner_bias, delta);
            },
            4 => {
                params.bomb_conserve_bias = shift_weight(self.bomb_conserve_bias, delta);
            },
            5 => {
                params.bomb_aggression_when_enemy_low_cards = shift_weight(self.bomb_aggression_when_enemy_low_cards, delta);
            },
            6 => {
                params.endgame_clear_hand_bias = shift_weight(self.endgame_clear_hand_bias, delta);
            },
            7 => {
                params.proactive_play_bias = shift_weight(self.proactive_play_bias, delta);
            },
            8 => {
                params.low_card_dump_bias = shift_weight(self.low_card_dump_bias, delta);
            },
            _ => {
                params.pass_stall_penalty = shift_weight(self.pass_stall_penalty, delta);
            },
        }
        params
    }

    /// Moves the threshold with number `which` one up or down, within its range.
    pub fn mutate_threshold(&self, which: usize, up: bool) -> (params: Self)
        requires
            which < 4,
        ensures
            params == threshold_moved(*self, which as int, up),
    {
        let mut params = *self;
        match which {
            0 => {
                params.partner_support_threshold = step_within(self.partner_support_threshold, up, 1, 8);
            },
            1 => {
                params.partner_sprint_threshold = step_within(self.partner_sprint_threshold, up, 1, 6);
            },
            2 => {
                params.enemy_low_cards_threshold = step_within(self.enemy_low_cards_threshold, up, 1, 8);
            },
            _ => {
                params.endgame_hand_count_threshold = step_within(self.endgame_hand_count_threshold, up, 3, 12);
            },
        }
        params
    }

    /// Moves one weight or threshold, picked by chance, by a chance amount.
    pub fn mutate_random(&self, step: i64) -> (params: Self)
        requires
            self.ok(),
            0 < step <= WEIGHT_LIMIT,
        ensures
            params.ok(),
            (exists|which: int, delta: int|
                0 <= which < 10 && -step <= delta < step && params == #[trigger] weight_moved(
                    *self,
                    which,
                    delta,
                )) || (exists|which: int, up: bool|
                0 <= which < 4 && params == #[trigger] threshold_moved(*self, which, up)),
    {
        let which: usize = random_index(12);
        if which < 10 {
            let delta: i64 = random_between(-step, step);
            let params = self.mutate_weight(which, delta);
            assert(params == weight_moved(*self, which as int, delta as int));
            params
        } else {
            let place: usize = if which == 10 {
                random_index(3)
            } else {
                3
            };
            let up = random_index(2) == 1;
            let params = self.mutate_threshold(place, up);
            assert(params == threshold_moved(*self, place as int, up));
            params
        }
    }
}

impl Default for RuleBotParams {
    fn default() -> (params: Self)
        ensures
            params == rule_balanced(),
    {
        Self::default_balanced()
    }
}

fn shift_weight(w: i64, delta: i64) -> (next: i64)
    requires
        weight_ok(w),
        weight_ok(delta),
    ensures
        next == held_between(w as int, delta as int, 10_000_000, 1_000_000_000),
        weight_ok(next),
{
    let next: i64 = w + delta;
    if next < 10_000_000 {
        10_000_000
    } else if next > 1_000_000_000 {
        1_000_000_000
    } else {
        next
    }
}

/// One up or down, held between two numbers.
pub open spec fn stepped(value: int, up: bool, low: int, high: int) -> u8 {
    let next = if up {
        value + 1
    } else {
        value - 1
    };
    if next < low {
        low as u8
    } else if next > high {
        high as u8
    } else {
        next as u8
    }
}

/// Moves a threshold one up or down, within its range.
fn step_within(value: u8, up: bool, low: u8, high: u8) -> (next: u8)
    requires
        low <= high,
    ensures
        next == stepped(value as int, up, low as int, high as int),
        low <= next <= high,
{
    let next: i16 = if up {
        value as i16 + 1
    } else {
        value as i16 - 1
    };
    if next < low as i16 {
        low
    } else if next > high as i16 {
        high
    } else {
        next as u8
    }
}

/// The weights with the one numbered `which` moved by `delta` within 0.1 and 10.
pub open spec fn weight_moved(p: RuleBotParams, which: int, delta: int) -> RuleBotParams {
    if which == 0 {
        RuleBotParams {
            team_win_weight: held_between(p.team_win_weight as int, delta, 10_000_000, 1_000_000_000),
            ..p
        }
    } else if which == 1 {
        RuleBotParams {
            first_out_weight: held_between(p.first_out_weight as int, delta, 10_000_000, 1_000_000_000),
            ..p
        }
    } else if which == 2 {
        RuleBotParams {
            second_out_weight: held_between(p.second_out_weight as int, delta, 10_000_000, 1_000_000_000),
            ..p
        }
    } else if which == 3 {
        RuleBotParams {
            yield_to_partner_bias: held_between(p.yield_to_partner_bias as int, delta, 10_000_000, 1_000_000_000),
            ..p
        }
    } else if which == 4 {
        RuleBotParams {
            bomb_conserve_bias: held_between(p.bomb_conserve_bias as int, delta, 10_000_000, 1_000_000_000),
            ..p
        }
    } else if which == 5 {
        RuleBotParams {
            bomb_aggression_when_enemy_low_cards: held_between(p.bomb_aggression_when_enemy_low_cards as int, delta, 10_000_000, 1_000_000_000),
            ..p
        }
    } else if which == 6 {
        RuleBotParams {
            endgame_clear_hand_bias: held_between(p.endgame_clear_hand_bias as int, delta, 10_000_000, 1_000_000_000),
            ..p
        }
    } else if which == 7 {
        RuleBotParams {
            proactive_play_bias: held_between(p.proactive_play_bias as int, delta, 10_000_000, 1_000_000_000),
            ..p
        }
    } else if which == 8 {
        RuleBotParams {
            low_card_dump_bias: held_between(p.low_card_dump_bias as int, delta, 10_000_000, 1_000_000_000),
            ..p
        }
    } else {
        RuleBotParams {
            pass_stall_penalty: held_between(p.pass_stall_penalty as int, delta, 10_000_000, 1_000_000_000),
            ..p
        }
    }
}

/// The thresholds with the one numbered `which` moved by one within its range.
pub open spec fn threshold_moved(p: RuleBotParams, which: int, up: bool) -> RuleBotParams {
    if which == 0 {
        RuleBotParams { partner_support_threshold: stepped(p.partner_support_threshold as int, up, 1, 8), ..p }
    } else if which == 1 {
        RuleBotParams { partner_sprint_threshold: stepped(p.partner_sprint_threshold as int, up, 1, 6), ..p }
    } else if which == 2 {
        RuleBotParams { enemy_low_cards_threshold: stepped(p.enemy_low_cards_threshold as int, up, 1, 8), ..p }
    } else {
        RuleBotParams { endgame_hand_count_threshold: stepped(p.endgame_hand_count_threshold as int, up, 3, 12), ..p }
    }
}

/// The weight of the rule bot that training gives a number.
pub open spec fn rule_weight(p: RuleBotParams, which: int) -> i64 {
    if which == 0 {
        p.team_win_weight
    } else if which == 1 {
        p.first_out_weight
    } else if which == 2 {
        p.second_out_weight
    } else if which == 3 {
        p.yield_to_partner_bias
    } else if which == 4 {
        p.bomb_conserve_bias
    } else if which == 5 {
        p.bomb_aggression_when_enemy_low_cards
    } else if which == 6 {
        p.endgame_clear_hand_bias
    } else if which == 7 {
        p.proactive_play_bias
    } else if which == 8 {
        p.low_card_dump_bias
    } else {
        p.pass_stall_penalty
    }
}

/// Training the rule bot moves one weight at a time, by as much as is asked between a tenth and
/// ten, and no other weight and no threshold.
pub proof fn rule_training_moves_one_weight(p: RuleBotParams, which: int, delta: int, k: int)
    requires
        0 <= which < 10,
        0 <= k < 10,
    ensures
        ({
            let q = weight_moved(p, which, delta);
            let before = rule_weight(p, k);
            let after = rule_weight(q, k);
            &&& k != which ==> after == before
            &&& k == which ==> 10_000_000 <= after <= 1_000_000_000
            &&& k == which && 10_000_000 <= before + delta <= 1_000_000_000 ==> after == before + delta
            &&& k == which && before + delta < 10_000_000 ==> after == 10_000_000
            &&& k == which && before + delta > 1_000_000_000 ==> after == 1_000_000_000
            &&& q.partner_support_threshold == p.partner_support_threshold
            &&& q.partner_sprint_threshold == p.partner_sprint_threshold
            &&& q.enemy_low_cards_threshold == p.enemy_low_cards_threshold
            &&& q.endgame_hand_count_threshold == p.endgame_hand_count_threshold
        }),
{
}

/// A threshold of the rule bot moves one up or down within its range, and nothing else moves with
/// it.
pub proof fn rule_thresholds_move_by_one(p: RuleBotParams, which: int, up: bool, k: int)
    requires
        0 <= which < 4,
        0 <= k < 10,
    ensures
        ({
            let q = threshold_moved(p, which, up);
            let step: int = if up {
                1
            } else {
                -1
            };
            let moves = |x: u8, y: u8, low: int, high: int|
                low <= y <= high && (low <= x + step <= high ==> y == x + step);
            &&& rule_weight(q, k) == rule_weight(p, k)
            &&& if which == 0 {
                moves(p.partner_support_threshold, q.partner_support_threshold, 1, 8)
            } else {
                q.partner_support_threshold == p.partner_support_threshold
            }
            &&& if which == 1 {
                moves(p.partner_sprint_threshold, q.partner_sprint_threshold, 1, 6)
            } else {
                q.partner_sprint_threshold == p.partner_sprint_threshold
            }
            &&& if which == 2 {
                moves(p.enemy_low_cards_threshold, q.enemy_low_cards_threshold, 1, 8)
            } else {
                q.enemy_low_cards_threshold == p.enemy_low_cards_threshold
            }
            &&& if which == 3 {
                moves(p.endgame_hand_count_threshold, q.endgame_hand_count_threshold, 3, 12)
            } else {
                q.endgame_hand_count_threshold == p.endgame_hand_count_threshold
            }
        }),
{
}

/// How the presets of the rule bot differ: the aggressive one goes out first and bombs and plays on
/// more than the balanced one, and yields, keeps bombs and helps the partner out less; the
/// supportive one the other way round.
pub proof fn rule_presets_differ_in_temper(a: RuleBotParams, b: RuleBotParams, c: RuleBotParams)
    requires
        a == rule_aggressive(),
        b == rule_balanced(),
        c == rule_supportive(),
    ensures
        a.first_out_weight > b.first_out_weight > c.first_out_weight,
        a.second_out_weight < b.second_out_weight < c.second_out_weight,
        a.team_win_weight < b.team_win_weight < c.team_win_weight,
        a.yield_to_partner_bias < b.yield_to_partner_bias < c.yield_to_partner_bias,
        a.bomb_conserve_bias < b.bomb_conserve_bias < c.bomb_conserve_bias,
        a.bomb_aggression_when_enemy_low_cards > b.bomb_aggression_when_enemy_low_cards
            > c.bomb_aggression_when_enemy_low_cards,
        a.endgame_clear_hand_bias > b.endgame_clear_hand_bias > c.endgame_clear_hand_bias,
        a.proactive_play_bias > b.proactive_play_bias > c.proactive_play_bias,
        a.pass_stall_penalty > b.pass_stall_penalty > c.pass_stall_penalty,
        a.partner_sprint_threshold < b.partner_sprint_threshold < c.partner_sprint_threshold,
{
}

} // verus!
