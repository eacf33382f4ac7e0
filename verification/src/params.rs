//! The weights of the advanced bot.
//!
//! A weight is a decimal number with eight places, held as an integer: [`UNIT`] stands for one.

use vstd::prelude::*;
use crate::chance::{random_between, random_index};

verus! {

/// The weight one.
pub const UNIT: i64 = 100_000_000;

/// Largest size of a weight that the scoring takes.
pub const WEIGHT_LIMIT: i64 = 1_000_000_000_000_000;

#[derive(Clone, Copy, Debug, PartialEq, Eq, Structural)]
pub struct AdvancedBotParams {
    pub team_win_weight: i64,
    pub first_out_weight: i64,
    pub second_out_weight: i64,
    pub yield_to_partner_bias: i64,
    pub partner_sprint_threshold: u8,
    pub bomb_conserve_bias: i64,
    pub bomb_aggression_when_enemy_low: i64,
    pub enemy_low_cards_threshold: u8,
    pub endgame_hand_count_threshold: u8,
    pub endgame_clear_hand_bias: i64,
    pub proactive_play_bias: i64,
    pub low_card_dump_bias: i64,
    pub pass_stall_penalty: i64,
    pub hand_tracker_enabled: bool,
    pub prob_threshold_for_bomb: i64,
    pub prob_threshold_for_intercept: i64,
    pub enable_reason_trace: bool,
    pub bomb_keep_single: i64,
    pub last_bomb_penalty: i64,
    pub bomb_over_single: i64,
    pub bomb_over_pair: i64,
    pub wild_bomb_bonus: i64,
    pub wild_run_bonus: i64,
    pub endgame_single_removal: i64,
    pub endgame_small_single_removal: i64,
    pub empty_lead_bomb_penalty: i64,
    pub split_penalty_scale: i64,
    pub keep_bomb_bonus: i64,
    pub solver_trick_penalty: i64,
    pub bomb_keep_many: i64,
    pub intercept_sprint_bonus: i64,
    pub last_play_clear_bonus: i64,
    pub combo_shape_bonus: i64,
    pub partner_feng_bonus: i64,
    pub partner_feng_lead_bonus: i64,
    pub partner_feng_first_bonus: i64,
    pub teammate_combo_bonus: i64,
    pub block_enemy_bonus: i64,
    pub straight_build_bonus: i64,
    pub many_singles_penalty: i64,
    pub single_lead_bonus: i64,
    pub small_single_lead_bonus: i64,
    pub small_card_lead_bonus: i64,
    pub avoid_small_singles_each: i64,
    pub lead_len_step: i64,
    pub lead_len_step_endgame: i64,
    pub lead_primary_step: i64,
    pub lead_primary_step_endgame: i64,
    pub solver_junk_bonus: i64,
    pub dual_wild_penalty_mid: i64,
    pub dual_wild_penalty_end: i64,
    pub upgraded_bomb_wild_mid: i64,
    pub upgraded_bomb_wild_end: i64,
    pub wild_on_level_mid: i64,
    pub wild_on_level_end: i64,
    pub wild_plain_pair_mid: i64,
    pub wild_pair_penalty_end: i64,
    pub bare_dual_wild_extra: i64,
}

pub open spec fn weight_ok(w: i64) -> bool {
    -WEIGHT_LIMIT <= w <= WEIGHT_LIMIT
}

impl AdvancedBotParams {
    /// All weights are within the limit.
    pub open spec fn ok(self) -> bool {
        &&& weight_ok(self.team_win_weight)
        &&& weight_ok(self.first_out_weight)
        &&& weight_ok(self.second_out_weight)
        &&& weight_ok(self.yield_to_partner_bias)
        &&& weight_ok(self.bomb_conserve_bias)
        &&& weight_ok(self.bomb_aggression_when_enemy_low)
        &&& weight_ok(self.endgame_clear_hand_bias)
        &&& weight_ok(self.proactive_play_bias)
        &&& weight_ok(self.low_card_dump_bias)
        &&& weight_ok(self.pass_stall_penalty)
        &&& weight_ok(self.prob_threshold_for_bomb)
        &&& weight_ok(self.prob_threshold_for_intercept)
        &&& weight_ok(self.bomb_keep_single)
        &&& weight_ok(self.last_bomb_penalty)
        &&& weight_ok(self.bomb_over_single)
        &&& weight_ok(self.bomb_over_pair)
        &&& weight_ok(self.wild_bomb_bonus)
        &&& weight_ok(self.wild_run_bonus)
        &&& weight_ok(self.endgame_single_removal)
        &&& weight_ok(self.endgame_small_single_removal)
        &&& weight_ok(self.empty_lead_bomb_penalty)
        &&& weight_ok(self.split_penalty_scale)
        &&& weight_ok(self.keep_bomb_bonus)
        &&& weight_ok(self.solver_trick_penalty)
        &&& weight_ok(self.bomb_keep_many)
        &&& weight_ok(self.intercept_sprint_bonus)
        &&& weight_ok(self.last_play_clear_bonus)
        &&& weight_ok(self.combo_shape_bonus)
        &&& weight_ok(self.partner_feng_bonus)
        &&& weight_ok(self.partner_feng_lead_bonus)
        &&& weight_ok(self.partner_feng_first_bonus)
        &&& weight_ok(self.teammate_combo_bonus)
        &&& weight_ok(self.block_enemy_bonus)
        &&& weight_ok(self.straight_build_bonus)
        &&& weight_ok(self.many_singles_penalty)
        &&& weight_ok(self.single_lead_bonus)
        &&& weight_ok(self.small_single_lead_bonus)
        &&& weight_ok(self.small_card_lead_bonus)
        &&& weight_ok(self.avoid_small_singles_each)
        &&& weight_ok(self.lead_len_step)
        &&& weight_ok(self.lead_len_step_endgame)
        &&& weight_ok(self.lead_primary_step)
        &&& weight_ok(self.lead_primary_step_endgame)
        &&& weight_ok(self.solver_junk_bonus)
        &&& weight_ok(self.dual_wild_penalty_mid)
        &&& weight_ok(self.dual_wild_penalty_end)
        &&& weight_ok(self.upgraded_bomb_wild_mid)
        &&& weight_ok(self.upgraded_bomb_wild_end)
        &&& weight_ok(self.wild_on_level_mid)
        &&& weight_ok(self.wild_on_level_end)
        &&& weight_ok(self.wild_plain_pair_mid)
        &&& weight_ok(self.wild_pair_penalty_end)
        &&& weight_ok(self.bare_dual_wild_extra)
    }
}

/// Bonuses and penalties as they stand without training; the rest neutral.
pub open spec fn scoring_constants() -> AdvancedBotParams {
    AdvancedBotParams {
        bomb_keep_single: 20_000_000_000,
        last_bomb_penalty: 40_000_000_000,
        bomb_over_single: 30_000_000_000,
        bomb_over_pair: 20_000_000_000,
        wild_bomb_bonus: 10_000_000_000,
        wild_run_bonus: 3_000_000_000,
        endgame_single_removal: 40_000_000_000,
        endgame_small_single_removal: 30_000_000_000,
        empty_lead_bomb_penalty: 45_000_000_000,
        split_penalty_scale: 2_000_000_000,
        keep_bomb_bonus: 50_000_000_000,
        solver_trick_penalty: 50_000_000_000,
        bomb_keep_many: 1_000_000_000,
        intercept_sprint_bonus: 1_500_000_000,
        last_play_clear_bonus: 2_000_000_000,
        combo_shape_bonus: 2_000_000_000,
        partner_feng_bonus: 30_000_000_000,
        partner_feng_lead_bonus: 18_000_000_000,
        partner_feng_first_bonus: 12_000_000_000,
        teammate_combo_bonus: 1_500_000_000,
        block_enemy_bonus: 1_500_000_000,
        straight_build_bonus: 3_000_000_000,
        many_singles_penalty: 8_000_000_000,
        single_lead_bonus: 2_000_000_000,
        small_single_lead_bonus: 1_500_000_000,
        small_card_lead_bonus: 1_000_000_000,
        avoid_small_singles_each: 2_200_000_000,
        lead_len_step: 800_000_000,
        lead_len_step_endgame: 500_000_000,
        lead_primary_step: 50_000_000,
        lead_primary_step_endgame: 150_000_000,
        solver_junk_bonus: 1_500_000_000,
        dual_wild_penalty_mid: 60_000_000_000,
        dual_wild_penalty_end: 6_000_000_000,
        upgraded_bomb_wild_mid: 15_000_000_000,
        upgraded_bomb_wild_end: 1_000_000_000,
        wild_on_level_mid: 25_000_000_000,
        wild_on_level_end: 2_000_000_000,
        wild_plain_pair_mid: 30_000_000_000,
        wild_pair_penalty_end: 1_500_000_000,
        bare_dual_wild_extra: 20_000_000_000,
        team_win_weight: 0,
        first_out_weight: 0,
        second_out_weight: 0,
        yield_to_partner_bias: 0,
        partner_sprint_threshold: 3,
        bomb_conserve_bias: 0,
        bomb_aggression_when_enemy_low: 0,
        enemy_low_cards_threshold: 3,
        endgame_hand_count_threshold: 6,
        endgame_clear_hand_bias: 0,
        proactive_play_bias: 0,
        low_card_dump_bias: 0,
        pass_stall_penalty: 0,
        hand_tracker_enabled: true,
        prob_threshold_for_bomb: 60_000_000,
        prob_threshold_for_intercept: 40_000_000,
        enable_reason_trace: false,
    }
}

/// A balanced player.
pub open spec fn balanced() -> AdvancedBotParams {
    AdvancedBotParams {
        team_win_weight: 100_000_000,
        first_out_weight: 80_000_000,
        second_out_weight: 90_000_000,
        yield_to_partner_bias: 140_000_000,
        partner_sprint_threshold: 3,
        bomb_conserve_bias: 80_000_000,
        bomb_aggression_when_enemy_low: 220_000_000,
        enemy_low_cards_threshold: 3,
        endgame_hand_count_threshold: 6,
        endgame_clear_hand_bias: 120_000_000,
        proactive_play_bias: 110_000_000,
        low_card_dump_bias: 140_000_000,
        pass_stall_penalty: 90_000_000,
        hand_tracker_enabled: true,
        prob_threshold_for_bomb: 60_000_000,
        prob_threshold_for_intercept: 40_000_000,
        enable_reason_trace: false,
        ..scoring_constants()
    }
}

/// A player who goes for the win alone.
pub open spec fn aggressive() -> AdvancedBotParams {
    AdvancedBotParams {
        team_win_weight: 90_000_000,
        first_out_weight: 140_000_000,
        second_out_weight: 70_000_000,
        yield_to_partner_bias: 60_000_000,
        partner_sprint_threshold: 2,
        bomb_conserve_bias: 30_000_000,
        bomb_aggression_when_enemy_low: 280_000_000,
        enemy_low_cards_threshold: 4,
        endgame_hand_count_threshold: 8,
        endgame_clear_hand_bias: 200_000_000,
        proactive_play_bias: 160_000_000,
        low_card_dump_bias: 110_000_000,
        pass_stall_penalty: 120_000_000,
        hand_tracker_enabled: true,
        prob_threshold_for_bomb: 50_000_000,
        prob_threshold_for_intercept: 30_000_000,
        enable_reason_trace: false,
        ..scoring_constants()
    }
}

/// A player who works for the partner.
pub open spec fn supportive() -> AdvancedBotParams {
    AdvancedBotParams {
        team_win_weight: 140_000_000,
        first_out_weight: 70_000_000,
        second_out_weight: 130_000_000,
        yield_to_partner_bias: 220_000_000,
        partner_sprint_threshold: 4,
        bomb_conserve_bias: 110_000_000,
        bomb_aggression_when_enemy_low: 160_000_000,
        enemy_low_cards_threshold: 3,
        endgame_hand_count_threshold: 6,
        endgame_clear_hand_bias: 100_000_000,
        proactive_play_bias: 60_000_000,
        low_card_dump_bias: 120_000_000,
        pass_stall_penalty: 50_000_000,
        hand_tracker_enabled: true,
        prob_threshold_for_bomb: 70_000_000,
        prob_threshold_for_intercept: 50_000_000,
        enable_reason_trace: false,
        ..scoring_constants()
    }
}

/// The trained weights under the house rules, by which every table plays.
pub open spec fn house() -> AdvancedBotParams {
    AdvancedBotParams {
        team_win_weight: 102_859_880,
        first_out_weight: 83_167_250,
        second_out_weight: 90_000_000,
        yield_to_partner_bias: 140_000_000,
        partner_sprint_threshold: 2,
        bomb_conserve_bias: 83_482_033,
        bomb_aggression_when_enemy_low: 220_000_000,
        enemy_low_cards_threshold: 6,
        endgame_hand_count_threshold: 6,
        endgame_clear_hand_bias: 120_824_840,
        proactive_play_bias: 110_000_000,
        low_card_dump_bias: 140_000_000,
        pass_stall_penalty: 90_296_406,
        hand_tracker_enabled: true,
        prob_threshold_for_bomb: 56_296_045,
        prob_threshold_for_intercept: 40_000_000,
        enable_reason_trace: false,
        keep_bomb_bonus: 49_999_548_000,
        wild_bomb_bonus: 25_000_000_000,
        upgraded_bomb_wild_mid: 30_000_000_000,
        upgraded_bomb_wild_end: 16_000_000_000,
        wild_plain_pair_mid: 80_000_000_000,
        wild_pair_penalty_end: 10_000_000_000,
        ..scoring_constants()
    }
}

impl AdvancedBotParams {
    /// Bonuses and penalties as they stand without training; the rest neutral.
    pub fn scoring_defaults() -> (params: Self)
        ensures
            params == scoring_constants(),
            params.ok(),
    {
        AdvancedBotParams {
            bomb_keep_single: 20_000_000_000,
            last_bomb_penalty: 40_000_000_000,
            bomb_over_single: 30_000_000_000,
            bomb_over_pair: 20_000_000_000,
            wild_bomb_bonus: 10_000_000_000,
            wild_run_bonus: 3_000_000_000,
            endgame_single_removal: 40_000_000_000,
            endgame_small_single_removal: 30_000_000_000,
            empty_lead_bomb_penalty: 45_000_000_000,
            split_penalty_scale: 2_000_000_000,
            keep_bomb_bonus: 50_000_000_000,
            solver_trick_penalty: 50_000_000_000,
            bomb_keep_many: 1_000_000_000,
            intercept_sprint_bonus: 1_500_000_000,
            last_play_clear_bonus: 2_000_000_000,
            combo_shape_bonus: 2_000_000_000,
            partner_feng_bonus: 30_000_000_000,
            partner_feng_lead_bonus: 18_000_000_000,
            partner_feng_first_bonus: 12_000_000_000,
            teammate_combo_bonus: 1_500_000_000,
            block_enemy_bonus: 1_500_000_000,
            straight_build_bonus: 3_000_000_000,
            many_singles_penalty: 8_000_000_000,
            single_lead_bonus: 2_000_000_000,
            small_single_lead_bonus: 1_500_000_000,
            small_card_lead_bonus: 1_000_000_000,
            avoid_small_singles_each: 2_200_000_000,
            lead_len_step: 800_000_000,
            lead_len_step_endgame: 500_000_000,
            lead_primary_step: 50_000_000,
            lead_primary_step_endgame: 150_000_000,
            solver_junk_bonus: 1_500_000_000,
            dual_wild_penalty_mid: 60_000_000_000,
            dual_wild_penalty_end: 6_000_000_000,
            upgraded_bomb_wild_mid: 15_000_000_000,
            upgraded_bomb_wild_end: 1_000_000_000,
            wild_on_level_mid: 25_000_000_000,
            wild_on_level_end: 2_000_000_000,
            wild_plain_pair_mid: 30_000_000_000,
            wild_pair_penalty_end: 1_500_000_000,
            bare_dual_wild_extra: 20_000_000_000,
            team_win_weight: 0,
            first_out_weight: 0,
            second_out_weight: 0,
            yield_to_partner_bias: 0,
            partner_sprint_threshold: 3,
            bomb_conserve_bias: 0,
            bomb_aggression_when_enemy_low: 0,
            enemy_low_cards_threshold: 3,
            endgame_hand_count_threshold: 6,
            endgame_clear_hand_bias: 0,
            proactive_play_bias: 0,
            low_card_dump_bias: 0,
            pass_stall_penalty: 0,
            hand_tracker_enabled: true,
            prob_threshold_for_bomb: 60_000_000,
            prob_threshold_for_intercept: 40_000_000,
            enable_reason_trace: false,
        }
    }

    /// A balanced player.
    pub fn default_balanced() -> (params: Self)
        ensures
            params == balanced(),
            params.ok(),
    {
        AdvancedBotParams {
            team_win_weight: 100_000_000,
            first_out_weight: 80_000_000,
            second_out_weight: 90_000_000,
            yield_to_partner_bias: 140_000_000,
            partner_sprint_threshold: 3,
            bomb_conserve_bias: 80_000_000,
            bomb_aggression_when_enemy_low: 220_000_000,
            enemy_low_cards_threshold: 3,
            endgame_hand_count_threshold: 6,
            endgame_clear_hand_bias: 120_000_000,
            proactive_play_bias: 110_000_000,
            low_card_dump_bias: 140_000_000,
            pass_stall_penalty: 90_000_000,
            hand_tracker_enabled: true,
            prob_threshold_for_bomb: 60_000_000,
            prob_threshold_for_intercept: 40_000_000,
            enable_reason_trace: false,
            ..Self::scoring_defaults()
        }
    }

    /// A player who goes for the win alone.
    pub fn default_aggressive() -> (params: Self)
        ensures
            params == aggressive(),
            params.ok(),
    {
        AdvancedBotParams {
            team_win_weight: 90_000_000,
            first_out_weight: 140_000_000,
            second_out_weight: 70_000_000,
            yield_to_partner_bias: 60_000_000,
            partner_sprint_threshold: 2,
            bomb_conserve_bias: 30_000_000,
            bomb_aggression_when_enemy_low: 280_000_000,
            enemy_low_cards_threshold: 4,
            endgame_hand_count_threshold: 8,
            endgame_clear_hand_bias: 200_000_000,
            proactive_play_bias: 160_000_000,
            low_card_dump_bias: 110_000_000,
            pass_stall_penalty: 120_000_000,
            hand_tracker_enabled: true,
            prob_threshold_for_bomb: 50_000_000,
            prob_threshold_for_intercept: 30_000_000,
            enable_reason_trace: false,
            ..Self::scoring_defaults()
        }
    }

    /// A player who works for the partner.
    pub fn default_supportive() -> (params: Self)
        ensures
            params == supportive(),
            params.ok(),
    {
        AdvancedBotParams {
            team_win_weight: 140_000_000,
            first_out_weight: 70_000_000,
            second_out_weight: 130_000_000,
            yield_to_partner_bias: 220_000_000,
            partner_sprint_threshold: 4,
            bomb_conserve_bias: 110_000_000,
            bomb_aggression_when_enemy_low: 160_000_000,
            enemy_low_cards_threshold: 3,
            endgame_hand_count_threshold: 6,
            endgame_clear_hand_bias: 100_000_000,
            proactive_play_bias: 60_000_000,
            low_card_dump_bias: 120_000_000,
            pass_stall_penalty: 50_000_000,
            hand_tracker_enabled: true,
            prob_threshold_for_bomb: 70_000_000,
            prob_threshold_for_intercept: 50_000_000,
            enable_reason_trace: false,
            ..Self::scoring_defaults()
        }
    }

    /// The trained weights under the house rules, by which every table plays.
    pub fn house_params() -> (params: Self)
        ensures
            params == house(),
            params.ok(),
    {
        AdvancedBotParams {
            team_win_weight: 102_859_880,
            first_out_weight: 83_167_250,
            second_out_weight: 90_000_000,
            yield_to_partner_bias: 140_000_000,
            partner_sprint_threshold: 2,
            bomb_conserve_bias: 83_482_033,
            bomb_aggression_when_enemy_low: 220_000_000,
            enemy_low_cards_threshold: 6,
            endgame_hand_count_threshold: 6,
            endgame_clear_hand_bias: 120_824_840,
            proactive_play_bias: 110_000_000,
            low_card_dump_bias: 140_000_000,
            pass_stall_penalty: 90_296_406,
            hand_tracker_enabled: true,
            prob_threshold_for_bomb: 56_296_045,
            prob_threshold_for_intercept: 40_000_000,
            enable_reason_trace: false,
            keep_bomb_bonus: 49_999_548_000,
            wild_bomb_bonus: 25_000_000_000,
            upgraded_bomb_wild_mid: 30_000_000_000,
            upgraded_bomb_wild_end: 16_000_000_000,
            wild_plain_pair_mid: 80_000_000_000,
            wild_pair_penalty_end: 10_000_000_000,
            ..Self::scoring_defaults()
        }
    }

    /// Moves the weight with number `which` by `delta`, within that weight's range. The three
    /// thresholds and the two switches have no number.
    pub fn mutate_at(&self, which: usize, delta: i64) -> (params: Self)
        requires
            self.ok(),
            weight_ok(delta),
            which < 53,
        ensures
            params == moved(*self, which as int, delta as int),
            params.ok(),
    {
        let mut params = *self;
        match which {
            0 => {
                params.team_win_weight = shift(self.team_win_weight, delta, 10_000_000, 1_000_000_000);
            },
            1 => {
                params.first_out_weight = shift(self.first_out_weight, delta, 10_000_000, 1_000_000_000);
            },
            2 => {
                params.second_out_weight = shift(self.second_out_weight, delta, 10_000_000, 1_000_000_000);
            },
            3 => {
                params.yield_to_partner_bias = shift(self.yield_to_partner_bias, delta, 10_000_000, 1_000_000_000);
            },
            4 => {
                params.bomb_conserve_bias = shift(self.bomb_conserve_bias, delta, 10_000_000, 1_000_000_000);
            },
            5 => {
                params.bomb_aggression_when_enemy_low = shift(self.bomb_aggression_when_enemy_low, delta, 10_000_000, 1_000_000_000);
            },
            6 => {
                params.endgame_clear_hand_bias = shift(self.endgame_clear_hand_bias, delta, 10_000_000, 1_000_000_000);
            },
            7 => {
                params.proactive_play_bias = shift(self.proactive_play_bias, delta, 10_000_000, 1_000_000_000);
            },
            8 => {
                params.low_card_dump_bias = shift(self.low_card_dump_bias, delta, 10_000_000, 1_000_000_000);
            },
            9 => {
                params.pass_stall_penalty = shift(self.pass_stall_penalty, delta, 10_000_000, 1_000_000_000);
            },
            10 => {
                params.prob_threshold_for_bomb = shift(self.prob_threshold_for_bomb, delta, 10_000_000, 100_000_000);
            },
            11 => {
                params.prob_threshold_for_intercept = shift(self.prob_threshold_for_intercept, delta, 10_000_000, 100_000_000);
            },
            12 => {
                params.bomb_keep_single = shift(self.bomb_keep_single, delta, 100_000_000, 200_000_000_000);
            },
            13 => {
                params.last_bomb_penalty = shift(self.last_bomb_penalty, delta, 100_000_000, 200_000_000_000);
            },
            14 => {
                params.bomb_over_single = shift(self.bomb_over_single, delta, 100_000_000, 200_000_000_000);
            },
            15 => {
                params.bomb_over_pair = shift(self.bomb_over_pair, delta, 100_000_000, 200_000_000_000);
            },
            16 => {
                params.wild_bomb_bonus = shift(self.wild_bomb_bonus, delta, 100_000_000, 200_000_000_000);
            },
            17 => {
                params.wild_run_bonus = shift(self.wild_run_bonus, delta, 100_000_000, 200_000_000_000);
            },
            18 => {
                params.endgame_single_removal = shift(self.endgame_single_removal, delta, 100_000_000, 200_000_000_000);
            },
            19 => {
                params.endgame_small_single_removal = shift(self.endgame_small_single_removal, delta, 100_000_000, 200_000_000_000);
            },
            20 => {
                params.empty_lead_bomb_penalty = shift(self.empty_lead_bomb_penalty, delta, 100_000_000, 200_000_000_000);
            },
            21 => {
                params.split_penalty_scale = shift(self.split_penalty_scale, delta, 500_000_000, 10_000_000_000);
            },
            22 => {
                params.keep_bomb_bonus = shift(self.keep_bomb_bonus, delta, 100_000_000, 200_000_000_000);
            },
            23 => {
                params.solver_trick_penalty = shift(self.solver_trick_penalty, delta, 100_000_000, 200_000_000_000);
            },
            24 => {
                params.bomb_keep_many = shift(self.bomb_keep_many, delta, 100_000_000, 200_000_000_000);
            },
            25 => {
                params.intercept_sprint_bonus = shift(self.intercept_sprint_bonus, delta, 100_000_000, 200_000_000_000);
            },
            26 => {
                params.last_play_clear_bonus = shift(self.last_play_clear_bonus, delta, 100_000_000, 200_000_000_000);
            },
            27 => {
                params.combo_shape_bonus = shift(self.combo_shape_bonus, delta, 100_000_000, 200_000_000_000);
            },
            28 => {
                params.partner_feng_bonus = shift(self.partner_feng_bonus, delta, 100_000_000, 200_000_000_000);
            },
            29 => {
                params.partner_feng_lead_bonus = shift(self.partner_feng_lead_bonus, delta, 100_000_000, 200_000_000_000);
            },
            30 => {
                params.partner_feng_first_bonus = shift(self.partner_feng_first_bonus, delta, 100_000_000, 200_000_000_000);
            },
            31 => {
                params.teammate_combo_bonus = shift(self.teammate_combo_bonus, delta, 100_000_000, 200_000_000_000);
            },
            32 => {
                params.block_enemy_bonus = shift(self.block_enemy_bonus, delta, 100_000_000, 200_000_000_000);
            },
            33 => {
                params.straight_build_bonus = shift(self.straight_build_bonus, delta, 100_000_000, 200_000_000_000);
            },
            34 => {
                params.many_singles_penalty = shift(self.many_singles_penalty, delta, 100_000_000, 200_000_000_000);
            },
            35 => {
                params.single_lead_bonus = shift(self.single_lead_bonus, delta, 100_000_000, 200_000_000_000);
            },
            36 => {
                params.small_single_lead_bonus = shift(self.small_single_lead_bonus, delta, 100_000_000, 200_000_000_000);
            },
            37 => {
                params.small_card_lead_bonus = shift(self.small_card_lead_bonus, delta, 100_000_000, 200_000_000_000);
            },
            38 => {
                params.avoid_small_singles_each = shift(self.avoid_small_singles_each, delta, 100_000_000, 200_000_000_000);
            },
            39 => {
                params.lead_len_step = shift(self.lead_len_step, delta, 0, 10_000_000_000);
            },
            40 => {
                params.lead_len_step_endgame = shift(self.lead_len_step_endgame, delta, 0, 10_000_000_000);
            },
            41 => {
                params.lead_primary_step = shift(self.lead_primary_step, delta, 0, 5_000_000_000);
            },
            42 => {
                params.lead_primary_step_endgame = shift(self.lead_primary_step_endgame, delta, 0, 5_000_000_000);
            },
            43 => {
                params.solver_junk_bonus = shift(self.solver_junk_bonus, delta, 0, 50_000_000_000);
            },
            44 => {
                params.dual_wild_penalty_mid = shift(self.dual_wild_penalty_mid, delta, 100_000_000, 200_000_000_000);
            },
            45 => {
                params.dual_wild_penalty_end = shift(self.dual_wild_penalty_end, delta, 100_000_000, 200_000_000_000);
            },
            46 => {
                params.upgraded_bomb_wild_mid = shift(self.upgraded_bomb_wild_mid, delta, 100_000_000, 200_000_000_000);
            },
            47 => {
                params.upgraded_bomb_wild_end = shift(self.upgraded_bomb_wild_end, delta, 100_000_000, 200_000_000_000);
            },
            48 => {
                params.wild_on_level_mid = shift(self.wild_on_level_mid, delta, 100_000_000, 200_000_000_000);
            },
            49 => {
                params.wild_on_level_end = shift(self.wild_on_level_end, delta, 100_000_000, 200_000_000_000);
            },
            50 => {
                params.wild_plain_pair_mid = shift(self.wild_plain_pair_mid, delta, 100_000_000, 200_000_000_000);
            },
            51 => {
                params.wild_pair_penalty_end = shift(self.wild_pair_penalty_end, delta, 100_000_000, 200_000_000_000);
            },
            _ => {
                params.bare_dual_wild_extra = shift(self.bare_dual_wild_extra, delta, 100_000_000, 200_000_000_000);
            },
        }
        params
    }

    /// Moves one weight, picked by chance, by a chance amount of less than `step`.
    pub fn mutate_random(&self, step: i64) -> (params: Self)
        requires
            self.ok(),
            0 < step <= WEIGHT_LIMIT,
        ensures
            params.ok(),
            exists|which: int, delta: int|
                0 <= which < 53 && -step <= delta < step && params == #[trigger] moved(
                    *self,
                    which,
                    delta,
                ),
    {
        let which: usize = random_index(53);
        let delta: i64 = random_between(-step, step);
        let params = self.mutate_at(which, delta);
        assert(params == moved(*self, which as int, delta as int));
        params
    }
}

impl Default for AdvancedBotParams {
    fn default() -> (params: Self)
        ensures
            params == balanced(),
    {
        Self::default_balanced()
    }
}

/// A number moved by `delta` and held between two others.
pub open spec fn held_between(w: int, delta: int, low: int, high: int) -> i64 {
    if w + delta < low {
        low as i64
    } else if w + delta > high {
        high as i64
    } else {
        (w + delta) as i64
    }
}

fn shift(w: i64, delta: i64, low: i64, high: i64) -> (moved: i64)
    requires
        weight_ok(w),
        weight_ok(delta),
        low <= high,
    ensures
        moved == held_between(w as int, delta as int, low as int, high as int),
        low <= moved <= high,
{
    let next: i64 = w + delta;
    if next < low {
        low
    } else if next > high {
        high
    } else {
        next
    }
}

/// The weights with the one numbered `which` moved by `delta` within its range.
pub open spec fn moved(p: AdvancedBotParams, which: int, delta: int) -> AdvancedBotParams {
    if which == 0 {
        AdvancedBotParams {
            team_win_weight: held_between(p.team_win_weight as int, delta, 10_000_000, 1_000_000_000),
            ..p
        }
    } else if which == 1 {
        AdvancedBotParams {
            first_out_weight: held_between(p.first_out_weight as int, delta, 10_000_000, 1_000_000_000),
            ..p
        }
    } else if which == 2 {
        AdvancedBotParams {
            second_out_weight: held_between(p.second_out_weight as int, delta, 10_000_000, 1_000_000_000),
            ..p
        }
    } else if which == 3 {
        AdvancedBotParams {
            yield_to_partner_bias: held_between(p.yield_to_partner_bias as int, delta, 10_000_000, 1_000_000_000),
            ..p
        }
    } else if which == 4 {
        AdvancedBotParams {
            bomb_conserve_bias: held_between(p.bomb_conserve_bias as int, delta, 10_000_000, 1_000_000_000),
            ..p
        }
    } else if which == 5 {
        AdvancedBotParams {
            bomb_aggression_when_enemy_low: held_between(p.bomb_aggression_when_enemy_low as int, delta, 10_000_000, 1_000_000_000),
            ..p
        }
    } else if which == 6 {
        AdvancedBotParams {
            endgame_clear_hand_bias: held_between(p.endgame_clear_hand_bias as int, delta, 10_000_000, 1_000_000_000),
            ..p
        }
    } else if which == 7 {
        AdvancedBotParams {
            proactive_play_bias: held_between(p.proactive_play_bias as int, delta, 10_000_000, 1_000_000_000),
            ..p
        }
    } else if which == 8 {
        AdvancedBotParams {
            low_card_dump_bias: held_between(p.low_card_dump_bias as int, delta, 10_000_000, 1_000_000_000),
            ..p
        }
    } else if which == 9 {
        AdvancedBotParams {
            pass_stall_penalty: held_between(p.pass_stall_penalty as int, delta, 10_000_000, 1_000_000_000),
            ..p
        }
    } else if which == 10 {
        AdvancedBotParams {
            prob_threshold_for_bomb: held_between(p.prob_threshold_for_bomb as int, delta, 10_000_000, 100_000_000),
            ..p
        }
    } else if which == 11 {
        AdvancedBotParams {
            prob_threshold_for_intercept: held_between(p.prob_threshold_for_intercept as int, delta, 10_000_000, 100_000_000),
            ..p
        }
    } else if which == 12 {
        AdvancedBotParams {
            bomb_keep_single: held_between(p.bomb_keep_single as int, delta, 100_000_000, 200_000_000_000),
            ..p
        }
    } else if which == 13 {
        AdvancedBotParams {
            last_bomb_penalty: held_between(p.last_bomb_penalty as int, delta, 100_000_000, 200_000_000_000),
            ..p
        }
    } else if which == 14 {
        AdvancedBotParams {
            bomb_over_single: held_between(p.bomb_over_single as int, delta, 100_000_000, 200_000_000_000),
            ..p
        }
    } else if which == 15 {
        AdvancedBotParams {
            bomb_over_pair: held_between(p.bomb_over_pair as int, delta, 100_000_000, 200_000_000_000),
            ..p
        }
    } else if which == 16 {
        AdvancedBotParams {
            wild_bomb_bonus: held_between(p.wild_bomb_bonus as int, delta, 100_000_000, 200_000_000_000),
            ..p
        }
    } else if which == 17 {
        AdvancedBotParams {
            wild_run_bonus: held_between(p.wild_run_bonus as int, delta, 100_000_000, 200_000_000_000),
            ..p
        }
    } else if which == 18 {
        AdvancedBotParams {
            endgame_single_removal: held_between(p.endgame_single_removal as int, delta, 100_000_000, 200_000_000_000),
            ..p
        }
    } else if which == 19 {
        AdvancedBotParams {
            endgame_small_single_removal: held_between(p.endgame_small_single_removal as int, delta, 100_000_000, 200_000_000_000),
            ..p
        }
    } else if which == 20 {
        AdvancedBotParams {
            empty_lead_bomb_penalty: held_between(p.empty_lead_bomb_penalty as int, delta, 100_000_000, 200_000_000_000),
            ..p
        }
    } else if which == 21 {
        AdvancedBotParams {
            split_penalty_scale: held_between(p.split_penalty_scale as int, delta, 500_000_000, 10_000_000_000),
            ..p
        }
    } else if which == 22 {
        AdvancedBotParams {
            keep_bomb_bonus: held_between(p.keep_bomb_bonus as int, delta, 100_000_000, 200_000_000_000),
            ..p
        }
    } else if which == 23 {
        AdvancedBotParams {
            solver_trick_penalty: held_between(p.solver_trick_penalty as int, delta, 100_000_000, 200_000_000_000),
            ..p
        }
    } else if which == 24 {
        AdvancedBotParams {
            bomb_keep_many: held_between(p.bomb_keep_many as int, delta, 100_000_000, 200_000_000_000),
            ..p
        }
    } else if which == 25 {
        AdvancedBotParams {
            intercept_sprint_bonus: held_between(p.intercept_sprint_bonus as int, delta, 100_000_000, 200_000_000_000),
            ..p
        }
    } else if which == 26 {
        AdvancedBotParams {
            last_play_clear_bonus: held_between(p.last_play_clear_bonus as int, delta, 100_000_000, 200_000_000_000),
            ..p
        }
    } else if which == 27 {
        AdvancedBotParams {
            combo_shape_bonus: held_between(p.combo_shape_bonus as int, delta, 100_000_000, 200_000_000_000),
            ..p
        }
    } else if which == 28 {
        AdvancedBotParams {
            partner_feng_bonus: held_between(p.partner_feng_bonus as int, delta, 100_000_000, 200_000_000_000),
            ..p
        }
    } else if which == 29 {
        AdvancedBotParams {
            partner_feng_lead_bonus: held_between(p.partner_feng_lead_bonus as int, delta, 100_000_000, 200_000_000_000),
            ..p
        }
    } else if which == 30 {
        AdvancedBotParams {
            partner_feng_first_bonus: held_between(p.partner_feng_first_bonus as int, delta, 100_000_000, 200_000_000_000),
            ..p
        }
    } else if which == 31 {
        AdvancedBotParams {
            teammate_combo_bonus: held_between(p.teammate_combo_bonus as int, delta, 100_000_000, 200_000_000_000),
            ..p
        }
    } else if which == 32 {
        AdvancedBotParams {
            block_enemy_bonus: held_between(p.block_enemy_bonus as int, delta, 100_000_000, 200_000_000_000),
            ..p
        }
    } else if which == 33 {
        AdvancedBotParams {
            straight_build_bonus: held_between(p.straight_build_bonus as int, delta, 100_000_000, 200_000_000_000),
            ..p
        }
    } else if which == 34 {
        AdvancedBotParams {
            many_singles_penalty: held_between(p.many_singles_penalty as int, delta, 100_000_000, 200_000_000_000),
            ..p
        }
    } else if which == 35 {
        AdvancedBotParams {
            single_lead_bonus: held_between(p.single_lead_bonus as int, delta, 100_000_000, 200_000_000_000),
            ..p
        }
    } else if which == 36 {
        AdvancedBotParams {
            small_single_lead_bonus: held_between(p.small_single_lead_bonus as int, delta, 100_000_000, 200_000_000_000),
            ..p
        }
    } else if which == 37 {
        AdvancedBotParams {
            small_card_lead_bonus: held_between(p.small_card_lead_bonus as int, delta, 100_000_000, 200_000_000_000),
            ..p
        }
    } else if which == 38 {
        AdvancedBotParams {
            avoid_small_singles_each: held_between(p.avoid_small_singles_each as int, delta, 100_000_000, 200_000_000_000),
            ..p
        }
    } else if which == 39 {
        AdvancedBotParams {
            lead_len_step: held_between(p.lead_len_step as int, delta, 0, 10_000_000_000),
            ..p
        }
    } else if which == 40 {
        AdvancedBotParams {
            lead_len_step_endgame: held_between(p.lead_len_step_endgame as int, delta, 0, 10_000_000_000),
            ..p
        }
    } else if which == 41 {
        AdvancedBotParams {
            lead_primary_step: held_between(p.lead_primary_step as int, delta, 0, 5_000_000_000),
            ..p
        }
    } else if which == 42 {
        AdvancedBotParams {
            lead_primary_step_endgame: held_between(p.lead_primary_step_endgame as int, delta, 0, 5_000_000_000),
            ..p
        }
    } else if which == 43 {
        AdvancedBotParams {
            solver_junk_bonus: held_between(p.solver_junk_bonus as int, delta, 0, 50_000_000_000),
            ..p
        }
    } else if which == 44 {
        AdvancedBotParams {
            dual_wild_penalty_mid: held_between(p.dual_wild_penalty_mid as int, delta, 100_000_000, 200_000_000_000),
            ..p
        }
    } else if which == 45 {
        AdvancedBotParams {
            dual_wild_penalty_end: held_between(p.dual_wild_penalty_end as int, delta, 100_000_000, 200_000_000_000),
            ..p
        }
    } else if which == 46 {
        AdvancedBotParams {
            upgraded_bomb_wild_mid: held_between(p.upgraded_bomb_wild_mid as int, delta, 100_000_000, 200_000_000_000),
            ..p
        }
    } else if which == 47 {
        AdvancedBotParams {
            upgraded_bomb_wild_end: held_between(p.upgraded_bomb_wild_end as int, delta, 100_000_000, 200_000_000_000),
            ..p
        }
    } else if which == 48 {
        AdvancedBotParams {
            wild_on_level_mid: held_between(p.wild_on_level_mid as int, delta, 100_000_000, 200_000_000_000),
            ..p
        }
    } else if which == 49 {
        AdvancedBotParams {
            wild_on_level_end: held_between(p.wild_on_level_end as int, delta, 100_000_000, 200_000_000_000),
            ..p
        }
    } else if which == 50 {
        AdvancedBotParams {
            wild_plain_pair_mid: held_between(p.wild_plain_pair_mid as int, delta, 100_000_000, 200_000_000_000),
            ..p
        }
    } else if which == 51 {
        AdvancedBotParams {
            wild_pair_penalty_end: held_between(p.wild_pair_penalty_end as int, delta, 100_000_000, 200_000_000_000),
            ..p
        }
    } else {
        AdvancedBotParams {
            bare_dual_wild_extra: held_between(p.bare_dual_wild_extra as int, delta, 100_000_000, 200_000_000_000),
            ..p
        }
    }
}

/// Training moves weights only: the thresholds and switches, which are house rules, stay.
pub proof fn mutation_keeps_house_rules(p: AdvancedBotParams, which: int, delta: int)
    ensures
        moved(p, which, delta).partner_sprint_threshold == p.partner_sprint_threshold,
        moved(p, which, delta).enemy_low_cards_threshold == p.enemy_low_cards_threshold,
        moved(p, which, delta).endgame_hand_count_threshold == p.endgame_hand_count_threshold,
        moved(p, which, delta).hand_tracker_enabled == p.hand_tracker_enabled,
        moved(p, which, delta).enable_reason_trace == p.enable_reason_trace,
{
}

/// The weight that training gives a number.
pub open spec fn weight_at(p: AdvancedBotParams, which: int) -> i64 {
    if which == 0 {
        p.team_win_weight
    } else if which == 1 {
        p.first_out_weight
    } else if which == 2 {
        p.second_out_weight
    } else if which == 3 {
        p.yield_to_partner_bias
    } else if which == 4 {
        p.bomb_conserve_bias
    } else if which == 5 {
        p.bomb_aggression_when_enemy_low
    } else if which == 6 {
        p.endgame_clear_hand_bias
    } else if which == 7 {
        p.proactive_play_bias
    } else if which == 8 {
        p.low_card_dump_bias
    } else if which == 9 {
        p.pass_stall_penalty
    } else if which == 10 {
        p.prob_threshold_for_bomb
    } else if which == 11 {
        p.prob_threshold_for_intercept
    } else if which == 12 {
        p.bomb_keep_single
    } else if which == 13 {
        p.last_bomb_penalty
    } else if which == 14 {
        p.bomb_over_single
    } else if which == 15 {
        p.bomb_over_pair
    } else if which == 16 {
        p.wild_bomb_bonus
    } else if which == 17 {
        p.wild_run_bonus
    } else if which == 18 {
        p.endgame_single_removal
    } else if which == 19 {
        p.endgame_small_single_removal
    } else if which == 20 {
        p.empty_lead_bomb_penalty
    } else if which == 21 {
        p.split_penalty_scale
    } else if which == 22 {
        p.keep_bomb_bonus
    } else if which == 23 {
        p.solver_trick_penalty
    } else if which == 24 {
        p.bomb_keep_many
    } else if which == 25 {
        p.intercept_sprint_bonus
    } else if which == 26 {
        p.last_play_clear_bonus
    } else if which == 27 {
        p.combo_shape_bonus
    } else if which == 28 {
        p.partner_feng_bonus
    } else if which == 29 {
        p.partner_feng_lead_bonus
    } else if which == 30 {
        p.partner_feng_first_bonus
    } else if which == 31 {
        p.teammate_combo_bonus
    } else if which == 32 {
        p.block_enemy_bonus
    } else if which == 33 {
        p.straight_build_bonus
    } else if which == 34 {
        p.many_singles_penalty
    } else if which == 35 {
        p.single_lead_bonus
    } else if which == 36 {
        p.small_single_lead_bonus
    } else if which == 37 {
        p.small_card_lead_bonus
    } else if which == 38 {
        p.avoid_small_singles_each
    } else if which == 39 {
        p.lead_len_step
    } else if which == 40 {
        p.lead_len_step_endgame
    } else if which == 41 {
        p.lead_primary_step
    } else if which == 42 {
        p.lead_primary_step_endgame
    } else if which == 43 {
        p.solver_junk_bonus
    } else if which == 44 {
        p.dual_wild_penalty_mid
    } else if which == 45 {
        p.dual_wild_penalty_end
    } else if which == 46 {
        p.upgraded_bomb_wild_mid
    } else if which == 47 {
        p.upgraded_bomb_wild_end
    } else if which == 48 {
        p.wild_on_level_mid
    } else if which == 49 {
        p.wild_on_level_end
    } else if which == 50 {
        p.wild_plain_pair_mid
    } else if which == 51 {
        p.wild_pair_penalty_end
    } else {
        p.bare_dual_wild_extra
    }
}

/// The range of a weight that training moves: up to ten for those of the game plan, up to one for
/// chances, five to a hundred for the price of breaking up groups, from nothing up for steps and
/// for single cards that go, and one to two thousand for all others.
pub open spec fn weight_range(which: int) -> (int, int) {
    let unit = 100_000_000int;
    if which < 10 {
        (unit / 10, 10 * unit)
    } else if which < 12 {
        (unit / 10, unit)
    } else if which == 21 {
        (5 * unit, 100 * unit)
    } else if which == 39 || which == 40 {
        (0, 100 * unit)
    } else if which == 41 || which == 42 {
        (0, 50 * unit)
    } else if which == 43 {
        (0, 500 * unit)
    } else {
        (unit, 2000 * unit)
    }
}

/// Weights that a mutation leaves, and the one that it moves within its range.
pub open spec fn moves_one(p: AdvancedBotParams, which: int, delta: int, k: int) -> bool {
    let before = weight_at(p, k);
    let after = weight_at(moved(p, which, delta), k);
    let (low, high) = weight_range(which);
    &&& k != which ==> after == before
    &&& k == which ==> low <= after <= high
    &&& k == which && low <= before + delta <= high ==> after == before + delta
    &&& k == which && before + delta < low ==> after == low
    &&& k == which && before + delta > high ==> after == high
}

#[verifier::rlimit(60)]
#[verifier::spinoff_prover]
proof fn lemma_moves_from_0(p: AdvancedBotParams, which: int, delta: int, k: int)
    requires
        0 <= which < 6,
        0 <= k < 53,
    ensures
        moves_one(p, which, delta, k),
{
    if which == 0 {
        assert(moves_one(p, 0, delta, k));
    } else if which == 1 {
        assert(moves_one(p, 1, delta, k));
    } else if which == 2 {
        assert(moves_one(p, 2, delta, k));
    } else if which == 3 {
        assert(moves_one(p, 3, delta, k));
    } else if which == 4 {
        assert(moves_one(p, 4, delta, k));
    } else if which == 5 {
        assert(moves_one(p, 5, delta, k));
    }
}

#[verifier::rlimit(60)]
#[verifier::spinoff_prover]
proof fn lemma_moves_from_6(p: AdvancedBotParams, which: int, delta: int, k: int)
    requires
        6 <= which < 12,
        0 <= k < 53,
    ensures
        moves_one(p, which, delta, k),
{
    if which == 6 {
        assert(moves_one(p, 6, delta, k));
    } else if which == 7 {
        assert(moves_one(p, 7, delta, k));
    } else if which == 8 {
        assert(moves_one(p, 8, delta, k));
    } else if which == 9 {
        assert(moves_one(p, 9, delta, k));
    } else if which == 10 {
        assert(moves_one(p, 10, delta, k));
    } else if which == 11 {
        assert(moves_one(p, 11, delta, k));
    }
}

#[verifier::rlimit(60)]
#[verifier::spinoff_prover]
proof fn lemma_moves_from_12(p: AdvancedBotParams, which: int, delta: int, k: int)
    requires
        12 <= which < 18,
        0 <= k < 53,
    ensures
        moves_one(p, which, delta, k),
{
    if which == 12 {
        assert(moves_one(p, 12, delta, k));
    } else if which == 13 {
        assert(moves_one(p, 13, delta, k));
    } else if which == 14 {
        assert(moves_one(p, 14, delta, k));
    } else if which == 15 {
        assert(moves_one(p, 15, delta, k));
    } else if which == 16 {
        assert(moves_one(p, 16, delta, k));
    } else if which == 17 {
        assert(moves_one(p, 17, delta, k));
    }
}

#[verifier::rlimit(60)]
#[verifier::spinoff_prover]
proof fn lemma_moves_from_18(p: AdvancedBotParams, which: int, delta: int, k: int)
    requires
        18 <= which < 24,
        0 <= k < 53,
    ensures
        moves_one(p, which, delta, k),
{
    if which == 18 {
        assert(moves_one(p, 18, delta, k));
    } else if which == 19 {
        assert(moves_one(p, 19, delta, k));
    } else if which == 20 {
        assert(moves_one(p, 20, delta, k));
    } else if which == 21 {
        assert(moves_one(p, 21, delta, k));
    } else if which == 22 {
        assert(moves_one(p, 22, delta, k));
    } else if which == 23 {
        assert(moves_one(p, 23, delta, k));
    }
}

#[verifier::rlimit(60)]
#[verifier::spinoff_prover]
proof fn lemma_moves_from_24(p: AdvancedBotParams, which: int, delta: int, k: int)
    requires
        24 <= which < 30,
        0 <= k < 53,
    ensures
        moves_one(p, which, delta, k),
{
    if which == 24 {
        assert(moves_one(p, 24, delta, k));
    } else if which == 25 {
        assert(moves_one(p, 25, delta, k));
    } else if which == 26 {
        assert(moves_one(p, 26, delta, k));
    } else if which == 27 {
        assert(moves_one(p, 27, delta, k));
    } else if which == 28 {
        assert(moves_one(p, 28, delta, k));
    } else if which == 29 {
        assert(moves_one(p, 29, delta, k));
    }
}

#[verifier::rlimit(60)]
#[verifier::spinoff_prover]
proof fn lemma_moves_from_30(p: AdvancedBotParams, which: int, delta: int, k: int)
    requires
        30 <= which < 36,
        0 <= k < 53,
    ensures
        moves_one(p, which, delta, k),
{
    if which == 30 {
        assert(moves_one(p, 30, delta, k));
    } else if which == 31 {
        assert(moves_one(p, 31, delta, k));
    } else if which == 32 {
        assert(moves_one(p, 32, delta, k));
    } else if which == 33 {
        assert(moves_one(p, 33, delta, k));
    } else if which == 34 {
        assert(moves_one(p, 34, delta, k));
    } else if which == 35 {
        assert(moves_one(p, 35, delta, k));
    }
}

#[verifier::rlimit(60)]
#[verifier::spinoff_prover]
proof fn lemma_moves_from_36(p: AdvancedBotParams, which: int, delta: int, k: int)
    requires
        36 <= which < 42,
        0 <= k < 53,
    ensures
        moves_one(p, which, delta, k),
{
    if which == 36 {
        assert(moves_one(p, 36, delta, k));
    } else if which == 37 {
        assert(moves_one(p, 37, delta, k));
    } else if which == 38 {
        assert(moves_one(p, 38, delta, k));
    } else if which == 39 {
        assert(moves_one(p, 39, delta, k));
    } else if which == 40 {
        assert(moves_one(p, 40, delta, k));
    } else if which == 41 {
        assert(moves_one(p, 41, delta, k));
    }
}

#[verifier::rlimit(60)]
#[verifier::spinoff_prover]
proof fn lemma_moves_from_42(p: AdvancedBotParams, which: int, delta: int, k: int)
    requires
        42 <= which < 48,
        0 <= k < 53,
    ensures
        moves_one(p, which, delta, k),
{
    if which == 42 {
        assert(moves_one(p, 42, delta, k));
    } else if which == 43 {
        assert(moves_one(p, 43, delta, k));
    } else if which == 44 {
        assert(moves_one(p, 44, delta, k));
    } else if which == 45 {
        assert(moves_one(p, 45, delta, k));
    } else if which == 46 {
        assert(moves_one(p, 46, delta, k));
    } else if which == 47 {
        assert(moves_one(p, 47, delta, k));
    }
}

#[verifier::rlimit(60)]
#[verifier::spinoff_prover]
proof fn lemma_moves_from_48(p: AdvancedBotParams, which: int, delta: int, k: int)
    requires
        48 <= which < 53,
        0 <= k < 53,
    ensures
        moves_one(p, which, delta, k),
{
    if which == 48 {
        assert(moves_one(p, 48, delta, k));
    } else if which == 49 {
        assert(moves_one(p, 49, delta, k));
    } else if which == 50 {
        assert(moves_one(p, 50, delta, k));
    } else if which == 51 {
        assert(moves_one(p, 51, delta, k));
    } else if which == 52 {
        assert(moves_one(p, 52, delta, k));
    }
}

/// Training moves one weight at a time: by as much as is asked, as far as its range goes, and none
/// of the others.
pub proof fn mutation_moves_one_weight(p: AdvancedBotParams, which: int, delta: int, k: int)
    requires
        0 <= which < 53,
        0 <= k < 53,
    ensures
        ({
            let before = weight_at(p, k);
            let after = weight_at(moved(p, which, delta), k);
            let (low, high) = weight_range(which);
            &&& k != which ==> after == before
            &&& k == which ==> low <= after <= high
            &&& k == which && low <= before + delta <= high ==> after == before + delta
            &&& k == which && before + delta < low ==> after == low
            &&& k == which && before + delta > high ==> after == high
        }),
{
    if which < 6 {
        lemma_moves_from_0(p, which, delta, k);
    } else if which < 12 {
        lemma_moves_from_6(p, which, delta, k);
    } else if which < 18 {
        lemma_moves_from_12(p, which, delta, k);
    } else if which < 24 {
        lemma_moves_from_18(p, which, delta, k);
    } else if which < 30 {
        lemma_moves_from_24(p, which, delta, k);
    } else if which < 36 {
        lemma_moves_from_30(p, which, delta, k);
    } else if which < 42 {
        lemma_moves_from_36(p, which, delta, k);
    } else if which < 48 {
        lemma_moves_from_42(p, which, delta, k);
    } else {
        lemma_moves_from_48(p, which, delta, k);
    }
}

/// How the presets differ: the aggressive player goes out first and bombs and plays on more than
/// the balanced one, and yields, keeps bombs and helps the partner out less; the supportive one the
/// other way round. In all else they are alike.
pub proof fn presets_differ_in_temper(a: AdvancedBotParams, b: AdvancedBotParams, c: AdvancedBotParams)
    requires
        a == aggressive(),
        b == balanced(),
        c == supportive(),
    ensures
        a.first_out_weight > b.first_out_weight > c.first_out_weight,
        a.second_out_weight < b.second_out_weight < c.second_out_weight,
        a.team_win_weight < b.team_win_weight < c.team_win_weight,
        a.yield_to_partner_bias < b.yield_to_partner_bias < c.yield_to_partner_bias,
        a.bomb_conserve_bias < b.bomb_conserve_bias < c.bomb_conserve_bias,
        a.bomb_aggression_when_enemy_low > b.bomb_aggression_when_enemy_low
            > c.bomb_aggression_when_enemy_low,
        a.endgame_clear_hand_bias > b.endgame_clear_hand_bias > c.endgame_clear_hand_bias,
        a.proactive_play_bias > b.proactive_play_bias > c.proactive_play_bias,
        a.pass_stall_penalty > b.pass_stall_penalty > c.pass_stall_penalty,
        a.prob_threshold_for_bomb < b.prob_threshold_for_bomb < c.prob_threshold_for_bomb,
        a.prob_threshold_for_intercept < b.prob_threshold_for_intercept
            < c.prob_threshold_for_intercept,
        a.partner_sprint_threshold < b.partner_sprint_threshold < c.partner_sprint_threshold,
        a.endgame_hand_count_threshold > b.endgame_hand_count_threshold
            == c.endgame_hand_count_threshold,
        forall|k: int| 12 <= k < 53 ==> #[trigger] weight_at(a, k) == weight_at(b, k) == weight_at(c, k),
{
}

} // verus!
