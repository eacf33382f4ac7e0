//! From how people play to the weights of the bot.

use vstd::prelude::*;
use crate::game_log::GameLogEntry;
use crate::params::{AdvancedBotParams, balanced, held_between};
use crate::record_learner::{
    LogTally, PlayerPatterns, analyze_game_log, entry_patterns, human_won, patterns_of, proper,
    tally_of, usual_patterns,
};

verus! {

/// The patterns of a logged hand.
pub open spec fn patterns_at(e: GameLogEntry) -> PlayerPatterns {
    if e.human_seats@.len() == 0 || e.actions@.len() == 0 {
        usual_patterns()
    } else {
        patterns_of(choose|t: LogTally| #[trigger] tally_of(t, e, e.actions@.len() as int))
    }
}

proof fn lemma_patterns_at(p: PlayerPatterns, e: GameLogEntry)
    requires
        entry_patterns(p, e),
    ensures
        p == patterns_at(e),
{
    if e.human_seats@.len() != 0 && e.actions@.len() != 0 {
        let t = choose|t: LogTally| #[trigger]
            tally_of(t, e, e.actions@.len() as int) && p == patterns_of(t);
        let u = choose|t: LogTally| #[trigger] tally_of(t, e, e.actions@.len() as int);
        assert(t == u);
    }
}

/// The `k`-th share.
pub open spec fn pattern(p: PlayerPatterns, k: int) -> i64 {
    if k == 0 {
        p.avg_hand_size_at_first_play
    } else if k == 1 {
        p.bomb_usage_rate
    } else if k == 2 {
        p.pass_when_partner_leads_rate
    } else if k == 3 {
        p.follow_partner_small_card_rate
    } else if k == 4 {
        p.intercept_enemy_small_card_rate
    } else if k == 5 {
        p.bomb_when_enemy_low_cards_rate
    } else if k == 6 {
        p.save_bomb_for_endgame_rate
    } else if k == 7 {
        p.level_card_usage_rate
    } else if k == 8 {
        p.combo_follow_rate
    } else {
        p.proactive_play_rate
    }
}

/// A hand with people in it that ended as asked.
pub open spec fn counted(e: GameLogEntry, won: bool) -> bool {
    e.human_seats@.len() > 0 && human_won(e) == won
}

/// How many of the first `n` hands people have won, or lost.
pub open spec fn hands_counted(logs: Seq<GameLogEntry>, won: bool, n: int) -> nat
    decreases n,
{
    if n <= 0 {
        0
    } else {
        hands_counted(logs, won, n - 1) + if counted(logs[n - 1], won) {
            1nat
        } else {
            0nat
        }
    }
}

/// The `k`-th share summed over those hands, the usual one included once.
pub open spec fn pattern_sum(logs: Seq<GameLogEntry>, won: bool, k: int, n: int) -> int
    decreases n,
{
    if n <= 0 {
        pattern(usual_patterns(), k) as int
    } else {
        pattern_sum(logs, won, k, n - 1) + if counted(logs[n - 1], won) {
            pattern(patterns_at(logs[n - 1]), k) as int
        } else {
            0
        }
    }
}

/// The `k`-th share on average, rounded down; the usual one where there is no such hand.
pub open spec fn pattern_mean(logs: Seq<GameLogEntry>, won: bool, k: int) -> i64 {
    let sum = pattern_sum(logs, won, k, logs.len() as int);
    let n = hands_counted(logs, won, logs.len() as int);
    if n == 0 {
        sum as i64
    } else {
        (sum / n as int) as i64
    }
}

/// How people play when they win, or lose.
pub open spec fn mean_patterns(logs: Seq<GameLogEntry>, won: bool) -> PlayerPatterns {
    PlayerPatterns {
        avg_hand_size_at_first_play: pattern_mean(logs, won, 0),
        bomb_usage_rate: pattern_mean(logs, won, 1),
        pass_when_partner_leads_rate: pattern_mean(logs, won, 2),
        follow_partner_small_card_rate: pattern_mean(logs, won, 3),
        intercept_enemy_small_card_rate: pattern_mean(logs, won, 4),
        bomb_when_enemy_low_cards_rate: pattern_mean(logs, won, 5),
        save_bomb_for_endgame_rate: pattern_mean(logs, won, 6),
        level_card_usage_rate: pattern_mean(logs, won, 7),
        combo_follow_rate: pattern_mean(logs, won, 8),
        proactive_play_rate: pattern_mean(logs, won, 9),
    }
}

/// How people play, won hands and lost hands apart.
#[derive(Clone, Copy, Debug, PartialEq, Eq, Structural)]
pub struct LogAnalysis {
    pub winning_patterns: PlayerPatterns,
    pub losing_patterns: PlayerPatterns,
    pub human_wins: usize,
    pub human_losses: usize,
    pub total_games: usize,
}

fn get_pattern(p: &PlayerPatterns, k: usize) -> (x: i64)
    ensures
        x == pattern(*p, k as int),
{
    match k {
        0 => p.avg_hand_size_at_first_play,
        1 => p.bomb_usage_rate,
        2 => p.pass_when_partner_leads_rate,
        3 => p.follow_partner_small_card_rate,
        4 => p.intercept_enemy_small_card_rate,
        5 => p.bomb_when_enemy_low_cards_rate,
        6 => p.save_bomb_for_endgame_rate,
        7 => p.level_card_usage_rate,
        8 => p.combo_follow_rate,
        _ => p.proactive_play_rate,
    }
}

/// Sums of shares so far.
struct Sums {
    of: Vec<i128>,
    hands: usize,
}

spec fn sums_of(s: Sums, logs: Seq<GameLogEntry>, won: bool, n: int) -> bool {
    &&& s.of@.len() == 10
    &&& s.hands == hands_counted(logs, won, n)
    &&& s.hands <= n
    &&& forall|k: int|
        0 <= k < 10 ==> #[trigger] s.of@[k] == pattern_sum(logs, won, k, n) && 0 <= s.of@[k]
            <= 2_700_000_000 * (s.hands + 1)
}

fn start_sums(Ghost(logs): Ghost<Seq<GameLogEntry>>, Ghost(won): Ghost<bool>) -> (s: Sums)
    ensures
        sums_of(s, logs, won, 0),
{
    let usual = PlayerPatterns::default();
    let mut of: Vec<i128> = Vec::new();
    for k in 0..10
        invariant
            usual == usual_patterns(),
            of@.len() == k,
            forall|j: int|
                0 <= j < k ==> #[trigger] of@[j] == pattern_sum(logs, won, j, 0) && 0 <= of@[j]
                    <= 2_700_000_000,
    {
        of.push(get_pattern(&usual, k) as i128);
    }
    Sums { of, hands: 0 }
}

fn add_hand(s: &mut Sums, p: &PlayerPatterns, Ghost(logs): Ghost<Seq<GameLogEntry>>, Ghost(
    won,
): Ghost<bool>, i: usize)
    requires
        i < logs.len() <= usize::MAX,
        sums_of(*old(s), logs, won, i as int),
        proper(*p),
        *p == patterns_at(logs[i as int]),
        counted(logs[i as int], won),
    ensures
        sums_of(*final(s), logs, won, i + 1),
{
    let ghost before = s.of@;
    let ghost hands = s.hands;
    let mut next: Vec<i128> = Vec::new();
    for k in 0..10
        invariant
            i < logs.len() <= usize::MAX,
            s.of@ == before,
            s.hands == hands,
            sums_of(*s, logs, won, i as int),
            proper(*p),
            *p == patterns_at(logs[i as int]),
            counted(logs[i as int], won),
            next@.len() == k,
            forall|j: int|
                0 <= j < k ==> #[trigger] next@[j] == pattern_sum(logs, won, j, i + 1) && 0
                    <= next@[j] <= 2_700_000_000 * (hands + 2),
    {
        assert(before[k as int] == pattern_sum(logs, won, k as int, i as int));
        let x: i128 = s.of[k];
        let y: i64 = get_pattern(p, k);
        assert(0 <= y <= 2_700_000_000);
        next.push(x + y as i128);
    }
    s.of = next;
    s.hands = s.hands + 1;
}

fn mean(s: &Sums, k: usize, Ghost(logs): Ghost<Seq<GameLogEntry>>, Ghost(won): Ghost<bool>) -> (x: i64)
    requires
        k < 10,
        sums_of(*s, logs, won, logs.len() as int),
    ensures
        x == pattern_mean(logs, won, k as int),
        0 <= x <= 5_400_000_000,
{
    assert(s.of@[k as int] == pattern_sum(logs, won, k as int, logs.len() as int));
    let sum: i128 = s.of[k];
    if s.hands == 0 {
        sum as i64
    } else {
        proof {
            let n = s.hands as int;
            assert(0 <= sum / (n as i128) <= 5_400_000_000) by (nonlinear_arith)
                requires
                    0 <= sum <= 2_700_000_000 * (n + 1),
                    n >= 1,
                    n as i128 == n,
            ;
        }
        (sum / s.hands as i128) as i64
    }
}

fn means(s: &Sums, Ghost(logs): Ghost<Seq<GameLogEntry>>, Ghost(won): Ghost<bool>) -> (p: PlayerPatterns)
    requires
        sums_of(*s, logs, won, logs.len() as int),
    ensures
        p == mean_patterns(logs, won),
        forall|k: int| 0 <= k < 10 ==> 0 <= #[trigger] pattern(p, k) <= 5_400_000_000,
{
    PlayerPatterns {
        avg_hand_size_at_first_play: mean(s, 0, Ghost(logs), Ghost(won)),
        bomb_usage_rate: mean(s, 1, Ghost(logs), Ghost(won)),
        pass_when_partner_leads_rate: mean(s, 2, Ghost(logs), Ghost(won)),
        follow_partner_small_card_rate: mean(s, 3, Ghost(logs), Ghost(won)),
        intercept_enemy_small_card_rate: mean(s, 4, Ghost(logs), Ghost(won)),
        bomb_when_enemy_low_cards_rate: mean(s, 5, Ghost(logs), Ghost(won)),
        save_bomb_for_endgame_rate: mean(s, 6, Ghost(logs), Ghost(won)),
        level_card_usage_rate: mean(s, 7, Ghost(logs), Ghost(won)),
        combo_follow_rate: mean(s, 8, Ghost(logs), Ghost(won)),
        proactive_play_rate: mean(s, 9, Ghost(logs), Ghost(won)),
    }
}

/// Wins and losses are no more than there are hands.
proof fn lemma_hands(logs: Seq<GameLogEntry>, n: int)
    requires
        0 <= n,
    ensures
        hands_counted(logs, true, n) + hands_counted(logs, false, n) <= n,
    decreases n,
{
    if n > 0 {
        lemma_hands(logs, n - 1);
    }
}

/// Works out how people play, won hands and lost hands apart.
pub fn analyze_logs(logs: &Vec<GameLogEntry>) -> (a: LogAnalysis)
    ensures
        a.winning_patterns == mean_patterns(logs@, true),
        a.losing_patterns == mean_patterns(logs@, false),
        a.human_wins == hands_counted(logs@, true, logs@.len() as int),
        a.human_losses == hands_counted(logs@, false, logs@.len() as int),
        a.total_games == a.human_wins + a.human_losses,
        within_means(a),
{
    let total: usize = logs.len();
    let mut wins = start_sums(Ghost(logs@), Ghost(true));
    let mut losses = start_sums(Ghost(logs@), Ghost(false));
    for i in 0..total
        invariant
            total == logs@.len(),
            sums_of(wins, logs@, true, i as int),
            sums_of(losses, logs@, false, i as int),
    {
        if logs[i].human_seats.len() > 0 {
            let (won, p) = analyze_game_log(&logs[i]);
            proof {
                lemma_patterns_at(p, logs@[i as int]);
            }
            if won {
                add_hand(&mut wins, &p, Ghost(logs@), Ghost(true), i);
            } else {
                add_hand(&mut losses, &p, Ghost(logs@), Ghost(false), i);
            }
        }
    }
    proof {
        lemma_hands(logs@, total as int);
    }
    LogAnalysis {
        winning_patterns: means(&wins, Ghost(logs@), Ghost(true)),
        losing_patterns: means(&losses, Ghost(logs@), Ghost(false)),
        human_wins: wins.hands,
        human_losses: losses.hands,
        total_games: wins.hands + losses.hands,
    }
}

/// Means of ordinary size.
pub open spec fn within_means(a: LogAnalysis) -> bool {
    &&& forall|k: int|
        0 <= k < 10 ==> 0 <= #[trigger] pattern(a.winning_patterns, k) <= 5_400_000_000
    &&& forall|k: int|
        0 <= k < 10 ==> 0 <= #[trigger] pattern(a.losing_patterns, k) <= 5_400_000_000
}

/// The weights that suit how people win: each is moved from its balanced value by how much
/// more of a habit winners have than losers, within a range.
pub open spec fn params_learned(a: LogAnalysis) -> AdvancedBotParams {
    let base = balanced();
    let win = a.winning_patterns;
    let loss = a.losing_patterns;
    let partner = win.pass_when_partner_leads_rate - loss.pass_when_partner_leads_rate;
    let lead = win.proactive_play_rate - loss.proactive_play_rate;
    let follow = win.follow_partner_small_card_rate - loss.follow_partner_small_card_rate;
    let save = win.save_bomb_for_endgame_rate - loss.save_bomb_for_endgame_rate;
    let low = win.bomb_when_enemy_low_cards_rate - loss.bomb_when_enemy_low_cards_rate;
    AdvancedBotParams {
        team_win_weight: held_between(100_000_000, 2 * partner, 50_000_000, 200_000_000),
        first_out_weight: held_between(80_000_000, lead, 50_000_000, 200_000_000),
        second_out_weight: held_between(90_000_000, follow, 50_000_000, 200_000_000),
        yield_to_partner_bias: held_between(140_000_000, 2 * partner, 50_000_000, 300_000_000),
        bomb_conserve_bias: held_between(80_000_000, 3 * save / 2, 30_000_000, 200_000_000),
        bomb_aggression_when_enemy_low: held_between(
            220_000_000,
            2 * low,
            100_000_000,
            400_000_000,
        ),
        endgame_clear_hand_bias: held_between(120_000_000, save, 50_000_000, 200_000_000),
        proactive_play_bias: held_between(110_000_000, 3 * lead / 2, 50_000_000, 250_000_000),
        low_card_dump_bias: held_between(140_000_000, follow, 50_000_000, 200_000_000),
        pass_stall_penalty: held_between(90_000_000, -(lead / 2), 30_000_000, 200_000_000),
        endgame_hand_count_threshold: if save > 0 {
            5
        } else {
            7
        },
        partner_sprint_threshold: if win.intercept_enemy_small_card_rate
            > loss.intercept_enemy_small_card_rate {
            3
        } else {
            4
        },
        enemy_low_cards_threshold: if low > 0 {
            3
        } else {
            4
        },
        ..base
    }
}

fn half(x: i128) -> (y: i128)
    requires
        -0x10_0000_0000_0000_0000 <= x <= 0x10_0000_0000_0000_0000,
    ensures
        y == x as int / 2,
{
    if x >= 0 {
        x / 2
    } else {
        -((1 - x) / 2)
    }
}

fn move_within(base: i64, delta: i128, low: i64, high: i64) -> (x: i64)
    requires
        -0x10_0000_0000_0000_0000 <= delta <= 0x10_0000_0000_0000_0000,
        low <= high,
    ensures
        x == held_between(base as int, delta as int, low as int, high as int),
{
    let next: i128 = base as i128 + delta;
    if next < low as i128 {
        low
    } else if next > high as i128 {
        high
    } else {
        next as i64
    }
}

/// The weights that suit how people win.
pub fn patterns_to_params(analysis: &LogAnalysis) -> (params: AdvancedBotParams)
    ensures
        params == params_learned(*analysis),
        params.ok(),
{
    let win = analysis.winning_patterns;
    let loss = analysis.losing_patterns;
    let partner: i128 = win.pass_when_partner_leads_rate as i128 - loss.pass_when_partner_leads_rate as i128;
    let lead: i128 = win.proactive_play_rate as i128 - loss.proactive_play_rate as i128;
    let follow: i128 = win.follow_partner_small_card_rate as i128 - loss.follow_partner_small_card_rate as i128;
    let save: i128 = win.save_bomb_for_endgame_rate as i128 - loss.save_bomb_for_endgame_rate as i128;
    let low: i128 = win.bomb_when_enemy_low_cards_rate as i128 - loss.bomb_when_enemy_low_cards_rate as i128;
    let mut params = AdvancedBotParams::default_balanced();
    params.team_win_weight = move_within(100_000_000, 2 * partner, 50_000_000, 200_000_000);
    params.first_out_weight = move_within(80_000_000, lead, 50_000_000, 200_000_000);
    params.second_out_weight = move_within(90_000_000, follow, 50_000_000, 200_000_000);
    params.yield_to_partner_bias = move_within(140_000_000, 2 * partner, 50_000_000, 300_000_000);
    params.bomb_conserve_bias = move_within(80_000_000, half(3 * save), 30_000_000, 200_000_000);
    params.bomb_aggression_when_enemy_low = move_within(
        220_000_000,
        2 * low,
        100_000_000,
        400_000_000,
    );
    params.endgame_clear_hand_bias = move_within(120_000_000, save, 50_000_000, 200_000_000);
    params.proactive_play_bias = move_within(110_000_000, half(3 * lead), 50_000_000, 250_000_000);
    params.low_card_dump_bias = move_within(140_000_000, follow, 50_000_000, 200_000_000);
    params.pass_stall_penalty = move_within(90_000_000, -half(lead), 30_000_000, 200_000_000);
    params.endgame_hand_count_threshold = if save > 0 {
        5
    } else {
        7
    };
    params.partner_sprint_threshold = if win.intercept_enemy_small_card_rate
        > loss.intercept_enemy_small_card_rate {
        3
    } else {
        4
    };
    params.enemy_low_cards_threshold = if low > 0 {
        3
    } else {
        4
    };
    params
}

/// Each learned weight is its balanced value, moved by the difference between winners and losers
/// in one habit times a factor, within a range: yielding to the partner and the team's win by
/// twice the difference in passing on the partner's lead; going out first, playing on and
/// stalling by that in leading; going out second and shedding low cards by that in following
/// small cards; keeping bombs and emptying the hand by that in saving bombs; bombing by that in
/// bombing opponents with few cards.
pub proof fn weights_follow_habits(a: LogAnalysis)
    ensures
        ({
            let w = a.winning_patterns;
            let l = a.losing_patterns;
            let partner = w.pass_when_partner_leads_rate - l.pass_when_partner_leads_rate;
            let lead = w.proactive_play_rate - l.proactive_play_rate;
            let small = w.follow_partner_small_card_rate - l.follow_partner_small_card_rate;
            let save = w.save_bomb_for_endgame_rate - l.save_bomb_for_endgame_rate;
            let low = w.bomb_when_enemy_low_cards_rate - l.bomb_when_enemy_low_cards_rate;
            let p = params_learned(a);
            let unit = 100_000_000int;
            &&& 50_000_000 <= p.yield_to_partner_bias <= 3 * unit
            &&& 50_000_000 <= p.team_win_weight <= 2 * unit
            &&& 50_000_000 <= p.first_out_weight <= 2 * unit
            &&& 50_000_000 <= p.second_out_weight <= 2 * unit
            &&& 30_000_000 <= p.bomb_conserve_bias <= 2 * unit
            &&& unit <= p.bomb_aggression_when_enemy_low <= 4 * unit
            &&& 50_000_000 <= p.endgame_clear_hand_bias <= 2 * unit
            &&& 2 * unit <= 4 * p.proactive_play_bias <= 10 * unit
            &&& 50_000_000 <= p.low_card_dump_bias <= 2 * unit
            &&& 30_000_000 <= p.pass_stall_penalty <= 2 * unit
            &&& unit <= 2 * (140_000_000 + 2 * partner) <= 6 * unit ==> p.yield_to_partner_bias
                == balanced().yield_to_partner_bias + 2 * partner
            &&& unit <= 2 * (unit + 2 * partner) <= 4 * unit ==> p.team_win_weight
                == balanced().team_win_weight + 2 * partner
            &&& 50_000_000 <= 80_000_000 + lead <= 2 * unit ==> p.first_out_weight
                == balanced().first_out_weight + lead
            &&& 50_000_000 <= 90_000_000 + small <= 2 * unit ==> p.second_out_weight
                == balanced().second_out_weight + small
            &&& 50_000_000 <= 140_000_000 + small <= 2 * unit ==> p.low_card_dump_bias
                == balanced().low_card_dump_bias + small
            &&& 50_000_000 <= 120_000_000 + save <= 2 * unit ==> p.endgame_clear_hand_bias
                == balanced().endgame_clear_hand_bias + save
            &&& unit <= 220_000_000 + 2 * low <= 4 * unit ==> p.bomb_aggression_when_enemy_low
                == balanced().bomb_aggression_when_enemy_low + 2 * low
            &&& 60_000_000 <= 160_000_000 + 3 * save <= 4 * unit ==> 2 * p.bomb_conserve_bias <= 2
                * balanced().bomb_conserve_bias + 3 * save <= 2 * p.bomb_conserve_bias + 1
            &&& unit <= 220_000_000 + 3 * lead <= 5 * unit ==> 2 * p.proactive_play_bias <= 2
                * balanced().proactive_play_bias + 3 * lead <= 2 * p.proactive_play_bias + 1
            &&& 60_000_000 < 180_000_000 - lead <= 4 * unit ==> 2 * p.pass_stall_penalty - 1 <= 2
                * balanced().pass_stall_penalty - lead <= 2 * p.pass_stall_penalty
        }),
{
}

/// Habits that winners and losers share leave every weight at its balanced value.
pub proof fn shared_habits_change_nothing(a: LogAnalysis)
    requires
        a.winning_patterns == a.losing_patterns,
    ensures
        ({
            let p = params_learned(a);
            let b = balanced();
            p == (AdvancedBotParams {
                partner_sprint_threshold: 4,
                enemy_low_cards_threshold: 4,
                endgame_hand_count_threshold: 7,
                ..b
            })
        }),
{
}

/// The more of a habit winners have, and the less of it losers have, the greater the weights that
/// go by it, and the smaller the price of stalling; and a weight exceeds its balanced value
/// wherever winners have more of the habit.
pub proof fn more_of_a_habit_weighs_more(a: LogAnalysis, b: LogAnalysis)
    ensures
        ({
            let p = params_learned(a);
            let q = params_learned(b);
            let (w, l) = (a.winning_patterns, a.losing_patterns);
            let (x, y) = (b.winning_patterns, b.losing_patterns);
            &&& w.pass_when_partner_leads_rate >= x.pass_when_partner_leads_rate
                && l.pass_when_partner_leads_rate <= y.pass_when_partner_leads_rate
                ==> p.yield_to_partner_bias >= q.yield_to_partner_bias && p.team_win_weight
                >= q.team_win_weight
            &&& w.proactive_play_rate >= x.proactive_play_rate && l.proactive_play_rate
                <= y.proactive_play_rate ==> p.first_out_weight >= q.first_out_weight
                && p.proactive_play_bias >= q.proactive_play_bias && p.pass_stall_penalty
                <= q.pass_stall_penalty
            &&& w.follow_partner_small_card_rate >= x.follow_partner_small_card_rate
                && l.follow_partner_small_card_rate <= y.follow_partner_small_card_rate
                ==> p.second_out_weight >= q.second_out_weight && p.low_card_dump_bias
                >= q.low_card_dump_bias
            &&& w.save_bomb_for_endgame_rate >= x.save_bomb_for_endgame_rate
                && l.save_bomb_for_endgame_rate <= y.save_bomb_for_endgame_rate
                ==> p.bomb_conserve_bias >= q.bomb_conserve_bias && p.endgame_clear_hand_bias
                >= q.endgame_clear_hand_bias && p.endgame_hand_count_threshold
                <= q.endgame_hand_count_threshold
            &&& w.bomb_when_enemy_low_cards_rate >= x.bomb_when_enemy_low_cards_rate
                && l.bomb_when_enemy_low_cards_rate <= y.bomb_when_enemy_low_cards_rate
                ==> p.bomb_aggression_when_enemy_low >= q.bomb_aggression_when_enemy_low
                && p.enemy_low_cards_threshold <= q.enemy_low_cards_threshold
            &&& w.intercept_enemy_small_card_rate >= x.intercept_enemy_small_card_rate
                && l.intercept_enemy_small_card_rate <= y.intercept_enemy_small_card_rate
                ==> p.partner_sprint_threshold <= q.partner_sprint_threshold
            &&& w.pass_when_partner_leads_rate > l.pass_when_partner_leads_rate
                ==> p.yield_to_partner_bias > balanced().yield_to_partner_bias && p.team_win_weight
                > balanced().team_win_weight
            &&& w.proactive_play_rate > l.proactive_play_rate ==> p.first_out_weight
                > balanced().first_out_weight && p.proactive_play_bias
                > balanced().proactive_play_bias
            &&& w.proactive_play_rate > l.proactive_play_rate + 1 ==> p.pass_stall_penalty
                < balanced().pass_stall_penalty
            &&& w.follow_partner_small_card_rate > l.follow_partner_small_card_rate
                ==> p.second_out_weight > balanced().second_out_weight && p.low_card_dump_bias
                > balanced().low_card_dump_bias
            &&& w.save_bomb_for_endgame_rate > l.save_bomb_for_endgame_rate
                ==> p.bomb_conserve_bias > balanced().bomb_conserve_bias
                && p.endgame_clear_hand_bias > balanced().endgame_clear_hand_bias
            &&& w.bomb_when_enemy_low_cards_rate > l.bomb_when_enemy_low_cards_rate
                ==> p.bomb_aggression_when_enemy_low > balanced().bomb_aggression_when_enemy_low
        }),
{
}

/// Where winners have more of a habit, the endgame begins at five cards instead of seven, and an
/// opponent or the partner counts as running out at three instead of four.
pub proof fn thresholds_follow_habits(a: LogAnalysis)
    ensures
        ({
            let w = a.winning_patterns;
            let l = a.losing_patterns;
            let p = params_learned(a);
            &&& w.save_bomb_for_endgame_rate > l.save_bomb_for_endgame_rate <==>
                p.endgame_hand_count_threshold == 5
            &&& w.save_bomb_for_endgame_rate <= l.save_bomb_for_endgame_rate <==>
                p.endgame_hand_count_threshold == 7
            &&& w.intercept_enemy_small_card_rate > l.intercept_enemy_small_card_rate <==>
                p.partner_sprint_threshold == 3
            &&& w.intercept_enemy_small_card_rate <= l.intercept_enemy_small_card_rate <==>
                p.partner_sprint_threshold == 4
            &&& w.bomb_when_enemy_low_cards_rate > l.bomb_when_enemy_low_cards_rate <==>
                p.enemy_low_cards_threshold == 3
            &&& w.bomb_when_enemy_low_cards_rate <= l.bomb_when_enemy_low_cards_rate <==>
                p.enemy_low_cards_threshold == 4
        }),
{
}

proof fn lemma_counts_of_front(logs: Seq<GameLogEntry>, entry: GameLogEntry, won: bool, n: int)
    requires
        0 <= n <= logs.len(),
    ensures
        hands_counted(logs.push(entry), won, n) == hands_counted(logs, won, n),
        forall|k: int|
            #[trigger] pattern_sum(logs.push(entry), won, k, n) == pattern_sum(logs, won, k, n),
    decreases n,
{
    if n > 0 {
        lemma_counts_of_front(logs, entry, won, n - 1);
        assert(logs.push(entry)[n - 1] == logs[n - 1]);
        assert forall|k: int|
            #[trigger] pattern_sum(logs.push(entry), won, k, n) == pattern_sum(logs, won, k, n) by {
            assert(pattern_sum(logs.push(entry), won, k, n - 1) == pattern_sum(
                logs,
                won,
                k,
                n - 1,
            ));
        }
    }
}

/// A hand more in the log changes only the side it belongs to: a hand that people won leaves how
/// losers play as it was, and the other way round, and one without people leaves both.
pub proof fn each_hand_counts_on_its_side(
    logs: Seq<GameLogEntry>,
    entry: GameLogEntry,
    won: bool,
    k: int,
)
    ensures
        ({
            let more = logs.push(entry);
            let n = logs.len() as int;
            let counts = entry.human_seats@.len() > 0 && human_won(entry) == won;
            &&& !counts ==> mean_patterns(more, won) == mean_patterns(logs, won)
            &&& !counts ==> hands_counted(more, won, n + 1) == hands_counted(logs, won, n)
            &&& counts ==> hands_counted(more, won, n + 1) == hands_counted(logs, won, n) + 1
            &&& counts ==> pattern_sum(more, won, k, n + 1) - pattern_sum(logs, won, k, n)
                == pattern(patterns_at(entry), k)
        }),
{
    let more = logs.push(entry);
    let n = logs.len() as int;
    lemma_counts_of_front(logs, entry, won, n);
    assert(more[n] == entry);
    assert forall|j: int| #[trigger]
        pattern_sum(more, won, j, n + 1) - pattern_sum(logs, won, j, n) == if counted(entry, won) {
            pattern(patterns_at(entry), j) as int
        } else {
            0
        } by {
        assert(pattern_sum(more, won, j, n) == pattern_sum(logs, won, j, n));
    }
    assert(pattern_sum(more, won, k, n + 1) == pattern_sum(more, won, k, n + 1));
    if !counted(entry, won) {
        assert forall|j: int| pattern_mean(more, won, j) == #[trigger] pattern_mean(
            logs,
            won,
            j,
        ) by {
            assert(pattern_sum(more, won, j, n + 1) == pattern_sum(logs, won, j, n));
        }
        let a = mean_patterns(more, won);
        let b = mean_patterns(logs, won);
        assert(pattern_mean(more, won, 0) == pattern_mean(logs, won, 0));
        assert(a == b);
    }
}

} // verus!
