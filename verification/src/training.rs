//! Training by self-play: how a match counts, how a set of weights is scored, and which set is
//! kept.

use vstd::prelude::*;
use crate::domain::{Seat, TeamId, partner_of, team_of};
use crate::game_types::{GamePhase, PlayerAction, TableGameState, cards_left};
use crate::params::{AdvancedBotParams, balanced, house};
use crate::prob_reasoner::Fraction;
use crate::suggest::{suggest_with, suggestion, suggests};

verus! {

/// The weights that are on trial, for everyone and for each team.
#[derive(Clone, Copy, Debug, PartialEq, Eq, Structural)]
pub struct LearnParams {
    pub shared: Option<AdvancedBotParams>,
    pub sn: Option<AdvancedBotParams>,
    pub ew: Option<AdvancedBotParams>,
}

/// The weights of a seat: at a table of players always those of the house; in training those on
/// trial for its team, else those on trial for everyone, else those of the house.
pub open spec fn weights_at(learn: LearnParams, seat: Seat, training: bool) -> AdvancedBotParams {
    let team = if team_of(seat) == TeamId::Sn {
        learn.sn
    } else {
        learn.ew
    };
    if !training {
        house()
    } else {
        match team {
            Some(p) => p,
            None => match learn.shared {
                Some(p) => p,
                None => house(),
            },
        }
    }
}

/// Puts weights on trial for everyone, or ends their trial.
pub fn set_learn_params(learn: &mut LearnParams, params: Option<AdvancedBotParams>)
    ensures
        *final(learn) == (LearnParams { shared: params, ..*old(learn) }),
{
    learn.shared = params;
}

/// Puts weights on trial for each team, or ends their trial.
pub fn set_learn_params_for_teams(
    learn: &mut LearnParams,
    sn: Option<AdvancedBotParams>,
    ew: Option<AdvancedBotParams>,
)
    ensures
        *final(learn) == (LearnParams { sn, ew, ..*old(learn) }),
{
    learn.sn = sn;
    learn.ew = ew;
}

impl LearnParams {
    /// Weights of ordinary size.
    pub open spec fn ok(self) -> bool {
        &&& self.shared matches Some(p) ==> p.ok()
        &&& self.sn matches Some(p) ==> p.ok()
        &&& self.ew matches Some(p) ==> p.ok()
    }

    /// Nothing on trial.
    pub fn new() -> (learn: LearnParams)
        ensures
            learn == (LearnParams { shared: None, sn: None, ew: None }),
            learn.ok(),
    {
        LearnParams { shared: None, sn: None, ew: None }
    }

    /// The weights of a seat.
    pub fn params_for_seat(&self, seat: Seat, training: bool) -> (params: AdvancedBotParams)
        requires
            self.ok(),
        ensures
            params == weights_at(*self, seat, training),
            params.ok(),
    {
        if !training {
            return AdvancedBotParams::house_params();
        }
        let team = match seat {
            Seat::S | Seat::N => self.sn,
            Seat::E | Seat::W => self.ew,
        };
        match team {
            Some(p) => p,
            None => match self.shared {
                Some(p) => p,
                None => AdvancedBotParams::house_params(),
            },
        }
    }

    /// The action to take at a table, with the weights of the seat.
    pub fn suggest(&self, state: &TableGameState, actor: Seat, training: bool, solver: bool) -> (found:
        Result<PlayerAction, String>)
        requires
            self.ok(),
        ensures
            suggests(found, suggestion(*state, actor, weights_at(*self, actor, training), solver)),
    {
        suggest_with(state, actor, self.params_for_seat(actor, training), solver)
    }
}

/// Training never reaches a table of players: whatever is on trial, its seats have the weights of
/// the house.
pub proof fn trials_stay_in_training(learn: LearnParams, seat: Seat)
    ensures
        weights_at(learn, seat, false) == house(),
{
}

/// How many matches are played to score a set of weights, and how long one may last.
#[derive(Clone, Copy, Debug, PartialEq, Eq, Structural)]
pub struct SelfPlayConfig {
    pub matches_per_eval: u32,
    pub max_plies: usize,
}

/// How long to climb and how far a step goes, in parts of [`UNIT`].
#[derive(Clone, Copy, Debug, PartialEq, Eq, Structural)]
pub struct HillClimbConfig {
    pub iterations: u32,
    pub step_size: i64,
    pub eval_config: SelfPlayConfig,
}

/// How a finished match went for the south-north team.
#[derive(Clone, Copy, Debug, PartialEq, Eq, Structural)]
pub struct MatchResult {
    pub winner: TeamId,
    pub first_out: TeamId,
    pub level_delta: i32,
    pub residual: u128,
}

/// Levels that the south-north team gains: three where both of the first two out are of one
/// team, else two; lost where the first out is of the other team.
pub open spec fn level_gain(order: Seq<Seat>) -> int {
    if order.len() < 2 {
        0
    } else {
        let gain: int = if team_of(order[1]) == team_of(order[0]) {
            3
        } else {
            2
        };
        if team_of(order[0]) == TeamId::Sn {
            gain
        } else {
            -gain
        }
    }
}

/// How a match went that stopped with this game; nothing where it has not come to a score.
pub open spec fn result_of(state: TableGameState) -> Option<MatchResult> {
    if state.phase != GamePhase::Scoring || state.winner_team is None {
        None
    } else {
        let winner = state.winner_team->Some_0;
        let order = match state.hand {
            Some(h) => h.finishing_order@,
            None => Seq::empty(),
        };
        Some(
            MatchResult {
                winner,
                first_out: if order.len() > 0 {
                    team_of(order[0])
                } else {
                    winner
                },
                level_delta: level_gain(order) as i32,
                residual: match state.hand {
                    Some(h) => (cards_left(h, Seat::S) + cards_left(h, Seat::N)) as u128,
                    None => 0,
                },
            },
        )
    }
}

/// How a match went that stopped with this game.
pub fn match_result(state: &TableGameState) -> (result: Option<MatchResult>)
    ensures
        result == result_of(*state),
        result matches Some(r) ==> r.ok(),
{
    if state.phase != GamePhase::Scoring {
        return None;
    }
    let winner = match state.winner_team {
        Some(w) => w,
        None => {
            return None;
        },
    };
    match &state.hand {
        None => Some(MatchResult { winner, first_out: winner, level_delta: 0, residual: 0 }),
        Some(h) => {
            let order = &h.finishing_order;
            let first_out = if order.len() > 0 {
                order[0].team()
            } else {
                winner
            };
            let level_delta: i32 = if order.len() < 2 {
                0
            } else {
                let gain: i32 = if order[1].team() == order[0].team() {
                    3
                } else {
                    2
                };
                if order[0].team() == TeamId::Sn {
                    gain
                } else {
                    -gain
                }
            };
            let residual: u128 = h.remaining_count(Seat::S) as u128 + h.remaining_count(
                Seat::N,
            ) as u128;
            Some(MatchResult { winner, first_out, level_delta, residual })
        },
    }
}

impl MatchResult {
    /// Levels go up or down by at most three.
    pub open spec fn ok(self) -> bool {
        -3 <= self.level_delta <= 3 && self.residual <= 0x1_ffff_ffff_ffff_ffff
    }
}

/// What the matches for a set of weights have come to.
#[derive(Clone, Copy, Debug, PartialEq, Eq, Structural)]
pub struct EvalResult {
    pub matches_played: u32,
    pub wins: u32,
    pub first_outs: u32,
    pub level_sum: i64,
    pub residual_sum: u128,
}

/// A number as a quotient.
pub open spec fn sound(f: Fraction) -> bool {
    0 < f.den <= 0x1_0000_0000_0000 && -0x1000_0000_0000_0000 <= f.num <= 0x1000_0000_0000_0000
}

/// One quotient above another.
pub open spec fn above(a: Fraction, b: Fraction) -> bool {
    a.num * b.den > b.num * a.den
}

/// Whether one quotient is above another.
pub fn exceeds(a: Fraction, b: Fraction) -> (is_above: bool)
    requires
        sound(a),
        sound(b),
    ensures
        is_above == above(a, b),
{
    proof {
        lemma_product(a.num as int, b.den as int);
        lemma_product(b.num as int, a.den as int);
    }
    a.num * b.den > b.num * a.den
}

proof fn lemma_product(x: int, y: int)
    requires
        -0x1000_0000_0000_0000 <= x <= 0x1000_0000_0000_0000,
        0 < y <= 0x1_0000_0000_0000,
    ensures
        i128::MIN <= x * y <= i128::MAX,
{
    assert(-0x1000_0000_0000_0000 * 0x1_0000_0000_0000 <= x * y <= 0x1000_0000_0000_0000
        * 0x1_0000_0000_0000) by (nonlinear_arith)
        requires
            -0x1000_0000_0000_0000 <= x <= 0x1000_0000_0000_0000,
            0 < y <= 0x1_0000_0000_0000,
    ;
}

/// Being above is a strict order in which any two different quotients have a place.
pub proof fn scores_are_ordered(a: Fraction, b: Fraction, c: Fraction)
    requires
        sound(a),
        sound(b),
        sound(c),
    ensures
        !above(a, a),
        above(a, b) ==> !above(b, a),
        above(a, b) && !above(c, b) ==> above(a, c),
        !above(a, b) && !above(b, a) ==> a.num * b.den == b.num * a.den,
{
    let (x, p) = (a.num as int, a.den as int);
    let (y, q) = (b.num as int, b.den as int);
    let (z, r) = (c.num as int, c.den as int);
    if x * q > y * p && z * q <= y * r {
        assert(x * r > z * p) by (nonlinear_arith)
            requires
                x * q > y * p,
                z * q <= y * r,
                p > 0,
                q > 0,
                r > 0,
        {
            assert((x * q) * r > (y * p) * r);
            assert((z * q) * p <= (y * r) * p);
            assert((x * q) * r == (x * r) * q);
            assert((y * p) * r == (y * r) * p);
            assert((z * q) * p == (z * p) * q);
            assert((x * r) * q > (z * p) * q);
        }
    }
}

/// What a number of matches have come to. A match without a result counts as the worst: lost by
/// three levels, with 27 cards left.
pub open spec fn eval_of(results: Seq<Option<MatchResult>>) -> EvalResult
    decreases results.len(),
{
    if results.len() == 0 {
        EvalResult { matches_played: 0, wins: 0, first_outs: 0, level_sum: 0, residual_sum: 0 }
    } else {
        counted_in(eval_of(results.drop_last()), results.last())
    }
}

/// One more match counted.
pub open spec fn counted_in(e: EvalResult, result: Option<MatchResult>) -> EvalResult {
    match result {
        Some(r) => EvalResult {
            matches_played: (e.matches_played + 1) as u32,
            wins: (e.wins + if r.winner == TeamId::Sn {
                1int
            } else {
                0
            }) as u32,
            first_outs: (e.first_outs + if r.first_out == TeamId::Sn {
                1int
            } else {
                0
            }) as u32,
            level_sum: (e.level_sum + r.level_delta) as i64,
            residual_sum: (e.residual_sum + r.residual) as u128,
        },
        None => EvalResult {
            matches_played: (e.matches_played + 1) as u32,
            wins: e.wins,
            first_outs: e.first_outs,
            level_sum: (e.level_sum - 3) as i64,
            residual_sum: (e.residual_sum + 27) as u128,
        },
    }
}

/// The part of the score that rewards few cards left, in parts of 540 for each match.
pub open spec fn clear_points(e: EvalResult) -> int {
    if e.residual_sum >= 27 * e.matches_played {
        0
    } else {
        6 * (27 * e.matches_played - e.residual_sum)
    }
}

/// The score of a set of weights: half from the levels gained, two tenths from being first out,
/// three tenths from few cards left.
pub open spec fn score_of(e: EvalResult) -> Fraction {
    if e.matches_played == 0 {
        Fraction { num: 0, den: 1 }
    } else {
        Fraction {
            num: (45 * (e.level_sum + 3 * e.matches_played) + 108 * e.first_outs + clear_points(
                e,
            )) as i128,
            den: (540 * e.matches_played) as i128,
        }
    }
}

/// The score that counts won matches in place of levels; `unplayed` parts of 540 without a match.
pub open spec fn win_score_of(e: EvalResult, unplayed: int) -> Fraction {
    if e.matches_played == 0 {
        Fraction { num: unplayed as i128, den: 540 }
    } else {
        Fraction {
            num: (270 * e.wins + 108 * e.first_outs + clear_points(e)) as i128,
            den: (540 * e.matches_played) as i128,
        }
    }
}

impl EvalResult {
    /// Counts agree with the number of matches.
    pub open spec fn ok(self) -> bool {
        &&& self.wins <= self.matches_played
        &&& self.first_outs <= self.matches_played
        &&& -3 * self.matches_played <= self.level_sum <= 3 * self.matches_played
        &&& self.residual_sum <= 0x1_ffff_ffff_ffff_ffff * self.matches_played
    }

    /// No match yet.
    pub fn new() -> (e: EvalResult)
        ensures
            e == eval_of(Seq::empty()),
            e.ok(),
    {
        EvalResult { matches_played: 0, wins: 0, first_outs: 0, level_sum: 0, residual_sum: 0 }
    }

    /// Counts one more match.
    pub fn record(&mut self, result: Option<MatchResult>)
        requires
            old(self).ok(),
            old(self).matches_played < u32::MAX,
            result matches Some(r) ==> r.ok(),
        ensures
            *final(self) == counted_in(*old(self), result),
            final(self).ok(),
    {
        let ghost before = *self;
        proof {
            assert(0x1_ffff_ffff_ffff_ffff * before.matches_played + 0x1_ffff_ffff_ffff_ffff
                == 0x1_ffff_ffff_ffff_ffff * (before.matches_played + 1)) by (nonlinear_arith);
            assert(0x1_ffff_ffff_ffff_ffff * (before.matches_played + 1) <= u128::MAX)
                by (nonlinear_arith)
                requires
                    before.matches_played < u32::MAX,
            ;
        }
        self.matches_played = self.matches_played + 1;
        match result {
            Some(r) => {
                if r.winner == TeamId::Sn {
                    self.wins = self.wins + 1;
                }
                if r.first_out == TeamId::Sn {
                    self.first_outs = self.first_outs + 1;
                }
                self.level_sum = self.level_sum + r.level_delta as i64;
                self.residual_sum = self.residual_sum + r.residual;
            },
            None => {
                self.level_sum = self.level_sum - 3;
                self.residual_sum = self.residual_sum + 27;
            },
        }
    }

    fn clear_part(&self) -> (n: i128)
        ensures
            n == clear_points(*self),
            0 <= n <= 162 * self.matches_played,
    {
        let full: u128 = 27 * self.matches_played as u128;
        if self.residual_sum >= full {
            0
        } else {
            6 * (full - self.residual_sum) as i128
        }
    }
}

/// The score of a set of weights.
pub fn eval_to_score(eval: &EvalResult) -> (score: Fraction)
    requires
        eval.ok(),
    ensures
        score == score_of(*eval),
        sound(score),
        0 <= score.num <= score.den,
{
    if eval.matches_played == 0 {
        return Fraction { num: 0, den: 1 };
    }
    let n: i128 = eval.matches_played as i128;
    Fraction {
        num: 45 * (eval.level_sum as i128 + 3 * n) + 108 * eval.first_outs as i128
            + eval.clear_part(),
        den: 540 * n,
    }
}

fn win_score(eval: &EvalResult, unplayed: i128) -> (score: Fraction)
    requires
        eval.ok(),
        0 <= unplayed <= 540,
    ensures
        score == win_score_of(*eval, unplayed as int),
        sound(score),
        0 <= score.num <= score.den,
{
    if eval.matches_played == 0 {
        return Fraction { num: unplayed, den: 540 };
    }
    let n: i128 = eval.matches_played as i128;
    Fraction {
        num: 270 * eval.wins as i128 + 108 * eval.first_outs as i128 + eval.clear_part(),
        den: 540 * n,
    }
}

/// The score in an evolving population: half from matches won, two tenths from being first out,
/// three tenths from few cards left.
pub fn fitness(eval: &EvalResult) -> (score: Fraction)
    requires
        eval.ok(),
    ensures
        score == win_score_of(*eval, 189),
        sound(score),
        0 <= score.num <= score.den,
{
    win_score(eval, 189)
}

/// The score of a set of weights that is trained from logs.
pub fn score_from_logs(eval: &EvalResult) -> (score: Fraction)
    requires
        eval.ok(),
    ensures
        score == win_score_of(*eval, 270),
        sound(score),
        0 <= score.num <= score.den,
{
    win_score(eval, 270)
}

/// How many matches a set of weights is tried in when training from `logs` logged hands.
pub fn matches_from_logs(logs: usize) -> (n: u32)
    ensures
        n == if logs < 50 {
            logs as int
        } else {
            50
        },
{
    if logs < 50 {
        logs as u32
    } else {
        50
    }
}

/// Of two sets of weights that do equally well otherwise, the one that loses more levels scores
/// less.
pub proof fn lost_levels_cost(a: EvalResult, b: EvalResult)
    requires
        a.ok(),
        b.ok(),
        a.matches_played > 0,
        a == (EvalResult { level_sum: a.level_sum, ..b }),
        a.level_sum < b.level_sum,
    ensures
        above(score_of(b), score_of(a)),
{
    let (x, y, d) = (score_of(b).num as int, score_of(a).num as int, score_of(a).den as int);
    assert(x * d > y * d) by (nonlinear_arith)
        requires
            x > y,
            d > 0,
    ;
}

/// The best set of weights so far, with its score.
#[derive(Clone, Copy, Debug, PartialEq, Eq, Structural)]
pub struct Best {
    pub params: AdvancedBotParams,
    pub score: Fraction,
}

/// The better of the two; the older one where they are equal.
pub open spec fn better(best: Best, candidate: Best) -> Best {
    if above(candidate.score, best.score) {
        candidate
    } else {
        best
    }
}

/// The best after a number of candidates.
pub open spec fn best_after(start: Best, candidates: Seq<Best>) -> Best
    decreases candidates.len(),
{
    if candidates.len() == 0 {
        start
    } else {
        better(best_after(start, candidates.drop_last()), candidates.last())
    }
}

impl Best {
    /// Takes the candidate where it scores higher.
    pub fn offer(&mut self, params: AdvancedBotParams, score: Fraction) -> (improved: bool)
        requires
            sound(old(self).score),
            sound(score),
        ensures
            *final(self) == better(*old(self), Best { params, score }),
            improved == above(score, old(self).score),
            sound(final(self).score),
    {
        if exceeds(score, self.score) {
            self.params = params;
            self.score = score;
            true
        } else {
            false
        }
    }
}

/// Climbing never goes down: nothing that was offered, and not the start, scores above the set
/// of weights that is kept, and that is one of them.
pub proof fn climbing_keeps_the_best(start: Best, candidates: Seq<Best>)
    requires
        sound(start.score),
        forall|i: int| 0 <= i < candidates.len() ==> sound((#[trigger] candidates[i]).score),
    ensures
        sound(best_after(start, candidates).score),
        !above(start.score, best_after(start, candidates).score),
        forall|i: int|
            0 <= i < candidates.len() ==> !above(
                (#[trigger] candidates[i]).score,
                best_after(start, candidates).score,
            ),
        best_after(start, candidates) == start || candidates.contains(
            best_after(start, candidates),
        ),
    decreases candidates.len(),
{
    if candidates.len() == 0 {
        scores_are_ordered(start.score, start.score, start.score);
    } else {
        let rest = candidates.drop_last();
        let last = candidates.last();
        let before = best_after(start, rest);
        let now = best_after(start, candidates);
        assert forall|i: int| 0 <= i < rest.len() implies sound((#[trigger] rest[i]).score) by {
            assert(rest[i] == candidates[i]);
        }
        climbing_keeps_the_best(start, rest);
        assert(sound(last.score));
        scores_are_ordered(last.score, before.score, start.score);
        scores_are_ordered(last.score, last.score, last.score);
        scores_are_ordered(start.score, last.score, start.score);
        assert forall|i: int| 0 <= i < candidates.len() implies !above(
            (#[trigger] candidates[i]).score,
            now.score,
        ) by {
            if i < rest.len() {
                assert(rest[i] == candidates[i]);
                scores_are_ordered(last.score, before.score, candidates[i].score);
                scores_are_ordered(candidates[i].score, last.score, candidates[i].score);
            }
        }
        if now == last {
            assert(candidates[candidates.len() - 1] == now);
        } else if before != start {
            let i = choose|i: int| 0 <= i < rest.len() && rest[i] == before;
            assert(candidates[i] == before);
        }
    }
}

/// What to do next in a climb.
#[derive(Clone, Copy, Debug, PartialEq, Eq, Structural)]
pub enum ClimbStep {
    Evaluate,
    Stop,
    Finish,
}

/// A climb that is under way and can be taken up again.
#[derive(Clone, Copy, Debug)]
pub struct HillClimb {
    pub iterations: u32,
    pub matches_per_eval: u32,
    pub iteration: u32,
    pub matches_done: u64,
    pub resumed: bool,
    pub best: Best,
}

/// How far an earlier climb came.
#[derive(Clone, Copy, Debug)]
pub struct Progress {
    pub iteration: u32,
    pub matches_done: u64,
    pub best_score: Fraction,
}

/// The weights to start from: the stored ones, else the balanced ones.
pub fn starting_params(stored: Option<AdvancedBotParams>) -> (params: AdvancedBotParams)
    ensures
        params == match stored {
            Some(p) => p,
            None => balanced(),
        },
{
    match stored {
        Some(p) => p,
        None => AdvancedBotParams::default_balanced(),
    }
}

/// About how many matches a climb takes: two evaluations for each iteration.
pub fn total_matches(matches_per_eval: u32, iterations: u32) -> (n: u128)
    ensures
        n == 2 * (matches_per_eval * iterations),
{
    proof {
        assert(0 <= matches_per_eval * iterations <= u32::MAX * u32::MAX) by (nonlinear_arith)
            requires
                matches_per_eval <= u32::MAX,
                iterations <= u32::MAX,
        ;
    }
    2 * (matches_per_eval as u128 * iterations as u128)
}

impl HillClimb {
    /// Starts a climb, or takes one up again where it was left.
    pub fn start(config: &HillClimbConfig, params: AdvancedBotParams, saved: Option<Progress>) -> (climb:
        HillClimb)
        requires
            saved matches Some(p) ==> sound(p.best_score),
        ensures
            climb.iterations == config.iterations,
            climb.matches_per_eval == config.eval_config.matches_per_eval,
            climb.resumed == saved is Some,
            climb.best.params == params,
            match saved {
                Some(p) => climb.iteration == p.iteration && climb.matches_done == p.matches_done
                    && climb.best.score == p.best_score,
                None => climb.iteration == 0 && climb.matches_done == 0 && climb.best.score
                    == (Fraction { num: 0, den: 1 }),
            },
            sound(climb.best.score),
    {
        let from = match saved {
            Some(p) => p,
            None => Progress {
                iteration: 0,
                matches_done: 0,
                best_score: Fraction { num: 0, den: 1 },
            },
        };
        HillClimb {
            iterations: config.iterations,
            matches_per_eval: config.eval_config.matches_per_eval,
            iteration: from.iteration,
            matches_done: from.matches_done,
            resumed: saved.is_some(),
            best: Best { params, score: from.best_score },
        }
    }

    /// What to do next, given whether the climb may go on.
    pub fn next_step(&self, running: bool) -> (step: ClimbStep)
        ensures
            step == if self.iteration >= self.iterations {
                ClimbStep::Finish
            } else if running {
                ClimbStep::Evaluate
            } else {
                ClimbStep::Stop
            },
    {
        if self.iteration >= self.iterations {
            ClimbStep::Finish
        } else if running {
            ClimbStep::Evaluate
        } else {
            ClimbStep::Stop
        }
    }

    /// Takes in the score that the best weights come to when they are played again. The first
    /// score of a new climb is taken as it is; after that only a higher one is.
    pub fn judge_current(&mut self, score: Fraction)
        requires
            sound(score),
            sound(old(self).best.score),
            old(self).matches_done + old(self).matches_per_eval <= u64::MAX,
        ensures
            *final(self) == (HillClimb {
                matches_done: (old(self).matches_done + old(self).matches_per_eval) as u64,
                best: Best {
                    params: old(self).best.params,
                    score: if (!old(self).resumed && old(self).iteration == 0) || above(
                        score,
                        old(self).best.score,
                    ) {
                        score
                    } else {
                        old(self).best.score
                    },
                },
                ..*old(self)
            }),
            sound(final(self).best.score),
    {
        self.matches_done = self.matches_done + self.matches_per_eval as u64;
        if (!self.resumed && self.iteration == 0) || exceeds(score, self.best.score) {
            self.best.score = score;
        }
    }

    /// Whether a candidate is tried in this iteration: in every one but the last.
    pub fn wants_candidate(&self, running: bool) -> (b: bool)
        ensures
            b == (self.iteration + 1 < self.iterations && running),
    {
        self.iterations > 0 && self.iteration < self.iterations - 1 && running
    }

    /// Takes in the score of a candidate, and the candidate where it scores higher.
    pub fn judge_candidate(&mut self, candidate: AdvancedBotParams, score: Fraction) -> (improved:
        bool)
        requires
            sound(score),
            sound(old(self).best.score),
            old(self).matches_done + old(self).matches_per_eval <= u64::MAX,
        ensures
            *final(self) == (HillClimb {
                matches_done: (old(self).matches_done + old(self).matches_per_eval) as u64,
                best: better(old(self).best, Best { params: candidate, score }),
                ..*old(self)
            }),
            improved == above(score, old(self).best.score),
            sound(final(self).best.score),
    {
        self.matches_done = self.matches_done + self.matches_per_eval as u64;
        self.best.offer(candidate, score)
    }

    /// Goes on to the next iteration.
    pub fn advance(&mut self)
        requires
            old(self).iteration < old(self).iterations,
        ensures
            *final(self) == (HillClimb {
                iteration: (old(self).iteration + 1) as u32,
                ..*old(self)
            }),
    {
        self.iteration = self.iteration + 1;
    }
}

/// A search around given weights: so many candidates, one after the other.
#[derive(Clone, Copy, Debug)]
pub struct Refinement {
    pub iterations: u32,
    pub iteration: u32,
    pub best: Best,
}

impl Refinement {
    /// Starts from scored weights.
    pub fn start(best: Best, iterations: u32) -> (search: Refinement)
        ensures
            search == (Refinement { iterations, iteration: 0, best }),
    {
        Refinement { iterations, iteration: 0, best }
    }

    /// What to do next, given whether the search may go on.
    pub fn next_step(&self, running: bool) -> (step: ClimbStep)
        ensures
            step == if self.iteration >= self.iterations {
                ClimbStep::Finish
            } else if running {
                ClimbStep::Evaluate
            } else {
                ClimbStep::Stop
            },
    {
        if self.iteration >= self.iterations {
            ClimbStep::Finish
        } else if running {
            ClimbStep::Evaluate
        } else {
            ClimbStep::Stop
        }
    }

    /// Takes in the score of a candidate, and the candidate where it scores higher.
    pub fn judge(&mut self, candidate: AdvancedBotParams, score: Fraction) -> (improved: bool)
        requires
            old(self).iteration < old(self).iterations,
            sound(score),
            sound(old(self).best.score),
        ensures
            *final(self) == (Refinement {
                iteration: (old(self).iteration + 1) as u32,
                best: better(old(self).best, Best { params: candidate, score }),
                ..*old(self)
            }),
            improved == above(score, old(self).best.score),
            sound(final(self).best.score),
    {
        self.iteration = self.iteration + 1;
        self.best.offer(candidate, score)
    }
}

/// A match is told from the side of south and north: their gain is positive where one of them is
/// out first, three levels where the partner comes second and two otherwise; what one team gains
/// the other loses.
pub proof fn gains_are_those_of_south_and_north(order: Seq<Seat>, other: Seq<Seat>)
    requires
        order.len() >= 2,
        other.len() >= 2,
    ensures
        level_gain(order) > 0 <==> team_of(order[0]) == TeamId::Sn,
        level_gain(order) == 3 || level_gain(order) == -3 <==> order[1] == order[0] || order[1]
            == partner_of(order[0]),
        level_gain(order) == 2 || level_gain(order) == -2 <==> team_of(order[1]) != team_of(
            order[0],
        ),
        (team_of(other[0]) != team_of(order[0]) && (team_of(other[1]) == team_of(other[0])) == (
        team_of(order[1]) == team_of(order[0]))) ==> level_gain(other) == -level_gain(order),
{
}

/// One more match adds one to those played, and to those won or led out where south and north did
/// so, and its levels and cards; one without a result counts as lost by three levels with 27 cards
/// left, no better than any that was lost.
pub proof fn matches_add_up(e: EvalResult, r: MatchResult)
    requires
        r.ok(),
        e.ok(),
        e.matches_played < u32::MAX,
    ensures
        ({
            let a = counted_in(e, Some(r));
            let b = counted_in(e, None);
            &&& a.matches_played == e.matches_played + 1 && b.matches_played == e.matches_played + 1
            &&& a.wins - e.wins == if r.winner == TeamId::Sn {
                1int
            } else {
                0
            }
            &&& a.first_outs - e.first_outs == if r.first_out == TeamId::Sn {
                1int
            } else {
                0
            }
            &&& b.wins == e.wins && b.first_outs == e.first_outs
            &&& a.level_sum - b.level_sum == r.level_delta + 3
            &&& b.level_sum == e.level_sum - 3
        }),
{
}

/// Scores run from nothing to one: one where every match gained three levels, was led out by south
/// or north and left them no cards; half of it for the levels, a fifth for leading out, three
/// tenths for the cards.
pub proof fn scores_run_to_one(e: EvalResult)
    requires
        e.ok(),
        e.matches_played > 0,
        e.residual_sum <= 27 * e.matches_played,
    ensures
        ({
            let s = score_of(e);
            let w = win_score_of(e, 0);
            let n = e.matches_played as int;
            &&& 0 <= s.num <= s.den
            &&& 0 <= w.num <= w.den
            &&& s.num == s.den <==> e.level_sum == 3 * n && e.first_outs == n && e.residual_sum == 0
            &&& s.num == 0 <==> e.level_sum == -3 * n && e.first_outs == 0 && e.residual_sum == 27 * n
            &&& e.level_sum == 3 * n && e.first_outs == 0 && e.residual_sum == 27 * n ==> 2 * s.num
                == s.den
            &&& e.level_sum == -3 * n && e.first_outs == n && e.residual_sum == 27 * n ==> 5 * s.num
                == s.den
            &&& e.level_sum == -3 * n && e.first_outs == 0 && e.residual_sum == 0 ==> 10 * s.num == 3
                * s.den
            &&& w.num == w.den <==> e.wins == n && e.first_outs == n && e.residual_sum == 0
            &&& e.wins == n && e.first_outs == 0 && e.residual_sum == 27 * n ==> 2 * w.num == w.den
            &&& e.wins == 0 && e.first_outs == n && e.residual_sum == 27 * n ==> 5 * w.num == w.den
            &&& e.wins == 0 && e.first_outs == 0 && e.residual_sum == 0 ==> 10 * w.num == 3 * w.den
        }),
{
}

/// Of two sets of weights that do equally well otherwise, the one that goes out first more often,
/// is left with fewer cards, up to 27 a match, or wins more matches scores higher.
pub proof fn better_play_scores_higher(a: EvalResult, b: EvalResult)
    requires
        a.ok(),
        b.ok(),
        a.matches_played > 0,
        a.matches_played == b.matches_played,
        a.residual_sum <= 27 * a.matches_played,
    ensures
        a.level_sum == b.level_sum && a.residual_sum == b.residual_sum && a.first_outs > b.first_outs
            ==> above(score_of(a), score_of(b)),
        a.level_sum == b.level_sum && a.residual_sum < b.residual_sum && a.first_outs == b.first_outs
            ==> (above(score_of(a), score_of(b)) <==> a.residual_sum < 27 * a.matches_played),
        a.wins > b.wins && a.residual_sum == b.residual_sum && a.first_outs == b.first_outs
            ==> above(win_score_of(a, 0), win_score_of(b, 0)),
        a.wins == b.wins && a.residual_sum == b.residual_sum && a.first_outs > b.first_outs
            ==> above(win_score_of(a, 0), win_score_of(b, 0)),
{
    let d = score_of(a).den as int;
    let x = score_of(a).num as int;
    let y = score_of(b).num as int;
    assert(x > y ==> x * d > y * d) by (nonlinear_arith)
        requires
            d > 0,
    ;
    assert(x == y ==> x * d == y * d);
    let v = win_score_of(a, 0).num as int;
    let w = win_score_of(b, 0).num as int;
    assert(v > w ==> v * d > w * d) by (nonlinear_arith)
        requires
            d > 0,
    ;
}

/// In training a seat plays with what is on trial for its own team, whatever the other team tries;
/// with what is on trial for everyone where its team tries nothing; else with the house's weights.
pub proof fn teams_try_their_own_weights(a: LearnParams, b: LearnParams, seat: Seat)
    ensures
        seat == Seat::S || seat == Seat::N ==> (a.sn matches Some(p) ==> weights_at(a, seat, true)
            == p),
        seat == Seat::E || seat == Seat::W ==> (a.ew matches Some(p) ==> weights_at(a, seat, true)
            == p),
        (seat == Seat::S || seat == Seat::N) && a.sn == b.sn && a.shared == b.shared ==> weights_at(
            a,
            seat,
            true,
        ) == weights_at(b, seat, true),
        (seat == Seat::E || seat == Seat::W) && a.ew == b.ew && a.shared == b.shared ==> weights_at(
            a,
            seat,
            true,
        ) == weights_at(b, seat, true),
        a.sn is None && a.ew is None ==> (a.shared matches Some(p) ==> weights_at(a, seat, true)
            == p),
        a.sn is None && a.ew is None && a.shared is None ==> weights_at(a, seat, true) == house(),
{
}

} // verus!
