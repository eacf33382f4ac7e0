//! Training by evolution: a population of weights, parents, children, and who survives.

use vstd::prelude::*;
use crate::chance::{random_between, random_index};
use crate::params::{
    AdvancedBotParams, UNIT, WEIGHT_LIMIT, aggressive, balanced, held_between, moved,
    mutation_moves_one_weight, supportive, weight_at,
};
use crate::training::{Best, above, better, exceeds, scores_are_ordered, sound};

verus! {

/// How a population evolves; rates and steps in parts of [`UNIT`].
#[derive(Clone, Copy, Debug, PartialEq, Eq, Structural)]
pub struct GeneticConfig {
    pub population_size: usize,
    pub generations: u32,
    pub matches_per_eval: u32,
    pub crossover_rate: i64,
    pub mutation_rate: i64,
    pub mutation_step_size: i64,
    pub elitism_count: usize,
}

/// The usual settings.
pub open spec fn usual_genetics() -> GeneticConfig {
    GeneticConfig {
        population_size: 20,
        generations: 50,
        matches_per_eval: 50,
        crossover_rate: 70_000_000,
        mutation_rate: 20_000_000,
        mutation_step_size: 15_000_000,
        elitism_count: 2,
    }
}

impl Default for GeneticConfig {
    fn default() -> (config: GeneticConfig)
        ensures
            config == usual_genetics(),
    {
        GeneticConfig {
            population_size: 20,
            generations: 50,
            matches_per_eval: 50,
            crossover_rate: 70_000_000,
            mutation_rate: 20_000_000,
            mutation_step_size: 15_000_000,
            elitism_count: 2,
        }
    }
}

/// Matches played up to a generation: the whole first population, then all but the elite of
/// each.
pub open spec fn matches_until(config: GeneticConfig, generation: int) -> int {
    (config.population_size + generation * (config.population_size - config.elitism_count))
        * config.matches_per_eval
}

/// Matches played up to a generation.
pub fn matches_by_generation(config: &GeneticConfig, generation: u32) -> (n: u128)
    requires
        config.elitism_count <= config.population_size,
    ensures
        n == matches_until(*config, generation as int),
{
    let young: u128 = (config.population_size - config.elitism_count) as u128;
    proof {
        assert(0 <= generation * young <= u32::MAX * u64::MAX) by (nonlinear_arith)
            requires
                generation <= u32::MAX,
                young <= u64::MAX,
        ;
    }
    let bred: u128 = generation as u128 * young;
    let all: u128 = config.population_size as u128 + bred;
    proof {
        assert(0 <= all * config.matches_per_eval <= (u32::MAX * u64::MAX + u64::MAX) * u32::MAX)
            by (nonlinear_arith)
            requires
                0 <= all <= u32::MAX * u64::MAX + u64::MAX,
                config.matches_per_eval <= u32::MAX,
        ;
    }
    all * config.matches_per_eval as u128
}

/// The child that has each of thirteen traits from the second parent where the picks say so,
/// and everything else from the first.
pub open spec fn crossed(a: AdvancedBotParams, b: AdvancedBotParams, picks: Seq<bool>) -> AdvancedBotParams {
    AdvancedBotParams {
        team_win_weight: if picks[0] {
            b.team_win_weight
        } else {
            a.team_win_weight
        },
        first_out_weight: if picks[1] {
            b.first_out_weight
        } else {
            a.first_out_weight
        },
        second_out_weight: if picks[2] {
            b.second_out_weight
        } else {
            a.second_out_weight
        },
        yield_to_partner_bias: if picks[3] {
            b.yield_to_partner_bias
        } else {
            a.yield_to_partner_bias
        },
        bomb_conserve_bias: if picks[4] {
            b.bomb_conserve_bias
        } else {
            a.bomb_conserve_bias
        },
        bomb_aggression_when_enemy_low: if picks[5] {
            b.bomb_aggression_when_enemy_low
        } else {
            a.bomb_aggression_when_enemy_low
        },
        endgame_clear_hand_bias: if picks[6] {
            b.endgame_clear_hand_bias
        } else {
            a.endgame_clear_hand_bias
        },
        proactive_play_bias: if picks[7] {
            b.proactive_play_bias
        } else {
            a.proactive_play_bias
        },
        low_card_dump_bias: if picks[8] {
            b.low_card_dump_bias
        } else {
            a.low_card_dump_bias
        },
        pass_stall_penalty: if picks[9] {
            b.pass_stall_penalty
        } else {
            a.pass_stall_penalty
        },
        partner_sprint_threshold: if picks[10] {
            b.partner_sprint_threshold
        } else {
            a.partner_sprint_threshold
        },
        enemy_low_cards_threshold: if picks[11] {
            b.enemy_low_cards_threshold
        } else {
            a.enemy_low_cards_threshold
        },
        endgame_hand_count_threshold: if picks[12] {
            b.endgame_hand_count_threshold
        } else {
            a.endgame_hand_count_threshold
        },
        ..a
    }
}

fn one_weight(second: bool, a: i64, b: i64) -> (x: i64)
    ensures
        x == if second {
            b
        } else {
            a
        },
{
    if second {
        b
    } else {
        a
    }
}

fn one_threshold(second: bool, a: u8, b: u8) -> (x: u8)
    ensures
        x == if second {
            b
        } else {
            a
        },
{
    if second {
        b
    } else {
        a
    }
}

/// Crosses two parents by given picks.
pub fn crossover_by(parent1: &AdvancedBotParams, parent2: &AdvancedBotParams, picks: &[bool; 13]) -> (child:
    AdvancedBotParams)
    requires
        parent1.ok(),
        parent2.ok(),
    ensures
        child == crossed(*parent1, *parent2, picks@),
        child.ok(),
{
    AdvancedBotParams {
        team_win_weight: one_weight(picks[0], parent1.team_win_weight, parent2.team_win_weight),
        first_out_weight: one_weight(picks[1], parent1.first_out_weight, parent2.first_out_weight),
        second_out_weight: one_weight(picks[2], parent1.second_out_weight, parent2.second_out_weight),
        yield_to_partner_bias: one_weight(picks[3], parent1.yield_to_partner_bias, parent2.yield_to_partner_bias),
        bomb_conserve_bias: one_weight(picks[4], parent1.bomb_conserve_bias, parent2.bomb_conserve_bias),
        bomb_aggression_when_enemy_low: one_weight(picks[5], parent1.bomb_aggression_when_enemy_low, parent2.bomb_aggression_when_enemy_low),
        endgame_clear_hand_bias: one_weight(picks[6], parent1.endgame_clear_hand_bias, parent2.endgame_clear_hand_bias),
        proactive_play_bias: one_weight(picks[7], parent1.proactive_play_bias, parent2.proactive_play_bias),
        low_card_dump_bias: one_weight(picks[8], parent1.low_card_dump_bias, parent2.low_card_dump_bias),
        pass_stall_penalty: one_weight(picks[9], parent1.pass_stall_penalty, parent2.pass_stall_penalty),
        partner_sprint_threshold: one_threshold(picks[10], parent1.partner_sprint_threshold, parent2.partner_sprint_threshold),
        enemy_low_cards_threshold: one_threshold(picks[11], parent1.enemy_low_cards_threshold, parent2.enemy_low_cards_threshold),
        endgame_hand_count_threshold: one_threshold(picks[12], parent1.endgame_hand_count_threshold, parent2.endgame_hand_count_threshold),
        ..*parent1
    }
}

/// True in `rate` of all cases, by chance.
fn happens(rate: i64) -> (b: bool)
    ensures
        rate <= 0 ==> !b,
        rate >= UNIT ==> b,
{
    random_between(0, UNIT) < rate
}

/// Crosses two parents; chance picks which of the thirteen traits come from the second.
pub fn crossover(parent1: &AdvancedBotParams, parent2: &AdvancedBotParams) -> (child:
    AdvancedBotParams)
    requires
        parent1.ok(),
        parent2.ok(),
    ensures
        child.ok(),
        exists|picks: Seq<bool>|
            picks.len() == 13 && child == #[trigger] crossed(*parent1, *parent2, picks),
{
    let mut picks: [bool; 13] = [false; 13];
    for i in 0..13 {
        if happens(UNIT / 2) {
            picks[i] = true;
        }
    }
    let child = crossover_by(parent1, parent2, &picks);
    assert(child == crossed(*parent1, *parent2, picks@) && picks@.len() == 13);
    child
}

/// By how much each of ten weights moves, and which way each of three thresholds goes; `None`
/// where it stays.
#[derive(Clone, Copy, Debug)]
pub struct Mutation {
    pub weights: [Option<i64>; 10],
    pub sprint_up: Option<bool>,
    pub low_up: Option<bool>,
    pub endgame_up: Option<bool>,
}

/// The first `n` of the ten weights moved.
pub open spec fn weights_moved(p: AdvancedBotParams, weights: Seq<Option<i64>>, n: int) -> AdvancedBotParams
    decreases n,
{
    if n <= 0 {
        p
    } else {
        let q = weights_moved(p, weights, n - 1);
        match weights[n - 1] {
            Some(delta) => moved(q, n - 1, delta as int),
            None => q,
        }
    }
}

/// A threshold moved by one within a range.
pub open spec fn threshold_after(x: u8, up: Option<bool>, low: int, high: int) -> u8 {
    match up {
        None => x,
        Some(up) => held_between(
            x as int,
            if up {
                1
            } else {
                -1
            },
            low,
            high,
        ) as u8,
    }
}

/// The weights after a mutation.
pub open spec fn mutated(p: AdvancedBotParams, m: Mutation) -> AdvancedBotParams {
    AdvancedBotParams {
        partner_sprint_threshold: threshold_after(p.partner_sprint_threshold, m.sprint_up, 1, 6),
        enemy_low_cards_threshold: threshold_after(p.enemy_low_cards_threshold, m.low_up, 1, 8),
        endgame_hand_count_threshold: threshold_after(p.endgame_hand_count_threshold, m.endgame_up, 3, 12),
        ..weights_moved(p, m.weights@, 10)
    }
}

/// Steps of less than `step` either way.
pub open spec fn within_step(m: Mutation, step: int) -> bool {
    forall|i: int|
        0 <= i < 10 ==> (#[trigger] m.weights@[i] matches Some(d) ==> -step <= d < step)
}

fn step_threshold(x: u8, up: Option<bool>, low: u8, high: u8) -> (y: u8)
    requires
        low <= high,
    ensures
        y == threshold_after(x, up, low as int, high as int),
{
    match up {
        None => x,
        Some(up) => {
            let next: i16 = if up {
                x as i16 + 1
            } else {
                x as i16 - 1
            };
            if next < low as i16 {
                low
            } else if next > high as i16 {
                high
            } else {
                next as u8
            }
        },
    }
}

/// Mutates by a given mutation.
pub fn mutate_by(params: &AdvancedBotParams, m: &Mutation) -> (child: AdvancedBotParams)
    requires
        params.ok(),
        within_step(*m, WEIGHT_LIMIT as int),
    ensures
        child == mutated(*params, *m),
        child.ok(),
{
    let mut child = *params;
    for i in 0..10
        invariant
            within_step(*m, WEIGHT_LIMIT as int),
            child.ok(),
            child == weights_moved(*params, m.weights@, i as int),
            child.partner_sprint_threshold == params.partner_sprint_threshold,
            child.enemy_low_cards_threshold == params.enemy_low_cards_threshold,
            child.endgame_hand_count_threshold == params.endgame_hand_count_threshold,
    {
        if let Some(delta) = m.weights[i] {
            assert(m.weights@[i as int] == Some(delta));
            child = child.mutate_at(i, delta);
        }
    }
    child.partner_sprint_threshold = step_threshold(child.partner_sprint_threshold, m.sprint_up, 1, 6);
    child.enemy_low_cards_threshold = step_threshold(
        child.enemy_low_cards_threshold,
        m.low_up,
        1,
        8,
    );
    child.endgame_hand_count_threshold = step_threshold(
        child.endgame_hand_count_threshold,
        m.endgame_up,
        3,
        12,
    );
    child
}

/// Nothing moves where the chance is nil, and everything does where it is certain.
pub open spec fn as_likely(m: Mutation, rate: int) -> bool {
    &&& rate <= 0 ==> (forall|i: int| 0 <= i < 10 ==> #[trigger] m.weights@[i] is None)
        && m.sprint_up is None && m.low_up is None && m.endgame_up is None
    &&& rate >= UNIT ==> (forall|i: int| 0 <= i < 10 ==> #[trigger] m.weights@[i] is Some)
        && m.sprint_up is Some && m.low_up is Some && m.endgame_up is Some
}

fn toss(rate: i64) -> (up: Option<bool>)
    ensures
        rate <= 0 ==> up is None,
        rate >= UNIT ==> up is Some,
{
    if happens(rate) {
        Some(happens(UNIT / 2))
    } else {
        None
    }
}

/// Mutates each trait with chance `rate`, a weight by less than `step`.
pub fn mutate(params: &AdvancedBotParams, rate: i64, step: i64) -> (child: AdvancedBotParams)
    requires
        params.ok(),
        0 < step <= WEIGHT_LIMIT,
    ensures
        child.ok(),
        exists|m: Mutation|
            within_step(m, step as int) && as_likely(m, rate as int) && child == #[trigger] mutated(
                *params,
                m,
            ),
{
    let mut weights: [Option<i64>; 10] = [None; 10];
    for i in 0..10
        invariant
            0 < step,
            weights@.len() == 10,
            forall|j: int|
                0 <= j < 10 ==> (#[trigger] weights@[j] matches Some(d) ==> -step <= d < step),
            rate <= 0 ==> forall|j: int| 0 <= j < 10 ==> #[trigger] weights@[j] is None,
            rate >= UNIT ==> forall|j: int| 0 <= j < i ==> #[trigger] weights@[j] is Some,
    {
        if happens(rate) {
            let delta: i64 = random_between(-step, step);
            weights[i] = Some(delta);
        }
    }
    let m = Mutation {
        weights,
        sprint_up: toss(rate),
        low_up: toss(rate),
        endgame_up: toss(rate),
    };
    let child = mutate_by(params, &m);
    assert(within_step(m, step as int) && as_likely(m, rate as int) && child == mutated(*params, m));
    child
}

/// The weights that the `i`-th of the first population comes from, with the chance and the step
/// of its mutation. Stored weights come first and change little; the presets follow; the rest are
/// balanced or aggressive, as the coin falls.
pub open spec fn ancestor_at(i: int, stored: Option<AdvancedBotParams>, coin: bool) -> (
    AdvancedBotParams,
    i64,
    i64,
) {
    if i == 0 && stored is Some {
        (stored->Some_0, 10_000_000, 10_000_000)
    } else if i <= 1 {
        (balanced(), 80_000_000, 30_000_000)
    } else if i == 2 {
        (aggressive(), 80_000_000, 30_000_000)
    } else if i == 3 {
        (supportive(), 80_000_000, 30_000_000)
    } else if coin {
        (balanced(), 80_000_000, 30_000_000)
    } else {
        (aggressive(), 80_000_000, 30_000_000)
    }
}

/// The weights that the `i`-th of the first population comes from.
pub fn ancestor(i: usize, stored: Option<AdvancedBotParams>, coin: bool) -> (from: (
    AdvancedBotParams,
    i64,
    i64,
))
    requires
        stored matches Some(p) ==> p.ok(),
    ensures
        from == ancestor_at(i as int, stored, coin),
        from.0.ok(),
{
    if i == 0 {
        if let Some(p) = stored {
            return (p, 10_000_000, 10_000_000);
        }
    }
    if i <= 1 {
        (AdvancedBotParams::default_balanced(), 80_000_000, 30_000_000)
    } else if i == 2 {
        (AdvancedBotParams::default_aggressive(), 80_000_000, 30_000_000)
    } else if i == 3 {
        (AdvancedBotParams::default_supportive(), 80_000_000, 30_000_000)
    } else if coin {
        (AdvancedBotParams::default_balanced(), 80_000_000, 30_000_000)
    } else {
        (AdvancedBotParams::default_aggressive(), 80_000_000, 30_000_000)
    }
}

/// The `i`-th of the first population, before it is scored.
pub fn founder(i: usize, stored: Option<AdvancedBotParams>) -> (params: AdvancedBotParams)
    requires
        stored matches Some(p) ==> p.ok(),
    ensures
        params.ok(),
        exists|coin: bool, m: Mutation|
            within_step(m, ancestor_at(i as int, stored, coin).2 as int) && as_likely(
                m,
                ancestor_at(i as int, stored, coin).1 as int,
            ) && params == #[trigger] mutated(ancestor_at(i as int, stored, coin).0, m),
{
    let coin = happens(UNIT / 2);
    let (base, rate, step) = ancestor(i, stored, coin);
    mutate(&base, rate, step)
}

/// Everyone with a proper score.
pub open spec fn scored(population: Seq<Best>) -> bool {
    forall|i: int|
        0 <= i < population.len() ==> sound((#[trigger] population[i]).score)
            && population[i].params.ok()
}

/// One more put in its place: behind everyone that it does not score above.
pub open spec fn placed(ranked: Seq<Best>, x: Best) -> Seq<Best>
    decreases ranked.len(),
{
    if ranked.len() == 0 || !above(x.score, ranked.last().score) {
        ranked.push(x)
    } else {
        placed(ranked.drop_last(), x).push(ranked.last())
    }
}

/// A population from the highest score to the lowest, equal ones in their order.
pub open spec fn by_score(population: Seq<Best>) -> Seq<Best>
    decreases population.len(),
{
    if population.len() == 0 {
        Seq::empty()
    } else {
        placed(by_score(population.drop_last()), population.last())
    }
}

/// From the highest score to the lowest.
pub open spec fn falling(population: Seq<Best>) -> bool {
    forall|i: int, j: int|
        0 <= i <= j < population.len() ==> !above(
            (#[trigger] population[j]).score,
            (#[trigger] population[i]).score,
        )
}

proof fn lemma_placed(ranked: Seq<Best>, x: Best)
    requires
        falling(ranked),
        scored(ranked),
        sound(x.score),
        x.params.ok(),
    ensures
        falling(placed(ranked, x)),
        scored(placed(ranked, x)),
        placed(ranked, x).to_multiset() == ranked.to_multiset().insert(x),
        placed(ranked, x).len() == ranked.len() + 1,
    decreases ranked.len(),
{
    broadcast use vstd::seq_lib::group_to_multiset_ensures;

    if ranked.len() == 0 {
        scores_are_ordered(x.score, x.score, x.score);
    } else if !above(x.score, ranked.last().score) {
        let all = ranked.push(x);
        let last = ranked.last();
        assert forall|i: int, j: int| 0 <= i <= j < all.len() implies !above(
            (#[trigger] all[j]).score,
            (#[trigger] all[i]).score,
        ) by {
            scores_are_ordered(x.score, x.score, x.score);
            if j == ranked.len() && i < j {
                assert(!above(last.score, ranked[i].score));
                scores_are_ordered(x.score, ranked[i].score, last.score);
            }
        }
    } else {
        let rest = ranked.drop_last();
        let last = ranked.last();
        assert(falling(rest));
        assert(scored(rest));
        lemma_placed(rest, x);
        let most = placed(rest, x);
        let all = most.push(last);
        assert(ranked =~= rest.push(last));
        lemma_same_members(most, rest, x);
        assert forall|i: int, j: int| 0 <= i <= j < all.len() implies !above(
            (#[trigger] all[j]).score,
            (#[trigger] all[i]).score,
        ) by {
            scores_are_ordered(last.score, last.score, last.score);
            scores_are_ordered(x.score, last.score, x.score);
            if j == most.len() && i < j {
                let y = most[i];
                if y != x {
                    let k = choose|k: int| 0 <= k < rest.len() && rest[k] == y;
                    assert(ranked[k] == y);
                    assert(!above(ranked[ranked.len() - 1].score, ranked[k].score));
                }
            }
        }
    }
}

proof fn lemma_same_members(a: Seq<Best>, b: Seq<Best>, x: Best)
    requires
        a.to_multiset() == b.to_multiset().insert(x),
    ensures
        forall|i: int| 0 <= i < a.len() ==> #[trigger] a[i] == x || b.contains(a[i]),
{
    broadcast use vstd::seq_lib::group_to_multiset_ensures;

    assert forall|i: int| 0 <= i < a.len() implies #[trigger] a[i] == x || b.contains(a[i]) by {
        assert(a.contains(a[i]));
        assert(a.to_multiset().count(a[i]) > 0);
        if a[i] != x {
            assert(b.to_multiset().count(a[i]) > 0);
        }
    }
}

/// Ranking loses nobody and adds nobody, and puts the highest score first.
pub proof fn ranking_sorts(population: Seq<Best>)
    requires
        scored(population),
    ensures
        falling(by_score(population)),
        scored(by_score(population)),
        by_score(population).to_multiset() == population.to_multiset(),
        by_score(population).len() == population.len(),
    decreases population.len(),
{
    broadcast use vstd::seq_lib::group_to_multiset_ensures;

    if population.len() > 0 {
        let rest = population.drop_last();
        assert(scored(rest));
        ranking_sorts(rest);
        assert(sound(population[population.len() - 1].score));
        lemma_placed(by_score(rest), population.last());
        assert(population =~= rest.push(population.last()));
    } else {
        assert(by_score(population) =~= population);
    }
}

fn place(ranked: &mut Vec<Best>, x: Best)
    requires
        scored(old(ranked)@),
        sound(x.score),
        x.params.ok(),
    ensures
        final(ranked)@ == placed(old(ranked)@, x),
{
    let ghost before = ranked@;
    let mut i: usize = ranked.len();
    let ghost mut tail: Seq<Best> = before.skip(before.len() as int);
    assert(before.take(i as int) =~= before);
    assert(placed(before, x) + tail =~= placed(before, x));
    while i > 0 && exceeds(x.score, ranked[i - 1].score)
        invariant
            ranked@ == before,
            i <= before.len(),
            scored(before),
            sound(x.score),
            tail == before.skip(i as int),
            placed(before, x) == placed(before.take(i as int), x) + tail,
        decreases i,
    {
        proof {
            let head = before.take(i as int);
            assert(head.last() == before[i - 1]);
            assert(head.drop_last() =~= before.take(i - 1));
            assert(placed(head, x) == placed(head.drop_last(), x).push(head.last()));
            assert(placed(head.drop_last(), x).push(head.last()) + tail =~= placed(
                head.drop_last(),
                x,
            ) + before.skip(i - 1));
            tail = before.skip(i - 1);
        }
        i = i - 1;
        assert(i == 0 || sound(before[i - 1].score));
    }
    proof {
        let head = before.take(i as int);
        if i > 0 {
            assert(head.last() == before[i - 1]);
        }
        assert(placed(head, x) == head.push(x));
        assert(before.insert(i as int, x) =~= head.push(x) + tail);
    }
    ranked.insert(i, x);
}

/// Ranks a population.
pub fn rank_population(population: &Vec<Best>) -> (ranked: Vec<Best>)
    requires
        scored(population@),
    ensures
        ranked@ == by_score(population@),
        falling(ranked@),
        scored(ranked@),
        ranked@.len() == population@.len(),
{
    let mut ranked: Vec<Best> = Vec::new();
    for i in 0..population.len()
        invariant
            scored(population@),
            ranked@ == by_score(population@.take(i as int)),
    {
        proof {
            let head = population@.take(i as int);
            assert(scored(head));
            ranking_sorts(head);
            assert(population@.take(i + 1).drop_last() =~= head);
            assert(population@.take(i + 1).last() == population@[i as int]);
        }
        place(&mut ranked, population[i]);
    }
    proof {
        assert(population@.take(population@.len() as int) =~= population@);
        ranking_sorts(population@);
    }
    ranked
}

/// The first of the picked that nobody picked scores above.
pub open spec fn champion(population: Seq<Best>, picks: Seq<usize>) -> usize
    decreases picks.len(),
{
    if picks.len() <= 1 {
        picks[0]
    } else {
        let before = champion(population, picks.drop_last());
        if above(population[picks.last() as int].score, population[before as int].score) {
            picks.last()
        } else {
            before
        }
    }
}

/// Who wins among the picked.
pub fn tournament_winner(population: &Vec<Best>, picks: &Vec<usize>) -> (place: usize)
    requires
        scored(population@),
        picks@.len() > 0,
        forall|i: int| 0 <= i < picks@.len() ==> (#[trigger] picks@[i]) < population@.len(),
    ensures
        place == champion(population@, picks@),
        place < population@.len(),
{
    let mut best: usize = picks[0];
    let mut i: usize = 1;
    assert(picks@.take(1).len() == 1);
    while i < picks.len()
        invariant
            scored(population@),
            1 <= i <= picks@.len(),
            forall|k: int| 0 <= k < picks@.len() ==> (#[trigger] picks@[k]) < population@.len(),
            best == champion(population@, picks@.take(i as int)),
            best < population@.len(),
        decreases picks@.len() - i,
    {
        proof {
            assert(picks@.take(i + 1).drop_last() =~= picks@.take(i as int));
            assert(picks@.take(i + 1).last() == picks@[i as int]);
            assert(sound(population@[best as int].score));
            assert(sound(population@[picks@[i as int] as int].score));
        }
        if exceeds(population[picks[i]].score, population[best].score) {
            best = picks[i];
        }
        i = i + 1;
    }
    assert(picks@.take(picks@.len() as int) =~= picks@);
    best
}

/// The winner of a tournament scores no less than anyone picked, and was picked.
pub proof fn tournament_is_fair(population: Seq<Best>, picks: Seq<usize>)
    requires
        scored(population),
        picks.len() > 0,
        forall|i: int| 0 <= i < picks.len() ==> (#[trigger] picks[i]) < population.len(),
    ensures
        picks.contains(champion(population, picks)),
        forall|i: int|
            0 <= i < picks.len() ==> !above(
                population[(#[trigger] picks[i]) as int].score,
                population[champion(population, picks) as int].score,
            ),
    decreases picks.len(),
{
    let winner = champion(population, picks);
    if picks.len() == 1 {
        assert(picks[0] == winner);
        let s = population[picks[0] as int].score;
        assert(sound(s));
        scores_are_ordered(s, s, s);
    } else {
        let rest = picks.drop_last();
        assert forall|i: int| 0 <= i < rest.len() implies (#[trigger] rest[i])
            < population.len() by {
            assert(rest[i] == picks[i]);
        }
        tournament_is_fair(population, rest);
        let before = champion(population, rest);
        let k = choose|k: int| 0 <= k < rest.len() && rest[k] == before;
        assert(picks[k] == before);
        assert(picks[picks.len() - 1] == picks.last());
        let b = population[before as int].score;
        let l = population[picks.last() as int].score;
        assert(sound(b) && sound(l));
        scores_are_ordered(l, l, l);
        scores_are_ordered(l, b, l);
        assert forall|i: int| 0 <= i < picks.len() implies !above(
            population[(#[trigger] picks[i]) as int].score,
            population[winner as int].score,
        ) by {
            let s = population[picks[i] as int].score;
            assert(sound(s));
            if i < rest.len() {
                assert(rest[i] == picks[i]);
                scores_are_ordered(l, b, s);
                scores_are_ordered(s, l, s);
            }
        }
    }
}

/// The winner of a tournament among `size` of the population, picked by chance.
pub fn select_tournament(population: &Vec<Best>, size: usize) -> (place: usize)
    requires
        scored(population@),
        population@.len() > 0,
        size > 0,
    ensures
        place < population@.len(),
        exists|picks: Seq<usize>|
            picks.len() == size && (forall|i: int|
                0 <= i < picks.len() ==> (#[trigger] picks[i]) < population@.len()) && place
                == #[trigger] champion(population@, picks),
{
    let mut picks: Vec<usize> = Vec::new();
    for k in 0..size
        invariant
            population@.len() > 0,
            picks@.len() == k,
            forall|i: int| 0 <= i < picks@.len() ==> (#[trigger] picks@[i]) < population@.len(),
    {
        picks.push(random_index(population.len()));
    }
    tournament_winner(population, &picks)
}

/// Someone who can win a tournament among three of the population.
pub open spec fn can_win(population: Seq<Best>, place: int) -> bool {
    exists|picks: Seq<usize>|
        picks.len() == 3 && (forall|i: int|
            0 <= i < picks.len() ==> (#[trigger] picks[i]) < population.len()) && place
            == #[trigger] champion(population, picks)
}

/// A child of two winners, mutated. Where the chance of crossing is nil, everything comes from the
/// first of them; the mutation goes by its own chance and step.
pub open spec fn is_child(population: Seq<Best>, child: AdvancedBotParams, config: GeneticConfig) -> bool {
    exists|a: int, b: int, picks: Seq<bool>, m: Mutation|
        0 <= a < population.len() && 0 <= b < population.len() && can_win(population, a)
            && can_win(population, b) && picks.len() == 13 && (config.crossover_rate <= 0
            ==> !picks.contains(true)) && within_step(m, config.mutation_step_size as int)
            && as_likely(m, config.mutation_rate as int) && child == #[trigger] mutated(
            #[trigger] crossed(population[a].params, population[b].params, picks),
            m,
        )
}

/// Breeds a child: two parents by tournament, crossed with the chance set for that, mutated.
pub fn breed(population: &Vec<Best>, config: &GeneticConfig) -> (child: AdvancedBotParams)
    requires
        scored(population@),
        population@.len() > 0,
        0 < config.mutation_step_size <= WEIGHT_LIMIT,
    ensures
        child.ok(),
        is_child(population@, child, *config),
{
    let a: usize = select_tournament(population, 3);
    let b: usize = select_tournament(population, 3);
    let first = population[a].params;
    let second = population[b].params;
    assert(population@[a as int].params.ok() && population@[b as int].params.ok());
    let plain: AdvancedBotParams = if happens(config.crossover_rate) {
        crossover(&first, &second)
    } else {
        proof {
            let none = Seq::new(13, |i: int| false);
            assert(none.len() == 13 && !none.contains(true) && first == crossed(first, second, none));
        }
        first
    };
    let child = mutate(&plain, config.mutation_rate, config.mutation_step_size);
    proof {
        let picks = choose|picks: Seq<bool>|
            picks.len() == 13 && (config.crossover_rate <= 0 ==> !picks.contains(true)) && plain
                == #[trigger] crossed(first, second, picks);
        let m = choose|m: Mutation|
            within_step(m, config.mutation_step_size as int) && as_likely(
                m,
                config.mutation_rate as int,
            ) && child == #[trigger] mutated(plain, m);
        assert(child == mutated(
            crossed(population@[a as int].params, population@[b as int].params, picks),
            m,
        ));
    }
    child
}

/// Those who live on unchanged: the first of the ranking.
pub fn elite(ranked: &Vec<Best>, count: usize) -> (kept: Vec<Best>)
    requires
        count <= ranked@.len(),
    ensures
        kept@ == ranked@.take(count as int),
{
    let mut kept: Vec<Best> = Vec::new();
    for i in 0..count
        invariant
            count <= ranked@.len(),
            kept@ == ranked@.take(i as int),
    {
        kept.push(ranked[i]);
        assert(kept@ =~= ranked@.take(i + 1));
    }
    kept
}

/// What to do next in an evolution.
#[derive(Clone, Copy, Debug, PartialEq, Eq, Structural)]
pub enum EvolveStep {
    Breed,
    Stop,
    Finish,
}

/// How many children a generation needs besides the elite.
pub open spec fn children_needed(config: GeneticConfig) -> int {
    if config.elitism_count >= config.population_size {
        0
    } else {
        config.population_size - config.elitism_count
    }
}

/// How many children a generation needs besides the elite.
pub fn children_wanted(config: &GeneticConfig) -> (n: usize)
    ensures
        n == children_needed(*config),
{
    if config.elitism_count >= config.population_size {
        0
    } else {
        config.population_size - config.elitism_count
    }
}

/// An evolution under way: the population in its ranking, and the best ever.
#[derive(Debug)]
pub struct Evolution {
    pub population: Vec<Best>,
    pub best: Best,
    pub generation: u32,
}

impl Evolution {
    /// Someone lives, everyone is scored and in place, and nobody scores above the best.
    pub open spec fn wf(self) -> bool {
        &&& self.population@.len() > 0
        &&& scored(self.population@)
        &&& falling(self.population@)
        &&& sound(self.best.score)
        &&& !above(self.population@[0].score, self.best.score)
    }

    /// Starts from a scored population.
    pub fn begin(founders: &Vec<Best>) -> (evolution: Evolution)
        requires
            scored(founders@),
            founders@.len() > 0,
        ensures
            evolution.wf(),
            evolution.population@ == by_score(founders@),
            evolution.best == by_score(founders@)[0],
            evolution.generation == 0,
    {
        let population = rank_population(founders);
        let best = population[0];
        proof {
            assert(sound(population@[0].score));
            scores_are_ordered(best.score, best.score, best.score);
        }
        Evolution { population, best, generation: 0 }
    }

    /// What to do next, given whether the evolution may go on.
    pub fn next_step(&self, config: &GeneticConfig, running: bool) -> (step: EvolveStep)
        ensures
            step == if self.generation >= config.generations {
                EvolveStep::Finish
            } else if running {
                EvolveStep::Breed
            } else {
                EvolveStep::Stop
            },
    {
        if self.generation >= config.generations {
            EvolveStep::Finish
        } else if running {
            EvolveStep::Breed
        } else {
            EvolveStep::Stop
        }
    }

    /// Replaces the population by the elite and the children, scored: as many as are needed.
    pub fn raise(&mut self, config: &GeneticConfig, children: &Vec<Best>) -> (improved: bool)
        requires
            old(self).wf(),
            old(self).generation < config.generations,
            config.elitism_count <= old(self).population@.len(),
            config.population_size > 0,
            scored(children@),
            children@.len() == children_needed(*config),
        ensures
            final(self).wf(),
            ({
                let next = by_score(
                    old(self).population@.take(config.elitism_count as int) + children@,
                );
                &&& final(self).population@ == next
                &&& final(self).best == better(old(self).best, next[0])
                &&& improved == above(next[0].score, old(self).best.score)
            }),
            final(self).generation == old(self).generation + 1,
            config.elitism_count <= config.population_size ==> final(self).population@.len()
                == config.population_size,
    {
        let mut next = elite(&self.population, config.elitism_count);
        let ghost kept = next@;
        for i in 0..children.len()
            invariant
                next@ == kept + children@.take(i as int),
        {
            next.push(children[i]);
            assert(next@ =~= kept + children@.take(i + 1));
        }
        proof {
            assert(children@.take(children@.len() as int) =~= children@);
            assert forall|i: int| 0 <= i < next@.len() implies sound((#[trigger] next@[i]).score)
                && next@[i].params.ok() by {
                if i < kept.len() {
                    assert(next@[i] == old(self).population@[i]);
                } else {
                    assert(next@[i] == children@[i - kept.len()]);
                }
            }
            ranking_sorts(next@);
        }
        self.succeed(&next)
    }

    /// Replaces the population by the next generation, scored.
    pub fn succeed(&mut self, next: &Vec<Best>) -> (improved: bool)
        requires
            old(self).wf(),
            old(self).generation < u32::MAX,
            scored(next@),
            next@.len() > 0,
        ensures
            final(self).wf(),
            final(self).population@ == by_score(next@),
            final(self).best == better(old(self).best, by_score(next@)[0]),
            final(self).generation == old(self).generation + 1,
            improved == above(by_score(next@)[0].score, old(self).best.score),
    {
        self.population = rank_population(next);
        let first = self.population[0];
        proof {
            assert(sound(self.population@[0].score));
            scores_are_ordered(first.score, first.score, first.score);
        }
        self.generation = self.generation + 1;
        self.best.offer(first.params, first.score)
    }
}

/// The best of an evolution scores no less than anyone alive.
pub proof fn nobody_alive_is_better(evolution: Evolution, i: int)
    requires
        evolution.wf(),
        0 <= i < evolution.population@.len(),
    ensures
        !above(evolution.population@[i].score, evolution.best.score),
{
    let first = evolution.population@[0];
    let other = evolution.population@[i];
    assert(sound(first.score) && sound(other.score));
    assert(!above(other.score, first.score));
    scores_are_ordered(other.score, evolution.best.score, first.score);
}

/// A child has each trait from one of its parents: none from the second where nothing is picked,
/// all thirteen where everything is; and the picks the other way round give its sibling, which has
/// each trait from the other parent.
pub proof fn children_take_after_their_parents(
    a: AdvancedBotParams,
    b: AdvancedBotParams,
    picks: Seq<bool>,
    others: Seq<bool>,
)
    requires
        picks.len() == 13,
        others == picks.map_values(|x: bool| !x),
    ensures
        (forall|i: int| 0 <= i < 13 ==> !#[trigger] picks[i]) ==> crossed(a, b, picks) == a,
        crossed(a, a, picks) == a,
        ({
            let c = crossed(a, b, picks);
            let d = crossed(b, a, others);
            &&& c.team_win_weight == d.team_win_weight
            &&& c.first_out_weight == d.first_out_weight
            &&& c.second_out_weight == d.second_out_weight
            &&& c.yield_to_partner_bias == d.yield_to_partner_bias
            &&& c.bomb_conserve_bias == d.bomb_conserve_bias
            &&& c.bomb_aggression_when_enemy_low == d.bomb_aggression_when_enemy_low
            &&& c.endgame_clear_hand_bias == d.endgame_clear_hand_bias
            &&& c.proactive_play_bias == d.proactive_play_bias
            &&& c.low_card_dump_bias == d.low_card_dump_bias
            &&& c.pass_stall_penalty == d.pass_stall_penalty
            &&& c.partner_sprint_threshold == d.partner_sprint_threshold
            &&& c.enemy_low_cards_threshold == d.enemy_low_cards_threshold
            &&& c.endgame_hand_count_threshold == d.endgame_hand_count_threshold
        }),
        (forall|i: int| 0 <= i < 13 ==> #[trigger] picks[i]) ==> ({
            let c = crossed(a, b, picks);
            &&& c.team_win_weight == b.team_win_weight
            &&& c.first_out_weight == b.first_out_weight
            &&& c.second_out_weight == b.second_out_weight
            &&& c.yield_to_partner_bias == b.yield_to_partner_bias
            &&& c.bomb_conserve_bias == b.bomb_conserve_bias
            &&& c.bomb_aggression_when_enemy_low == b.bomb_aggression_when_enemy_low
            &&& c.endgame_clear_hand_bias == b.endgame_clear_hand_bias
            &&& c.proactive_play_bias == b.proactive_play_bias
            &&& c.low_card_dump_bias == b.low_card_dump_bias
            &&& c.pass_stall_penalty == b.pass_stall_penalty
            &&& c.partner_sprint_threshold == b.partner_sprint_threshold
            &&& c.enemy_low_cards_threshold == b.enemy_low_cards_threshold
            &&& c.endgame_hand_count_threshold == b.endgame_hand_count_threshold
        }),
{
    assert(picks[0] != others[0] && picks[1] != others[1] && picks[2] != others[2] && picks[3]
        != others[3] && picks[4] != others[4] && picks[5] != others[5] && picks[6] != others[6]
        && picks[7] != others[7] && picks[8] != others[8] && picks[9] != others[9] && picks[10]
        != others[10] && picks[11] != others[11] && picks[12] != others[12]);
}

/// A threshold that mutates goes one up or down, within its range, and stays where nothing says
/// which way; going up never ends below going down.
pub proof fn thresholds_move_by_one(p: AdvancedBotParams, m: Mutation)
    ensures
        ({
            let q = mutated(p, m);
            &&& m.sprint_up is None ==> q.partner_sprint_threshold == p.partner_sprint_threshold
            &&& m.low_up is None ==> q.enemy_low_cards_threshold == p.enemy_low_cards_threshold
            &&& m.endgame_up is None ==> q.endgame_hand_count_threshold
                == p.endgame_hand_count_threshold
            &&& 1 <= p.partner_sprint_threshold < 6 ==> (m.sprint_up == Some(true)
                ==> q.partner_sprint_threshold == p.partner_sprint_threshold + 1)
            &&& 1 < p.partner_sprint_threshold <= 6 ==> (m.sprint_up == Some(false)
                ==> q.partner_sprint_threshold == p.partner_sprint_threshold - 1)
            &&& 1 <= p.enemy_low_cards_threshold < 8 ==> (m.low_up == Some(true)
                ==> q.enemy_low_cards_threshold == p.enemy_low_cards_threshold + 1)
            &&& 1 < p.enemy_low_cards_threshold <= 8 ==> (m.low_up == Some(false)
                ==> q.enemy_low_cards_threshold == p.enemy_low_cards_threshold - 1)
            &&& 3 <= p.endgame_hand_count_threshold < 12 ==> (m.endgame_up == Some(true)
                ==> q.endgame_hand_count_threshold == p.endgame_hand_count_threshold + 1)
            &&& 3 < p.endgame_hand_count_threshold <= 12 ==> (m.endgame_up == Some(false)
                ==> q.endgame_hand_count_threshold == p.endgame_hand_count_threshold - 1)
            &&& m.sprint_up is Some ==> 1 <= q.partner_sprint_threshold <= 6
            &&& m.low_up is Some ==> 1 <= q.enemy_low_cards_threshold <= 8
            &&& m.endgame_up is Some ==> 3 <= q.endgame_hand_count_threshold <= 12
        }),
{
}

proof fn lemma_weights_moved(p: AdvancedBotParams, weights: Seq<Option<i64>>, n: int, k: int)
    requires
        0 <= n <= 10,
        weights.len() == 10,
        0 <= k < 53,
    ensures
        ({
            let before = weight_at(p, k);
            let after = weight_at(weights_moved(p, weights, n), k);
            &&& k >= n ==> after == before
            &&& k < n && weights[k] is None ==> after == before
            &&& k < n ==> (weights[k] matches Some(d) ==> (10_000_000 <= before + d <= 1_000_000_000
                ==> after == before + d))
        }),
    decreases n,
{
    if n > 0 {
        lemma_weights_moved(p, weights, n - 1, k);
        if let Some(d) = weights[n - 1] {
            mutation_moves_one_weight(weights_moved(p, weights, n - 1), n - 1, d as int, k);
        }
    }
}

/// A mutation moves each of the first ten weights by as much as it says, within a range, or leaves
/// it, and no other weight.
pub proof fn mutations_move_ten_weights(p: AdvancedBotParams, m: Mutation, k: int)
    requires
        0 <= k < 53,
    ensures
        ({
            let before = weight_at(p, k);
            let after = weight_at(mutated(p, m), k);
            &&& k >= 10 ==> after == before
            &&& k < 10 && m.weights@[k] is None ==> after == before
            &&& k < 10 ==> (m.weights@[k] matches Some(d) ==> (10_000_000 <= before + d
                <= 1_000_000_000 ==> after == before + d))
        }),
{
    lemma_weights_moved(p, m.weights@, 10, k);
}

/// Each generation adds the matches of all but its elite, after those of the whole first
/// population.
pub proof fn generations_add_matches(config: GeneticConfig, generation: int)
    ensures
        matches_until(config, 0) == config.population_size * config.matches_per_eval,
        matches_until(config, generation + 1) - matches_until(config, generation) == (
        config.population_size - config.elitism_count) * config.matches_per_eval,
{
    let c = config.population_size as int;
    let d = config.population_size - config.elitism_count;
    let m = config.matches_per_eval as int;
    assert((c + (generation + 1) * d) * m - (c + generation * d) * m == d * m) by (nonlinear_arith);
    assert((c + 0 * d) * m == c * m) by (nonlinear_arith);
}

/// Stored weights come first and change little: with a chance of a tenth, and by less than a tenth;
/// the three presets follow.
pub proof fn stored_weights_come_first(stored: AdvancedBotParams, i: int, coin: bool)
    ensures
        ancestor_at(0, Some(stored), coin) == (stored, 10_000_000i64, 10_000_000i64),
        i >= 1 || i == 0 ==> (ancestor_at(i, None, coin).0 == balanced() || ancestor_at(
            i,
            None,
            coin,
        ).0 == aggressive() || ancestor_at(i, None, coin).0 == supportive()),
        ancestor_at(1, Some(stored), coin).0 == balanced(),
        ancestor_at(2, Some(stored), coin).0 == aggressive(),
        ancestor_at(3, Some(stored), coin).0 == supportive(),
        i >= 1 ==> ancestor_at(i, Some(stored), coin) == ancestor_at(i, None, coin),
        i > 3 ==> ancestor_at(i, None, true).0 == balanced() && ancestor_at(i, None, false).0
            == aggressive(),
        ancestor_at(i, None, coin).1 == 80_000_000 && ancestor_at(i, None, coin).2 == 30_000_000,
{
}

} // verus!
