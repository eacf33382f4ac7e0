//! Habits of people and of bots, side by side.

use vstd::prelude::*;
use vstd::string::*;
use crate::game_log::GameLogEntry;
use crate::record_learner::{cards_at, is_listed, plays_at};
use crate::text::{same_text, texts};

verus! {

/// A text without the suit, or the joker's sign, that it starts with.
pub open spec fn suitless(symbol: Seq<char>) -> Seq<char> {
    if symbol.len() > 0 && (symbol[0] == '♠' || symbol[0] == '♥' || symbol[0] == '♦' || symbol[0]
        == '♣' || symbol[0] == '🃏') {
        symbol.skip(1)
    } else {
        symbol
    }
}

/// The value of a rank's text, in the order three up to ace, two, black joker, red joker.
pub open spec fn rank_text_value(rank: Seq<char>) -> Option<u32> {
    if rank == "3"@ {
        Some(3)
    } else if rank == "4"@ {
        Some(4)
    } else if rank == "5"@ {
        Some(5)
    } else if rank == "6"@ {
        Some(6)
    } else if rank == "7"@ {
        Some(7)
    } else if rank == "8"@ {
        Some(8)
    } else if rank == "9"@ {
        Some(9)
    } else if rank == "10"@ {
        Some(10)
    } else if rank == "J"@ {
        Some(11)
    } else if rank == "Q"@ {
        Some(12)
    } else if rank == "K"@ {
        Some(13)
    } else if rank == "A"@ {
        Some(14)
    } else if rank == "2"@ {
        Some(16)
    } else if rank == "BJ"@ || rank == "b"@ {
        Some(17)
    } else if rank == "R"@ || rank == "RJ"@ {
        Some(18)
    } else {
        None
    }
}

/// The value of a card's text.
pub open spec fn value_of(symbol: Seq<char>) -> Option<u32> {
    rank_text_value(suitless(symbol))
}

/// The value of a card's text; none where it shows no rank.
pub fn rank_value(symbol: &str) -> (value: Option<u32>)
    ensures
        value == value_of(symbol@),
        value matches Some(v) ==> 3 <= v <= 18,
{
    let n: usize = symbol.unicode_len();
    let mut from: usize = 0;
    if n > 0 {
        let c = symbol.get_char(0);
        if c == '♠' || c == '♥' || c == '♦' || c == '♣' || c == '🃏' {
            from = 1;
        }
    }
    let rank = symbol.substring_char(from, n);
    assert(rank@ =~= suitless(symbol@));
    rank_text_number(rank)
}

/// The value of a rank's text.
pub fn rank_text_number(rank: &str) -> (value: Option<u32>)
    ensures
        value == rank_text_value(rank@),
        value matches Some(v) ==> (3 <= v <= 14 || 16 <= v <= 18),
{
    if same_text(rank, "3") {
        Some(3)
    } else if same_text(rank, "4") {
        Some(4)
    } else if same_text(rank, "5") {
        Some(5)
    } else if same_text(rank, "6") {
        Some(6)
    } else if same_text(rank, "7") {
        Some(7)
    } else if same_text(rank, "8") {
        Some(8)
    } else if same_text(rank, "9") {
        Some(9)
    } else if same_text(rank, "10") {
        Some(10)
    } else if same_text(rank, "J") {
        Some(11)
    } else if same_text(rank, "Q") {
        Some(12)
    } else if same_text(rank, "K") {
        Some(13)
    } else if same_text(rank, "A") {
        Some(14)
    } else if same_text(rank, "2") {
        Some(16)
    } else if same_text(rank, "BJ") || same_text(rank, "b") {
        Some(17)
    } else if same_text(rank, "R") || same_text(rank, "RJ") {
        Some(18)
    } else {
        None
    }
}

/// The values that the first `n` cards show, those without one left out.
pub open spec fn values_shown(cards: Seq<String>, n: int) -> Seq<u32>
    decreases n,
{
    if n <= 0 {
        Seq::empty()
    } else {
        match value_of(cards[n - 1]@) {
            Some(v) => values_shown(cards, n - 1).push(v),
            None => values_shown(cards, n - 1),
        }
    }
}

/// Nothing but one value.
pub open spec fn all_alike(values: Seq<u32>) -> bool {
    forall|i: int, j: int| 0 <= i < values.len() && 0 <= j < values.len() ==> values[i] == values[j]
}

/// A text that shows a joker.
pub open spec fn valued_as_joker(symbol: Seq<char>) -> bool {
    value_of(symbol) matches Some(v) && v >= 17
}

/// A bomb, roughly: four or more cards that show one value or are all jokers, or two jokers.
pub open spec fn rough_bomb(cards: Seq<String>) -> bool {
    ||| cards.len() >= 4 && all_alike(values_shown(cards, cards.len() as int))
    ||| (cards.len() >= 4 || cards.len() == 2) && forall|i: int|
        0 <= i < cards.len() ==> valued_as_joker((#[trigger] cards[i])@)
}

fn all_jokers_shown(cards: &Vec<String>) -> (b: bool)
    ensures
        b == forall|i: int| 0 <= i < cards@.len() ==> valued_as_joker((#[trigger] cards@[i])@),
{
    for i in 0..cards.len()
        invariant
            forall|k: int| 0 <= k < i ==> valued_as_joker((#[trigger] cards@[k])@),
    {
        let joker = match rank_value(cards[i].as_str()) {
            Some(v) => v >= 17,
            None => false,
        };
        if !joker {
            assert(!valued_as_joker(cards@[i as int]@));
            return false;
        }
    }
    true
}

fn show_values(cards: &Vec<String>) -> (values: Vec<u32>)
    ensures
        values@ == values_shown(cards@, cards@.len() as int),
        values@.len() <= cards@.len(),
        forall|i: int| 0 <= i < values@.len() ==> 3 <= #[trigger] values@[i] <= 18,
{
    let mut values: Vec<u32> = Vec::new();
    for i in 0..cards.len()
        invariant
            values@ == values_shown(cards@, i as int),
            values@.len() <= i,
            forall|k: int| 0 <= k < values@.len() ==> 3 <= #[trigger] values@[k] <= 18,
    {
        if let Some(v) = rank_value(cards[i].as_str()) {
            values.push(v);
        }
    }
    values
}

fn shows_one_value(cards: &Vec<String>) -> (b: bool)
    ensures
        b == all_alike(values_shown(cards@, cards@.len() as int)),
{
    let values = show_values(cards);
    let mut i: usize = 1;
    while i < values.len()
        invariant
            1 <= i,
            values@ == values_shown(cards@, cards@.len() as int),
            forall|k: int| 0 <= k < i && k < values@.len() ==> #[trigger] values@[k] == values@[0],
        decreases values@.len() - i,
    {
        if values[i] != values[0] {
            assert(values@[i as int] != values@[0]);
            return false;
        }
        i = i + 1;
    }
    true
}

/// Whether cards are a bomb, roughly.
pub fn is_rough_bomb(cards: &Vec<String>) -> (b: bool)
    ensures
        b == rough_bomb(cards@),
{
    if cards.len() >= 4 {
        shows_one_value(cards) || all_jokers_shown(cards)
    } else {
        cards.len() == 2 && all_jokers_shown(cards)
    }
}

/// People or bots.
#[derive(Clone, Copy, Debug, PartialEq, Eq, Structural)]
pub enum Side {
    Human,
    Bot,
}

/// Whose side a seat is on, a person's before a bot's.
pub open spec fn side_at(e: GameLogEntry, seat: Seq<char>) -> Option<Side> {
    if texts(e.human_seats@).contains(seat) {
        Some(Side::Human)
    } else if texts(e.bot_seats@).contains(seat) {
        Some(Side::Bot)
    } else {
        None
    }
}

/// Whose side a seat is on.
pub fn side_of(e: &GameLogEntry, seat: &str) -> (side: Option<Side>)
    ensures
        side == side_at(*e, seat@),
{
    if is_listed(&e.human_seats, seat) {
        Some(Side::Human)
    } else if is_listed(&e.bot_seats, seat) {
        Some(Side::Bot)
    } else {
        None
    }
}

/// The part of a hand that an action falls in.
#[derive(Clone, Copy, Debug, PartialEq, Eq, Structural)]
pub enum Stage {
    Early,
    Middle,
    Late,
}

/// The part of a hand of `n` actions that action `i` falls in: thirds of the way to the last.
pub open spec fn stage_at(i: int, n: int) -> Stage {
    let span: int = if n <= 2 {
        1
    } else {
        n - 1
    };
    if 3 * i < span {
        Stage::Early
    } else if 3 * i >= 2 * span {
        Stage::Late
    } else {
        Stage::Middle
    }
}

/// The part of a hand of `n` actions that action `i` falls in.
pub fn stage_of(i: usize, n: usize) -> (stage: Stage)
    ensures
        stage == stage_at(i as int, n as int),
{
    let span: u128 = if n <= 2 {
        1
    } else {
        (n - 1) as u128
    };
    if 3 * (i as u128) < span {
        Stage::Early
    } else if 3 * (i as u128) >= 2 * span {
        Stage::Late
    } else {
        Stage::Middle
    }
}

/// What is noted of a side: the values of single cards, the highest value of each first lead
/// (none where it shows no value), the stage of each bomb, the place of each finish.
#[derive(Debug)]
pub struct SideStat {
    pub single_plays: Vec<u32>,
    pub first_lead_max: Vec<Option<u32>>,
    pub bomb_stages: Vec<Stage>,
    pub finish_ranks: Vec<usize>,
}

/// The highest of some values.
pub open spec fn highest(values: Seq<u32>) -> Option<u32>
    decreases values.len(),
{
    if values.len() == 0 {
        None
    } else {
        match highest(values.drop_last()) {
            Some(v) => if v >= values.last() {
                Some(v)
            } else {
                Some(values.last())
            },
            None => Some(values.last()),
        }
    }
}

fn highest_of(values: &Vec<u32>) -> (top: Option<u32>)
    ensures
        top == highest(values@),
{
    let mut top: Option<u32> = None;
    for i in 0..values.len()
        invariant
            top == highest(values@.take(i as int)),
    {
        proof {
            assert(values@.take(i + 1).drop_last() =~= values@.take(i as int));
        }
        let keep = match top {
            Some(v) => v >= values[i],
            None => false,
        };
        if !keep {
            top = Some(values[i]);
        }
    }
    assert(values@.take(values@.len() as int) =~= values@);
    top
}

/// Places of the first `n` to finish that are on a side.
pub open spec fn places(e: GameLogEntry, side: Side, n: int) -> Seq<usize>
    decreases n,
{
    if n <= 0 {
        Seq::empty()
    } else if side_at(e, e.finishing_order@[n - 1]@) == Some(side) {
        places(e, side, n - 1).push(n as usize)
    } else {
        places(e, side, n - 1)
    }
}

/// A side plays cards in action `i`.
pub open spec fn side_plays(e: GameLogEntry, side: Side, i: int) -> bool {
    plays_at(e, i) && cards_at(e, i) > 0 && side_at(e, e.actions@[i].seat@) == Some(side)
}

/// Values of the single cards that a side plays in the first `n` actions.
pub open spec fn singles_played(e: GameLogEntry, side: Side, n: int) -> Seq<u32>
    decreases n,
{
    if n <= 0 {
        Seq::empty()
    } else {
        let before = singles_played(e, side, n - 1);
        if side_plays(e, side, n - 1) && cards_at(e, n - 1) == 1 {
            match value_of(e.actions@[n - 1].cards->Some_0@[0]@) {
                Some(v) => before.push(v),
                None => before,
            }
        } else {
            before
        }
    }
}

/// Stages of the bombs that a side plays in the first `n` actions.
pub open spec fn bombs_played(e: GameLogEntry, side: Side, n: int) -> Seq<Stage>
    decreases n,
{
    if n <= 0 {
        Seq::empty()
    } else {
        let before = bombs_played(e, side, n - 1);
        if side_plays(e, side, n - 1) && rough_bomb(e.actions@[n - 1].cards->Some_0@) {
            before.push(stage_at(n - 1, e.actions@.len() as int))
        } else {
            before
        }
    }
}

/// The highest value of a side's first lead: where the first action of a hand is its play.
pub open spec fn first_leads(e: GameLogEntry, side: Side) -> Seq<Option<u32>> {
    if e.actions@.len() > 0 && plays_at(e, 0) && e.actions@[0].cards is Some && side_at(
        e,
        e.actions@[0].seat@,
    ) == Some(side) {
        let cards = e.actions@[0].cards->Some_0@;
        seq![highest(values_shown(cards, cards.len() as int))]
    } else {
        Seq::empty()
    }
}

/// The values of the single cards that a side plays in the first `n` hands.
pub open spec fn all_singles(logs: Seq<GameLogEntry>, side: Side, n: int) -> Seq<u32>
    decreases n,
{
    if n <= 0 {
        Seq::empty()
    } else {
        all_singles(logs, side, n - 1) + singles_played(
            logs[n - 1],
            side,
            logs[n - 1].actions@.len() as int,
        )
    }
}

/// The first leads of a side in the first `n` hands.
pub open spec fn all_leads(logs: Seq<GameLogEntry>, side: Side, n: int) -> Seq<Option<u32>>
    decreases n,
{
    if n <= 0 {
        Seq::empty()
    } else {
        all_leads(logs, side, n - 1) + first_leads(logs[n - 1], side)
    }
}

/// The stages of the bombs of a side in the first `n` hands.
pub open spec fn all_bombs(logs: Seq<GameLogEntry>, side: Side, n: int) -> Seq<Stage>
    decreases n,
{
    if n <= 0 {
        Seq::empty()
    } else {
        all_bombs(logs, side, n - 1) + bombs_played(
            logs[n - 1],
            side,
            logs[n - 1].actions@.len() as int,
        )
    }
}

/// The places of a side in the first `n` hands.
pub open spec fn all_places(logs: Seq<GameLogEntry>, side: Side, n: int) -> Seq<usize>
    decreases n,
{
    if n <= 0 {
        Seq::empty()
    } else {
        all_places(logs, side, n - 1) + places(
            logs[n - 1],
            side,
            logs[n - 1].finishing_order@.len() as int,
        )
    }
}

/// What is noted of a side in the first `n` hands.
pub open spec fn notes(s: SideStat, logs: Seq<GameLogEntry>, side: Side, n: int) -> bool {
    &&& s.single_plays@ == all_singles(logs, side, n)
    &&& s.first_lead_max@ == all_leads(logs, side, n)
    &&& s.bomb_stages@ == all_bombs(logs, side, n)
    &&& s.finish_ranks@ == all_places(logs, side, n)
}

fn is_play(e: &GameLogEntry, i: usize) -> (b: bool)
    requires
        i < e.actions@.len(),
    ensures
        b == plays_at(*e, i as int),
{
    same_text(e.actions[i].action_type.as_str(), "play")
}

fn on_side(e: &GameLogEntry, seat: &str, side: Side) -> (b: bool)
    ensures
        b == (side_at(*e, seat@) == Some(side)),
{
    match side_of(e, seat) {
        Some(s) => s == side,
        None => false,
    }
}

fn note_places(s: &mut SideStat, e: &GameLogEntry, side: Side)
    ensures
        final(s).finish_ranks@ == old(s).finish_ranks@ + places(
            *e,
            side,
            e.finishing_order@.len() as int,
        ),
        final(s).single_plays == old(s).single_plays,
        final(s).first_lead_max == old(s).first_lead_max,
        final(s).bomb_stages == old(s).bomb_stages,
{
    let ghost before = s.finish_ranks@;
    let total: usize = e.finishing_order.len();
    for i in 0..total
        invariant
            total == e.finishing_order@.len(),
            s.finish_ranks@ == before + places(*e, side, i as int),
            s.single_plays == old(s).single_plays,
            s.first_lead_max == old(s).first_lead_max,
            s.bomb_stages == old(s).bomb_stages,
    {
        if on_side(e, e.finishing_order[i].as_str(), side) {
            s.finish_ranks.push(i + 1);
        }
        assert(s.finish_ranks@ =~= before + places(*e, side, i + 1));
    }
    assert(before + places(*e, side, total as int) =~= s.finish_ranks@);
}

fn note_first_lead(s: &mut SideStat, e: &GameLogEntry, side: Side)
    ensures
        final(s).first_lead_max@ == old(s).first_lead_max@ + first_leads(*e, side),
        final(s).single_plays == old(s).single_plays,
        final(s).finish_ranks == old(s).finish_ranks,
        final(s).bomb_stages == old(s).bomb_stages,
{
    let ghost before = s.first_lead_max@;
    if e.actions.len() > 0 && is_play(e, 0) && on_side(e, e.actions[0].seat.as_str(), side) {
        if let Some(cards) = &e.actions[0].cards {
            s.first_lead_max.push(highest_of(&show_values(cards)));
        }
    }
    assert(s.first_lead_max@ =~= before + first_leads(*e, side));
}

fn note_plays(s: &mut SideStat, e: &GameLogEntry, side: Side)
    ensures
        final(s).single_plays@ == old(s).single_plays@ + singles_played(
            *e,
            side,
            e.actions@.len() as int,
        ),
        final(s).bomb_stages@ == old(s).bomb_stages@ + bombs_played(
            *e,
            side,
            e.actions@.len() as int,
        ),
        final(s).first_lead_max == old(s).first_lead_max,
        final(s).finish_ranks == old(s).finish_ranks,
{
    let ghost singles = s.single_plays@;
    let ghost bombs = s.bomb_stages@;
    let total: usize = e.actions.len();
    assert(singles + singles_played(*e, side, 0) =~= singles);
    assert(bombs + bombs_played(*e, side, 0) =~= bombs);
    for i in 0..total
        invariant
            total == e.actions@.len(),
            s.single_plays@ == singles + singles_played(*e, side, i as int),
            s.bomb_stages@ == bombs + bombs_played(*e, side, i as int),
            s.first_lead_max == old(s).first_lead_max,
            s.finish_ranks == old(s).finish_ranks,
    {
        if is_play(e, i) && on_side(e, e.actions[i].seat.as_str(), side) {
            if let Some(cards) = &e.actions[i].cards {
                if cards.len() > 0 {
                    if is_rough_bomb(cards) {
                        s.bomb_stages.push(stage_of(i, total));
                    }
                    if cards.len() == 1 {
                        if let Some(v) = rank_value(cards[0].as_str()) {
                            s.single_plays.push(v);
                        }
                    }
                }
            }
        }
        assert(s.single_plays@ =~= singles + singles_played(*e, side, i + 1));
        assert(s.bomb_stages@ =~= bombs + bombs_played(*e, side, i + 1));
    }
}

/// Notes the habits of a side.
pub fn side_stat(logs: &Vec<GameLogEntry>, side: Side) -> (s: SideStat)
    ensures
        notes(s, logs@, side, logs@.len() as int),
{
    let mut s = SideStat {
        single_plays: Vec::new(),
        first_lead_max: Vec::new(),
        bomb_stages: Vec::new(),
        finish_ranks: Vec::new(),
    };
    for i in 0..logs.len()
        invariant
            notes(s, logs@, side, i as int),
    {
        note_places(&mut s, &logs[i], side);
        note_first_lead(&mut s, &logs[i], side);
        note_plays(&mut s, &logs[i], side);
    }
    s
}

/// How much there is to go by.
#[derive(Clone, Copy, Debug, PartialEq, Eq, Structural)]
pub struct Sample {
    pub games: usize,
    pub human_games: usize,
    pub human_seats: u128,
    pub with_params: usize,
}

/// Hands with people among the first `n`.
pub open spec fn human_hands(logs: Seq<GameLogEntry>, n: int) -> nat
    decreases n,
{
    if n <= 0 {
        0
    } else {
        human_hands(logs, n - 1) + if logs[n - 1].human_seats@.len() > 0 {
            1nat
        } else {
            0nat
        }
    }
}

/// People in the first `n` hands.
pub open spec fn people(logs: Seq<GameLogEntry>, n: int) -> nat
    decreases n,
{
    if n <= 0 {
        0
    } else {
        people(logs, n - 1) + logs[n - 1].human_seats@.len()
    }
}

/// Hands logged with the bots' weights among the first `n`.
pub open spec fn weighted(logs: Seq<GameLogEntry>, n: int) -> nat
    decreases n,
{
    if n <= 0 {
        0
    } else {
        weighted(logs, n - 1) + if logs[n - 1].bot_params is Some {
            1nat
        } else {
            0nat
        }
    }
}

/// How much there is to go by.
pub fn sample_of(logs: &Vec<GameLogEntry>) -> (sample: Sample)
    ensures
        sample.games == logs@.len(),
        sample.human_games == human_hands(logs@, logs@.len() as int),
        sample.human_seats == people(logs@, logs@.len() as int),
        sample.with_params == weighted(logs@, logs@.len() as int),
{
    let total: usize = logs.len();
    let mut sample = Sample { games: total, human_games: 0, human_seats: 0, with_params: 0 };
    for i in 0..total
        invariant
            total == logs@.len(),
            sample.games == total,
            sample.human_games == human_hands(logs@, i as int),
            sample.human_games <= i,
            sample.human_seats == people(logs@, i as int),
            sample.human_seats <= i * usize::MAX,
            sample.with_params == weighted(logs@, i as int),
            sample.with_params <= i,
    {
        let seats: usize = logs[i].human_seats.len();
        proof {
            assert(i * usize::MAX + usize::MAX == (i + 1) * usize::MAX) by (nonlinear_arith);
            assert((i + 1) * usize::MAX <= u128::MAX) by (nonlinear_arith)
                requires
                    i < usize::MAX,
                    usize::MAX <= 0xffff_ffff_ffff_ffff,
            ;
        }
        if seats > 0 {
            sample.human_games = sample.human_games + 1;
        }
        sample.human_seats = sample.human_seats + seats as u128;
        if logs[i].bot_params.is_some() {
            sample.with_params = sample.with_params + 1;
        }
    }
    sample
}

/// The sum of the first `n` values.
pub open spec fn sum_of(values: Seq<u32>, n: int) -> nat
    decreases n,
{
    if n <= 0 {
        0
    } else {
        sum_of(values, n - 1) + values[n - 1] as nat
    }
}

/// The average of some values, as their sum and their number; none where there are none.
pub fn average(values: &Vec<u32>) -> (mean: Option<(u128, usize)>)
    ensures
        match mean {
            Some((sum, n)) => n == values@.len() && n > 0 && sum == sum_of(
                values@,
                values@.len() as int,
            ) && sum <= 0xffff_ffff * n,
            None => values@.len() == 0,
        },
{
    if values.len() == 0 {
        return None;
    }
    let total: usize = values.len();
    let mut sum: u128 = 0;
    for i in 0..total
        invariant
            total == values@.len(),
            sum == sum_of(values@, i as int),
            sum <= 0xffff_ffff * i,
    {
        sum = sum + values[i] as u128;
    }
    Some((sum, total))
}

/// One average, given as a sum and a number, is below another.
pub open spec fn below_mean(a: (u128, usize), b: (u128, usize)) -> bool {
    a.0 * b.1 < b.0 * a.1
}

proof fn lemma_below(q1: int, r1: int, b: int, q2: int, r2: int, d: int)
    requires
        0 <= r1 < b,
        0 <= r2 < d,
        0 <= q1,
        0 <= q2,
    ensures
        ((q1 * b + r1) * d < (q2 * d + r2) * b) == (q1 < q2 || (q1 == q2 && r1 * d < r2 * b)),
{
    let x = (q1 * b + r1) * d;
    let y = (q2 * d + r2) * b;
    let bd = b * d;
    assert(x == q1 * bd + r1 * d && y == q2 * bd + r2 * b) by (nonlinear_arith)
        requires
            x == (q1 * b + r1) * d,
            y == (q2 * d + r2) * b,
            bd == b * d,
    ;
    assert(0 <= r1 * d < bd && 0 <= r2 * b < bd) by (nonlinear_arith)
        requires
            0 <= r1 < b,
            0 <= r2 < d,
            bd == b * d,
    ;
    if q1 < q2 {
        assert(q1 * bd + bd <= q2 * bd) by (nonlinear_arith)
            requires
                q1 + 1 <= q2,
                bd > 0,
        ;
    } else if q1 > q2 {
        assert(q2 * bd + bd <= q1 * bd) by (nonlinear_arith)
            requires
                q2 + 1 <= q1,
                bd > 0,
        ;
    }
}

/// Whether one average is below another.
pub fn mean_below(a: (u128, usize), b: (u128, usize)) -> (is_below: bool)
    requires
        a.1 > 0,
        b.1 > 0,
    ensures
        is_below == below_mean(a, b),
{
    let (m, n): (u128, u128) = (a.1 as u128, b.1 as u128);
    let (q1, r1): (u128, u128) = (a.0 / m, a.0 % m);
    let (q2, r2): (u128, u128) = (b.0 / n, b.0 % n);
    proof {
        lemma_below(q1 as int, r1 as int, m as int, q2 as int, r2 as int, n as int);
        vstd::arithmetic::div_mod::lemma_fundamental_div_mod(a.0 as int, m as int);
        vstd::arithmetic::div_mod::lemma_fundamental_div_mod(b.0 as int, n as int);
        assert(m * q1 == q1 * m && n * q2 == q2 * n) by (nonlinear_arith);
        assert(0 <= r1 * n < 0x1_0000_0000_0000_0000 * 0x1_0000_0000_0000_0000) by (nonlinear_arith)
            requires
                0 <= r1 < 0x1_0000_0000_0000_0000,
                0 <= n < 0x1_0000_0000_0000_0000,
        ;
        assert(0 <= r2 * m < 0x1_0000_0000_0000_0000 * 0x1_0000_0000_0000_0000) by (nonlinear_arith)
            requires
                0 <= r2 < 0x1_0000_0000_0000_0000,
                0 <= m < 0x1_0000_0000_0000_0000,
        ;
    }
    q1 < q2 || (q1 == q2 && r1 * n < r2 * m)
}

/// The values of first leads where every one shows a value; none otherwise.
pub open spec fn lead_values(list: Seq<Option<u32>>, n: int) -> Option<Seq<u32>>
    decreases n,
{
    if n <= 0 {
        Some(Seq::empty())
    } else {
        match (lead_values(list, n - 1), list[n - 1]) {
            (Some(values), Some(v)) => Some(values.push(v)),
            _ => None,
        }
    }
}

fn read_lead_values(list: &Vec<Option<u32>>) -> (values: Option<Vec<u32>>)
    ensures
        match values {
            Some(v) => lead_values(list@, list@.len() as int) == Some(v@),
            None => lead_values(list@, list@.len() as int) is None,
        },
{
    let mut values: Vec<u32> = Vec::new();
    for i in 0..list.len()
        invariant
            lead_values(list@, i as int) == Some(values@),
    {
        match list[i] {
            Some(v) => {
                values.push(v);
            },
            None => {
                proof {
                    lemma_no_values(list@, i + 1, list@.len() as int);
                }
                return None;
            },
        }
    }
    Some(values)
}

proof fn lemma_no_values(list: Seq<Option<u32>>, i: int, n: int)
    requires
        0 <= i <= n,
        lead_values(list, i) is None,
    ensures
        lead_values(list, n) is None,
    decreases n,
{
    if i < n {
        lemma_no_values(list, i, n - 1);
    }
}

/// The habits of people and of bots, and what follows for the weights.
#[derive(Debug)]
pub struct HabitReport {
    pub sample: Sample,
    pub human: SideStat,
    pub bot: SideStat,
    /// People's single cards are lower than the bots' by more than one on average.
    pub humans_play_lower: bool,
    /// People's first leads are higher than the bots' on average.
    pub humans_lead_higher: bool,
}

/// The sum and the number of some values.
pub open spec fn mean_of(values: Seq<u32>) -> (int, int) {
    (sum_of(values, values.len() as int) as int, values.len() as int)
}

/// People's single cards are lower by more than one on average.
pub open spec fn plays_lower(human: Seq<u32>, bot: Seq<u32>) -> bool {
    let (h, m) = mean_of(human);
    let (b, n) = mean_of(bot);
    human.len() > 0 && bot.len() > 0 && (h + m) * n < b * m
}

/// How many of the first `n` leads show no value.
pub open spec fn blank_leads(list: Seq<Option<u32>>, n: int) -> nat
    decreases n,
{
    if n <= 0 {
        0
    } else if list[n - 1] is None {
        blank_leads(list, n - 1) + 1
    } else {
        blank_leads(list, n - 1)
    }
}

/// People's first leads are higher on average. A lead without a value counts as the lowest number
/// of single precision: one of them outweighs all other leads of its side, so that the longer list
/// has the higher mean; two of them sum up to below everything.
pub open spec fn leads_higher(human: Seq<Option<u32>>, bot: Seq<Option<u32>>) -> bool {
    let x = blank_leads(human, human.len() as int);
    let y = blank_leads(bot, bot.len() as int);
    human.len() > 0 && bot.len() > 0 && match (
        lead_values(human, human.len() as int),
        lead_values(bot, bot.len() as int),
    ) {
        (Some(v), Some(w)) => mean_of(w).0 * mean_of(v).1 < mean_of(v).0 * mean_of(w).1,
        _ => x <= 1 && (y >= 2 || y > x || (x == 1 && y == 1 && human.len() > bot.len())),
    }
}

fn count_blank_leads(list: &Vec<Option<u32>>) -> (n: usize)
    ensures
        n == blank_leads(list@, list@.len() as int),
{
    let mut n: usize = 0;
    for i in 0..list.len()
        invariant
            n == blank_leads(list@, i as int),
            n <= i,
    {
        if list[i].is_none() {
            n = n + 1;
        }
    }
    n
}

fn find_plays_lower(human: &Vec<u32>, bot: &Vec<u32>) -> (b: bool)
    ensures
        b == plays_lower(human@, bot@),
{
    match (average(human), average(bot)) {
        (Some((h, m)), Some((s, n))) => {
            proof {
                assert(0xffff_ffff * m <= 0xffff_ffff * 0xffff_ffff_ffff_ffff) by (nonlinear_arith)
                    requires
                        m <= 0xffff_ffff_ffff_ffff,
                ;
            }
            mean_below((h + m as u128, m), (s, n))
        },
        _ => false,
    }
}

fn find_leads_higher(human: &Vec<Option<u32>>, bot: &Vec<Option<u32>>) -> (b: bool)
    ensures
        b == leads_higher(human@, bot@),
{
    if human.len() == 0 || bot.len() == 0 {
        return false;
    }
    match (read_lead_values(human), read_lead_values(bot)) {
        (Some(x), Some(y)) => {
            proof {
                lemma_value_count(human@, human@.len() as int);
                lemma_value_count(bot@, bot@.len() as int);
            }
            match (average(&x), average(&y)) {
                (Some(h), Some(s)) => mean_below(s, h),
                _ => false,
            }
        },
        _ => {
            let h: usize = count_blank_leads(human);
            let s: usize = count_blank_leads(bot);
            h <= 1 && (s >= 2 || s > h || (h == 1 && s == 1 && human.len() > bot.len()))
        },
    }
}

proof fn lemma_value_count(list: Seq<Option<u32>>, n: int)
    requires
        0 <= n,
    ensures
        lead_values(list, n) matches Some(v) ==> v.len() == n,
    decreases n,
{
    if n > 0 {
        lemma_value_count(list, n - 1);
    }
}

/// Compares the habits of people and of bots; none where nothing is logged.
pub fn habit_report(logs: &Vec<GameLogEntry>) -> (report: Option<HabitReport>)
    ensures
        match report {
            None => logs@.len() == 0,
            Some(r) => {
                let n = logs@.len() as int;
                &&& n > 0
                &&& r.sample.games == n
                &&& r.sample.human_games == human_hands(logs@, n)
                &&& r.sample.human_seats == people(logs@, n)
                &&& r.sample.with_params == weighted(logs@, n)
                &&& notes(r.human, logs@, Side::Human, n)
                &&& notes(r.bot, logs@, Side::Bot, n)
                &&& r.humans_play_lower == plays_lower(
                    r.human.single_plays@,
                    r.bot.single_plays@,
                )
                &&& r.humans_lead_higher == leads_higher(
                    r.human.first_lead_max@,
                    r.bot.first_lead_max@,
                )
            },
        },
{
    if logs.len() == 0 {
        return None;
    }
    let human = side_stat(logs, Side::Human);
    let bot = side_stat(logs, Side::Bot);
    Some(
        HabitReport {
            sample: sample_of(logs),
            humans_play_lower: find_plays_lower(&human.single_plays, &bot.single_plays),
            humans_lead_higher: find_leads_higher(&human.first_lead_max, &bot.first_lead_max),
            human,
            bot,
        },
    )
}

/// People play lower where their single cards are lower by more than one on average: raised by one
/// each they still are lower. Never do both sides play lower, and a side without single cards is
/// not compared.
pub proof fn sides_do_not_both_play_lower(human: Seq<u32>, bot: Seq<u32>)
    ensures
        plays_lower(human, bot) ==> !plays_lower(bot, human),
        human.len() == 0 || bot.len() == 0 ==> !plays_lower(human, bot),
        plays_lower(human, bot) ==> sum_of(human, human.len() as int) * bot.len() < sum_of(
            bot,
            bot.len() as int,
        ) * human.len(),
        plays_lower(human, bot) ==> (sum_of(human, human.len() as int) + human.len()) * bot.len()
            < sum_of(bot, bot.len() as int) * human.len(),
        !plays_lower(human, human),
{
    let h = sum_of(human, human.len() as int) as int;
    let b = sum_of(bot, bot.len() as int) as int;
    let m = human.len() as int;
    let n = bot.len() as int;
    assert((h + m) * n == h * n + m * n && (b + n) * m == b * m + n * m && m * n == n * m
        && (h + m) * m == h * m + m * m) by (nonlinear_arith);
    assert(m * n >= 0 && m * m >= 0) by (nonlinear_arith)
        requires
            m >= 0,
            n >= 0,
    ;
    assert(m > 0 && n > 0 ==> m * n > 0) by (nonlinear_arith);
}

/// Never do both sides lead higher, and no side leads higher than itself.
pub proof fn sides_do_not_both_lead_higher(human: Seq<Option<u32>>, bot: Seq<Option<u32>>)
    ensures
        leads_higher(human, bot) ==> !leads_higher(bot, human),
        !leads_higher(human, human),
        human.len() == 0 || bot.len() == 0 ==> !leads_higher(human, bot),
{
}

/// The parts of a hand follow each other, the first action is early and the last one of three or
/// more is late.
pub proof fn stages_follow_each_other(i: int, j: int, n: int)
    requires
        0 <= i <= j < n,
    ensures
        n >= 2 ==> stage_at(0, n) == Stage::Early,
        n >= 3 ==> stage_at(n - 1, n) == Stage::Late,
        stage_at(i, n) == Stage::Late ==> stage_at(j, n) == Stage::Late,
        stage_at(j, n) == Stage::Early ==> stage_at(i, n) == Stage::Early,
        n == 4 ==> stage_at(1, n) == Stage::Middle,
{
}

/// The highest of some values is one of them, and none is above it.
pub proof fn highest_is_one_of_them(values: Seq<u32>)
    ensures
        match highest(values) {
            Some(v) => values.contains(v) && forall|i: int|
                0 <= i < values.len() ==> #[trigger] values[i] <= v,
            None => values.len() == 0,
        },
    decreases values.len(),
{
    if values.len() > 0 {
        let front = values.drop_last();
        highest_is_one_of_them(front);
        assert(values[values.len() - 1] == values.last());
        if let Some(v) = highest(front) {
            let k = choose|k: int| 0 <= k < front.len() && front[k] == v;
            assert(values[k] == v);
        }
        assert forall|i: int| 0 <= i < values.len() implies #[trigger] values[i]
            <= highest(values)->Some_0 by {
            if i < front.len() {
                assert(front[i] == values[i]);
            }
        }
    }
}

proof fn lemma_places(e: GameLogEntry, side: Side, n: int, place: usize)
    requires
        0 <= n <= e.finishing_order@.len(),
        n <= usize::MAX,
    ensures
        places(e, side, n).contains(place) <==> 1 <= place <= n && side_at(
            e,
            e.finishing_order@[place - 1]@,
        ) == Some(side),
    decreases n,
{
    if n > 0 {
        lemma_places(e, side, n - 1, place);
        let before = places(e, side, n - 1);
        let after = places(e, side, n);
        if before.contains(place) {
            let k = choose|k: int| 0 <= k < before.len() && before[k] == place;
            assert(after[k] == place);
        }
        if side_at(e, e.finishing_order@[n - 1]@) == Some(side) {
            assert(after[after.len() - 1] == n as usize);
            if after.contains(place) && place != n {
                let k = choose|k: int| 0 <= k < after.len() && after[k] == place;
                assert(before[k] == place);
            }
        }
    }
}

/// A place in the finishing order is noted for a side exactly where the seat at that place is the
/// side's; places count from one, and a seat with a person is never a bot's.
pub proof fn finishing_places_are_noted(e: GameLogEntry, side: Side, place: usize)
    requires
        e.finishing_order@.len() <= usize::MAX,
    ensures
        places(e, side, e.finishing_order@.len() as int).contains(place) <==> 1 <= place
            <= e.finishing_order@.len() && side_at(e, e.finishing_order@[place - 1]@) == Some(side),
        forall|seat: Seq<char>|
            texts(e.human_seats@).contains(seat) ==> #[trigger] side_at(e, seat) == Some(
                Side::Human,
            ),
        forall|seat: Seq<char>|
            !texts(e.human_seats@).contains(seat) && !texts(e.bot_seats@).contains(seat)
                ==> #[trigger] side_at(e, seat) is None,
{
    lemma_places(e, side, e.finishing_order@.len() as int, place);
}

/// Four or more cards of one value are roughly a bomb, and so are four or more jokers or two; one
/// card, three cards and two that are not both jokers are none.
pub proof fn rough_bombs_are_alike(cards: Seq<String>)
    ensures
        cards.len() == 0 || cards.len() == 1 || cards.len() == 3 ==> (rough_bomb(cards) <==> false),
        cards.len() == 2 ==> (rough_bomb(cards) <==> (value_of(cards[0]@) matches Some(v) && v >= 17)
            && (value_of(cards[1]@) matches Some(v) && v >= 17)),
        cards.len() >= 4 && (forall|i: int|
            0 <= i < cards.len() ==> (value_of((#[trigger] cards[i])@) matches Some(v) && v >= 17))
            ==> rough_bomb(cards),
{
    if cards.len() == 2 {
        if rough_bomb(cards) {
            assert(valued_as_joker(cards[0]@) && valued_as_joker(cards[1]@));
        }
    }
    if forall|i: int|
        0 <= i < cards.len() ==> (value_of((#[trigger] cards[i])@) matches Some(v) && v >= 17) {
        assert forall|i: int| 0 <= i < cards.len() implies valued_as_joker(
            (#[trigger] cards[i])@,
        ) by {
            assert(value_of(cards[i]@) is Some);
        }
    }
}

} // verus!
