//! How a table goes on: actions, timeouts, the end of a hand and the start of the next.

use vstd::prelude::*;
use vstd::string::*;
use crate::cards::{
    RuleContext, card_named, is_wild, level_order_value, level_step, level_text, not_a_card,
    parse_card_symbol, rank_order, read_card, wild,
};
use crate::domain::{PerSeat, Seat, TeamId, partner_of, seat_at, team_of};
use crate::game_types::{
    Action, GamePhase, HandState, PlayerAction, TableGameState, TributePair, exchange_actor,
    tribute_actor,
};
use crate::movegen::{held_by, owed_by};
use crate::narration::{
    Bilingual, ace_note, format_game_end_by_leave, format_game_end_champion, format_hand_end,
    format_hand_open, format_hand_open_with_tribute_canceled, game_end_by_leave, game_end_champion,
    hand_end, hand_open, hand_open_untaxed, speaks,
};
use crate::scoring::{
    HandOutcome, Level, TeamProgress, WinType, apply_hand_house_rules, choose_team, house_applied,
};
use crate::table::{
    AppError, PlayerPresence, PlayerRecord, PlayerType, Refusal, TableRuntimeState, TableStatus,
    bad_status, everyone_ready, name_at, same_game, seat_held, start_of, status_conflict, with_away,
    with_ready,
};
use crate::tally::copy_all;
use crate::text::{decimal, push_decimal, texts};

verus! {

/// How long a bot may take for its turn, in milliseconds.
pub const BOT_TURN_TIMEOUT: u64 = 30_000;

/// How long a player may keep silent, in milliseconds.
pub const PLAYER_INACTIVITY_TIMEOUT: u64 = 1_800_000;

/// How long a championship is shown, in milliseconds.
pub const CHAMPION_PAUSE: u64 = 12_000;

/// A finishing order with the seats from the `i`-th on that it lacks at its end.
pub open spec fn completed(order: Seq<Seat>, i: int) -> Seq<Seat>
    decreases 4 - i,
{
    if i >= 4 {
        order
    } else if order.contains(seat_at(i)) {
        completed(order, i + 1)
    } else {
        completed(order.push(seat_at(i)), i + 1)
    }
}

/// A completed order extends the given one, has every seat, and has none twice unless the
/// given one does.
pub proof fn completed_order_is_full(order: Seq<Seat>, seat: Seat)
    ensures
        completed(order, 0).len() >= order.len(),
        completed(order, 0).take(order.len() as int) == order,
        completed(order, 0).contains(seat),
        order.no_duplicates() ==> completed(order, 0).no_duplicates() && completed(order, 0).len()
            == 4,
{
    lemma_completed(order, 0);
    let all = completed(order, 0);
    assert(all.contains(seat_at(0)) && all.contains(seat_at(1)) && all.contains(seat_at(2))
        && all.contains(seat_at(3)));
    assert(all.take(order.len() as int) =~= order);
    if order.no_duplicates() {
        lemma_four_seats(all);
    }
}

proof fn lemma_completed(order: Seq<Seat>, i: int)
    requires
        0 <= i <= 4,
    ensures
        completed(order, i).len() >= order.len(),
        forall|k: int| 0 <= k < order.len() ==> #[trigger] completed(order, i)[k] == order[k],
        forall|j: int| i <= j < 4 ==> completed(order, i).contains(#[trigger] seat_at(j)),
        order.no_duplicates() ==> completed(order, i).no_duplicates(),
    decreases 4 - i,
{
    if i < 4 {
        let next = if order.contains(seat_at(i)) {
            order
        } else {
            order.push(seat_at(i))
        };
        lemma_completed(next, i + 1);
        let all = completed(order, i);
        assert(all == completed(next, i + 1));
        assert forall|k: int| 0 <= k < order.len() implies #[trigger] all[k] == order[k] by {
            assert(all[k] == next[k]);
        }
        assert(all.contains(seat_at(i))) by {
            let k = if order.contains(seat_at(i)) {
                order.index_of(seat_at(i))
            } else {
                order.len() as int
            };
            assert(next[k] == seat_at(i));
            assert(all[k] == next[k]);
        }
    }
}

/// Seats without repetition that include all four are exactly four.
proof fn lemma_four_seats(all: Seq<Seat>)
    requires
        all.no_duplicates(),
        all.contains(Seat::E),
        all.contains(Seat::S),
        all.contains(Seat::W),
        all.contains(Seat::N),
    ensures
        all.len() == 4,
{
    let e = all.index_of(Seat::E);
    let s = all.index_of(Seat::S);
    let w = all.index_of(Seat::W);
    let n = all.index_of(Seat::N);
    if all.len() > 4 {
        assert(all[0] != all[1] && all[0] != all[2] && all[0] != all[3] && all[0] != all[4]);
        assert(all[1] != all[2] && all[1] != all[3] && all[1] != all[4]);
        assert(all[2] != all[3] && all[2] != all[4] && all[3] != all[4]);
    }
    assert(e != s && e != w && e != n && s != w && s != n && w != n);
}

fn lists_seat(order: &Vec<Seat>, seat: Seat) -> (b: bool)
    ensures
        b == order@.contains(seat),
{
    for i in 0..order.len()
        invariant
            forall|j: int| 0 <= j < i ==> #[trigger] order@[j] != seat,
    {
        if order[i] == seat {
            return true;
        }
    }
    false
}

/// A finishing order with the seats that it lacks at its end.
pub fn complete_finishing_order(order: &Vec<Seat>) -> (all: Vec<Seat>)
    ensures
        all@ == completed(order@, 0),
{
    let mut all = copy_all(order.as_slice());
    let seats = Seat::all();
    let mut i: usize = 0;
    while i < 4
        invariant
            i <= 4,
            forall|i: int| 0 <= i < 4 ==> #[trigger] seats@[i] == seat_at(i),
            completed(all@, i as int) == completed(order@, 0),
        decreases 4 - i,
    {
        assert(seats@[i as int] == seat_at(i as int));
        let seat = seats[i];
        if !lists_seat(&all, seat) {
            all.push(seat);
        }
        i = i + 1;
    }
    all
}

/// How a team has won, by the finishing order.
pub open spec fn win_of(order: Seq<Seat>, winner: TeamId) -> WinType {
    if order.len() >= 2 && team_of(order[0]) == winner && team_of(order[1]) == winner {
        WinType::OneTwo
    } else if order.len() >= 3 && team_of(order[0]) == winner && team_of(order[2]) == winner {
        WinType::OneThree
    } else {
        WinType::OneFour
    }
}

/// How a team has won, by the finishing order.
pub fn infer_win_type(order: &Vec<Seat>, winner: TeamId) -> (win: WinType)
    ensures
        win == win_of(order@, winner),
{
    if order.len() >= 2 && order[0].team() == winner && order[1].team() == winner {
        return WinType::OneTwo;
    }
    if order.len() >= 3 && order[0].team() == winner && order[2].team() == winner {
        return WinType::OneThree;
    }
    WinType::OneFour
}

/// The names at a list of seats.
pub open spec fn names_of(seats: PerSeat<PlayerRecord>, order: Seq<Seat>) -> Seq<Seq<char>> {
    order.map_values(|s: Seat| name_at(seats, s))
}

fn finish_names(state: &TableRuntimeState, order: &Vec<Seat>) -> (names: Vec<String>)
    ensures
        texts(names@) == names_of(state.seats, order@),
{
    let mut names: Vec<String> = Vec::new();
    for i in 0..order.len()
        invariant
            texts(names@) =~= names_of(state.seats, order@.take(i as int)),
    {
        let ghost done = names@;
        let name = state.player_name_for_seat(order[i]);
        names.push(name);
        assert(texts(names@) =~= texts(done).push(name@));
        assert(names_of(state.seats, order@.take(i + 1)) =~= names_of(
            state.seats,
            order@.take(i as int),
        ).push(name@));
    }
    assert(order@.take(order@.len() as int) =~= order@);
    names
}

/// Failures at the ace of a team that still is there.
pub open spec fn ace_fails(p: TeamProgress) -> nat {
    if p.level == Level::A {
        p.ace_failed_attempts as nat
    } else {
        0
    }
}

fn count_ace_fails(p: TeamProgress) -> (n: u32)
    ensures
        n == ace_fails(p),
{
    if p.level == Level::A {
        p.ace_failed_attempts
    } else {
        0
    }
}

/// The result of a hand.
#[derive(Debug)]
pub struct Settlement {
    pub winner: TeamId,
    pub order: Vec<Seat>,
    pub championship: Option<TeamId>,
    pub demoted_from_a: bool,
}

/// A hand is over and has not been settled.
pub open spec fn to_settle(state: TableRuntimeState) -> bool {
    &&& state.status == TableStatus::InGame
    &&& !state.waiting_next_hand_ready
    &&& state.game matches Some(game) && game.phase == GamePhase::Scoring
}

/// Why a hand cannot be settled, if so.
pub open spec fn settle_refusal(state: TableRuntimeState) -> Option<Refusal> {
    match state.game {
        Some(game) => if game.winner_team is None {
            Some(bad_status("winner team missing when entering scoring"@, state.seq))
        } else if game.hand is None {
            Some(bad_status("hand missing when entering scoring"@, state.seq))
        } else {
            None
        },
        None => None,
    }
}

/// What is announced at the end of a hand.
pub open spec fn settled_news(seats: PerSeat<PlayerRecord>, order: Seq<Seat>, out: HandOutcome) -> Bilingual {
    let names = names_of(seats, order);
    let ew = level_text(out.progress_ew.level);
    let sn = level_text(out.progress_sn.level);
    match out.game_winner_team_id {
        Some(champion) => game_end_champion(champion, names, ew, sn),
        None => hand_end(
            names,
            ew,
            sn,
            true,
            false,
            None,
            ace_note(
                out.demoted_from_a,
                out.declarer_team_id,
                ace_fails(out.progress_ew),
                ace_fails(out.progress_sn),
            ),
        ),
    }
}

/// A table after a hand was settled: the teams have moved, nobody is ready, and a champion
/// is shown for a while before a new game starts.
pub open spec fn settled(
    a: TableRuntimeState,
    b: TableRuntimeState,
    order: Seq<Seat>,
    out: HandOutcome,
    now: u64,
) -> bool {
    &&& b.team_progress_ew == out.progress_ew
    &&& b.team_progress_sn == out.progress_sn
    &&& b.current_declarer == out.next_declarer
    &&& b.last_finishing_order@ == order
    &&& forall|seat: Seat| #[trigger] b.seats.at(seat) == with_ready(a.seats.at(seat), false)
    &&& b.status == TableStatus::InGame
    &&& b.waiting_next_hand_ready
    &&& speaks(b.narration@, settled_news(a.seats, order, out))
    &&& b.seq == a.seq + 1
    &&& b.table_id == a.table_id
    &&& b.game == a.game
    &&& b.bot_turn_started_at == a.bot_turn_started_at
    &&& match out.game_winner_team_id {
        Some(champion) => {
            &&& b.game_winner_team_id == Some(champion)
            &&& b.rematch_from_level2 == Some(champion)
            &&& b.champ_pause_until == Some((now + CHAMPION_PAUSE) as u64)
        },
        None => {
            &&& b.game_winner_team_id == a.game_winner_team_id
            &&& b.rematch_from_level2 == a.rematch_from_level2
            &&& b.champ_pause_until == a.champ_pause_until
        },
    }
}

/// The outcome of the hand of a table.
pub open spec fn outcome_at(state: TableRuntimeState) -> HandOutcome {
    let game = state.game->Some_0;
    let winner = game.winner_team->Some_0;
    let order = completed(game.hand->Some_0.finishing_order@, 0);
    house_applied(
        state.team_progress_ew,
        state.team_progress_sn,
        state.current_declarer,
        winner,
        win_of(order, winner),
    )
}

/// Settles a hand that is over.
pub fn settle_scoring_and_wait_ready(state: &mut TableRuntimeState, now: u64) -> (done: Result<
    Option<Settlement>,
    AppError,
>)
    requires
        old(state).seq < u64::MAX,
        now + CHAMPION_PAUSE <= u64::MAX,
        old(state).team_progress_ew.ace_failed_attempts < u32::MAX,
        old(state).team_progress_sn.ace_failed_attempts < u32::MAX,
    ensures
        match done {
            Ok(None) => !to_settle(*old(state)) && *final(state) == *old(state),
            Err(e) => to_settle(*old(state)) && settle_refusal(*old(state)) == Some(e@)
                && *final(state) == *old(state),
            Ok(Some(s)) => {
                let game = old(state).game->Some_0;
                let order = completed(game.hand->Some_0.finishing_order@, 0);
                let out = outcome_at(*old(state));
                &&& to_settle(*old(state))
                &&& settle_refusal(*old(state)) is None
                &&& s.winner == game.winner_team->Some_0
                &&& s.order@ == order
                &&& s.championship == out.game_winner_team_id
                &&& s.demoted_from_a == out.demoted_from_a
                &&& settled(*old(state), *final(state), order, out, now)
            },
        },
{
    if state.status != TableStatus::InGame || state.waiting_next_hand_ready {
        return Ok(None);
    }
    let (winner, order) = match &state.game {
        None => {
            return Ok(None);
        },
        Some(game) => {
            if game.phase != GamePhase::Scoring {
                return Ok(None);
            }
            let winner = match game.winner_team {
                Some(w) => w,
                None => {
                    return Err(
                        status_conflict("winner team missing when entering scoring", state.seq),
                    );
                },
            };
            match &game.hand {
                Some(hand) => (winner, complete_finishing_order(&hand.finishing_order)),
                None => {
                    return Err(status_conflict("hand missing when entering scoring", state.seq));
                },
            }
        },
    };
    let win_type = infer_win_type(&order, winner);
    let out = apply_hand_house_rules(
        state.team_progress_ew,
        state.team_progress_sn,
        state.current_declarer,
        winner,
        win_type,
    );
    let names = finish_names(state, &order);
    let ew_level = out.progress_ew.level.as_api_str();
    let sn_level = out.progress_sn.level.as_api_str();
    state.reset_all_players_ready();
    state.team_progress_ew = out.progress_ew;
    state.team_progress_sn = out.progress_sn;
    state.current_declarer = out.next_declarer;
    state.last_finishing_order = copy_all(order.as_slice());
    state.waiting_next_hand_ready = true;
    match out.game_winner_team_id {
        Some(champion) => {
            state.game_winner_team_id = Some(champion);
            state.rematch_from_level2 = Some(champion);
            state.champ_pause_until = Some(now + CHAMPION_PAUSE);
            state.narration = format_game_end_champion(
                champion,
                names.as_slice(),
                ew_level,
                sn_level,
            );
        },
        None => {
            state.narration = format_hand_end(
                names.as_slice(),
                ew_level,
                sn_level,
                true,
                false,
                None,
                out.demoted_from_a,
                out.declarer_team_id,
                count_ace_fails(out.progress_ew),
                count_ace_fails(out.progress_sn),
            );
        },
    }
    state.seq = state.seq + 1;
    Ok(
        Some(
            Settlement {
                winner,
                order,
                championship: out.game_winner_team_id,
                demoted_from_a: out.demoted_from_a,
            },
        ),
    )
}

/// Whose move it is while cards are played or exchanged.
pub open spec fn mover(state: TableRuntimeState) -> Option<Seat> {
    match state.game {
        None => None,
        Some(game) => match game.phase {
            GamePhase::Playing => Some(game.turn_seat),
            GamePhase::Tribute => match game.hand {
                Some(hand) => tribute_actor(hand),
                None => None,
            },
            GamePhase::Exchange => match game.hand {
                Some(hand) => exchange_actor(hand),
                None => None,
            },
            _ => None,
        },
    }
}

/// The player whose move it is, in a game that runs.
pub open spec fn moving_player(state: TableRuntimeState) -> Option<PlayerRecord> {
    if state.status != TableStatus::InGame {
        None
    } else {
        match mover(state) {
            Some(seat) => state.seats.at(seat),
            None => None,
        }
    }
}

/// A bot whose move it is has used up its time.
pub open spec fn bot_overdue(state: TableRuntimeState, now: u64) -> bool {
    &&& moving_player(state) matches Some(p) && p.player_type == PlayerType::Bot
    &&& state.bot_turn_started_at matches Some(start) && now > start + BOT_TURN_TIMEOUT
}

/// The clock for bots after a look at it.
pub open spec fn bot_clock(state: TableRuntimeState, now: u64) -> Option<u64> {
    match moving_player(state) {
        None => state.bot_turn_started_at,
        Some(p) => if p.player_type != PlayerType::Bot || bot_overdue(state, now) {
            None
        } else {
            match state.bot_turn_started_at {
                Some(start) => Some(start),
                None => Some(now),
            }
        },
    }
}

/// The last of the highest cards, wild ones excepted, among the first `n`.
pub open spec fn last_highest(hand: Seq<String>, ctx: RuleContext, n: int) -> Option<int>
    decreases n,
{
    if n <= 0 {
        None
    } else {
        let before = last_highest(hand, ctx, n - 1);
        match card_named(hand[n - 1]@) {
            Some(card) => if wild(card, ctx) {
                before
            } else {
                match before {
                    Some(i) => if rank_order(card.rank, ctx) >= rank_order(
                        card_named(hand[i]@)->Some_0.rank,
                        ctx,
                    ) {
                        Some(n - 1)
                    } else {
                        before
                    },
                    None => Some(n - 1),
                }
            },
            None => before,
        }
    }
}

/// The first card from place `i` on, wild ones excepted, of another order than the one that
/// was paid; the first card of all where there is none.
pub open spec fn first_other(hand: Seq<String>, ctx: RuleContext, paid: int, i: int) -> int
    decreases hand.len() - i,
{
    if i < 0 || i >= hand.len() {
        0
    } else {
        match card_named(hand[i]@) {
            Some(card) => if !wild(card, ctx) && rank_order(card.rank, ctx) != paid {
                i
            } else {
                first_other(hand, ctx, paid, i + 1)
            },
            None => first_other(hand, ctx, paid, i + 1),
        }
    }
}

/// What a bot returns when its time is up.
pub open spec fn overdue_return(hand: HandState, seat: Seat, seq: u64) -> Result<Action, Refusal> {
    match hand.tribute {
        None => Err(bad_status("tribute plan not found"@, seq)),
        Some(t) => match owed_by(t.pairs@, seat, 0) {
            None => Err(bad_status("player is not expected to return card"@, seq)),
            Some(i) => match t.pairs@[i].paid_card {
                None => Err(bad_status("tribute not yet paid"@, seq)),
                Some(paid) => match card_named(paid@) {
                    None => Err(
                        Refusal::BadRequest("invalid paid_card symbol: "@ + not_a_card(paid@)),
                    ),
                    Some(card) => match held_by(hand, seat) {
                        None => Err(bad_status("actor seat missing from hand"@, seq)),
                        Some(held) => {
                            let ctx = RuleContext { hand_level: hand.hand_level };
                            let at = first_other(held, ctx, rank_order(card.rank, ctx), 0);
                            Ok(Action::ReturnCard { card: held[at]@ })
                        },
                    },
                },
            },
        },
    }
}

/// What a bot does when its time is up: it pays the highest card, returns the first that may
/// be returned, or passes.
pub open spec fn overdue_action(game: TableGameState, seat: Seat, seq: u64) -> Result<Action, Refusal> {
    match game.phase {
        GamePhase::Tribute => match game.hand {
            None => Err(bad_status("hand state not initialized"@, seq)),
            Some(hand) => match held_by(hand, seat) {
                None => Err(bad_status("actor seat missing from hand"@, seq)),
                Some(held) => match last_highest(
                    held,
                    RuleContext { hand_level: hand.hand_level },
                    held.len() as int,
                ) {
                    Some(i) => Ok(Action::Tribute { card: held[i]@ }),
                    None => Err(Refusal::BadRequest("no valid tribute card in bot hand"@)),
                },
            },
        },
        GamePhase::Exchange => match game.hand {
            None => Err(bad_status("hand state not initialized"@, seq)),
            Some(hand) => overdue_return(hand, seat, seq),
        },
        _ => Ok(Action::Pass),
    }
}

/// Where a card has to be returned from a seat's hand, there is one in it.
pub open spec fn has_return(hand: HandState, seat: Seat) -> bool {
    match hand.tribute {
        None => true,
        Some(t) => match owed_by(t.pairs@, seat, 0) {
            None => true,
            Some(i) => match (t.pairs@[i].paid_card, held_by(hand, seat)) {
                (Some(paid), Some(held)) => held.len() > 0 || card_named(paid@) is None,
                _ => true,
            },
        },
    }
}

/// In the exchange, a bot that has to return a card has one to return.
pub open spec fn can_return(game: TableGameState, seat: Seat) -> bool {
    game.phase == GamePhase::Exchange ==> match game.hand {
        Some(hand) => has_return(hand, seat),
        None => true,
    }
}

fn find_last_highest(hand: &Vec<String>, ctx: RuleContext) -> (at: Option<usize>)
    ensures
        match at {
            Some(i) => last_highest(hand@, ctx, hand@.len() as int) == Some(i as int) && i
                < hand@.len(),
            None => last_highest(hand@, ctx, hand@.len() as int) is None,
        },
{
    let mut best: Option<usize> = None;
    let mut best_order: u8 = 0;
    for i in 0..hand.len()
        invariant
            last_highest(hand@, ctx, i as int) == match best {
                Some(j) => Some(j as int),
                None => None,
            },
            best matches Some(j) ==> j < i && best_order == rank_order(
                card_named(hand@[j as int]@)->Some_0.rank,
                ctx,
            ),
    {
        if let Some(card) = read_card(hand[i].as_str()) {
            if !is_wild(card, ctx) {
                let order: u8 = level_order_value(card, ctx);
                if best.is_none() || order >= best_order {
                    best = Some(i);
                    best_order = order;
                }
            }
        }
    }
    best
}

proof fn lemma_first_other(hand: Seq<String>, ctx: RuleContext, paid: int, i: int)
    requires
        hand.len() > 0,
    ensures
        0 <= first_other(hand, ctx, paid, i) < hand.len(),
    decreases hand.len() - i,
{
    if 0 <= i < hand.len() {
        lemma_first_other(hand, ctx, paid, i + 1);
    }
}

fn find_first_other(hand: &Vec<String>, ctx: RuleContext, paid: u8) -> (at: usize)
    requires
        hand@.len() > 0,
    ensures
        at == first_other(hand@, ctx, paid as int, 0),
        at < hand@.len(),
{
    let mut i: usize = 0;
    while i < hand.len()
        invariant
            i <= hand@.len(),
            hand@.len() > 0,
            first_other(hand@, ctx, paid as int, 0) == first_other(
                hand@,
                ctx,
                paid as int,
                i as int,
            ),
        decreases hand@.len() - i,
    {
        if let Some(card) = read_card(hand[i].as_str()) {
            if !is_wild(card, ctx) && level_order_value(card, ctx) != paid {
                return i;
            }
        }
        i = i + 1;
    }
    0
}

fn find_owed(pairs: &Vec<TributePair>, seat: Seat) -> (at: Option<usize>)
    ensures
        match at {
            Some(i) => owed_by(pairs@, seat, 0) == Some(i as int) && i < pairs@.len(),
            None => owed_by(pairs@, seat, 0) is None,
        },
{
    let mut at: usize = 0;
    while at < pairs.len() && !(pairs[at].receiver == seat && pairs[at].return_card.is_none())
        invariant
            at <= pairs@.len(),
            owed_by(pairs@, seat, 0) == owed_by(pairs@, seat, at as int),
        decreases pairs@.len() - at,
    {
        at = at + 1;
    }
    if at < pairs.len() {
        Some(at)
    } else {
        None
    }
}

fn finds_return(hand: &HandState, seat: Seat) -> (b: bool)
    ensures
        b == has_return(*hand, seat),
{
    let owed: Option<String> = match &hand.tribute {
        Some(t) => match find_owed(&t.pairs, seat) {
            Some(i) => t.pairs[i].paid_card.clone(),
            None => None,
        },
        None => None,
    };
    match (owed, hand.hands.get(seat)) {
        (Some(paid), Some(held)) => held.len() > 0 || read_card(paid.as_str()).is_none(),
        _ => true,
    }
}

fn return_when_overdue(hand: &HandState, seat: Seat, seq: u64) -> (action: Result<
    PlayerAction,
    AppError,
>)
    requires
        has_return(*hand, seat),
    ensures
        match action {
            Ok(a) => overdue_return(*hand, seat, seq) == Ok::<Action, Refusal>(a@),
            Err(e) => overdue_return(*hand, seat, seq) == Err::<Action, Refusal>(e@),
        },
{
    let tribute = match &hand.tribute {
        Some(t) => t,
        None => {
            return Err(status_conflict("tribute plan not found", seq));
        },
    };
    let at: usize = match find_owed(&tribute.pairs, seat) {
        Some(i) => i,
        None => {
            return Err(status_conflict("player is not expected to return card", seq));
        },
    };
    let paid = match &tribute.pairs[at].paid_card {
        Some(p) => p,
        None => {
            return Err(status_conflict("tribute not yet paid", seq));
        },
    };
    let card = match parse_card_symbol(paid.as_str()) {
        Ok(c) => c,
        Err(message) => {
            return Err(
                AppError::BadRequest(
                    "invalid paid_card symbol: ".to_owned().concat(message.as_str()),
                ),
            );
        },
    };
    let ctx = RuleContext { hand_level: hand.hand_level };
    let held = match hand.hands.get(seat) {
        Some(h) => h,
        None => {
            return Err(status_conflict("actor seat missing from hand", seq));
        },
    };
    let i: usize = find_first_other(held, ctx, level_order_value(card, ctx));
    Ok(PlayerAction::ReturnCard { card: held[i].clone() })
}

/// What a bot does when its time is up.
pub fn act_when_overdue(game: &TableGameState, seat: Seat, seq: u64) -> (action: Result<
    PlayerAction,
    AppError,
>)
    requires
        can_return(*game, seat),
    ensures
        match action {
            Ok(a) => overdue_action(*game, seat, seq) == Ok::<Action, Refusal>(a@),
            Err(e) => overdue_action(*game, seat, seq) == Err::<Action, Refusal>(e@),
        },
{
    match game.phase {
        GamePhase::Tribute => {
            let hand = match &game.hand {
                Some(h) => h,
                None => {
                    return Err(status_conflict("hand state not initialized", seq));
                },
            };
            let held = match hand.hands.get(seat) {
                Some(h) => h,
                None => {
                    return Err(status_conflict("actor seat missing from hand", seq));
                },
            };
            match find_last_highest(held, RuleContext { hand_level: hand.hand_level }) {
                Some(i) => Ok(PlayerAction::Tribute { card: held[i].clone() }),
                None => Err(
                    AppError::BadRequest("no valid tribute card in bot hand".to_owned()),
                ),
            }
        },
        GamePhase::Exchange => match &game.hand {
            Some(hand) => return_when_overdue(hand, seat, seq),
            None => Err(status_conflict("hand state not initialized", seq)),
        },
        _ => Ok(PlayerAction::Pass),
    }
}

/// A move that a bot is made to make.
#[derive(Debug)]
pub struct OverdueMove {
    pub seat: Seat,
    pub player_id: String,
    pub player_name: String,
    pub action: PlayerAction,
}

fn find_mover(state: &TableRuntimeState) -> (seat: Option<Seat>)
    ensures
        seat == mover(*state),
{
    match &state.game {
        None => None,
        Some(game) => match game.phase {
            GamePhase::Playing => Some(game.turn_seat),
            GamePhase::Tribute => match &game.hand {
                Some(hand) => hand.next_tribute_actor(),
                None => None,
            },
            GamePhase::Exchange => match &game.hand {
                Some(hand) => hand.next_exchange_actor(),
                None => None,
            },
            _ => None,
        },
    }
}

/// A bot has used up its time and has to return a card, but holds none.
pub open spec fn bot_is_stuck(state: TableRuntimeState, now: u64) -> bool {
    bot_overdue(state, now) && !can_return(state.game->Some_0, mover(state)->Some_0)
}

/// Whether a bot has used up its time and has to return a card, but holds none.
pub fn finds_bot_stuck(state: &TableRuntimeState, now: u64) -> (b: bool)
    ensures
        b == bot_is_stuck(*state, now),
{
    if state.status != TableStatus::InGame {
        return false;
    }
    let seat = match find_mover(state) {
        Some(s) => s,
        None => {
            return false;
        },
    };
    let is_bot = match state.seats.get(seat) {
        Some(p) => p.player_type == PlayerType::Bot,
        None => false,
    };
    let overdue = match state.bot_turn_started_at {
        Some(start) => now > start && now - start > BOT_TURN_TIMEOUT,
        None => false,
    };
    if !is_bot || !overdue {
        return false;
    }
    match &state.game {
        Some(game) => game.phase == GamePhase::Exchange && match &game.hand {
            Some(hand) => !finds_return(hand, seat),
            None => false,
        },
        None => false,
    }
}

/// A table but for the clock for bots.
pub open spec fn same_but_clock(a: TableRuntimeState, b: TableRuntimeState) -> bool {
    same_game(a, b) && a.seats == b.seats && a.seq == b.seq && a.narration == b.narration
}

/// Looks at the clock for bots. Where a bot has used up its time, says what it is made to do.
pub fn expire_bot_turn(state: &mut TableRuntimeState, now: u64) -> (due: Result<
    Option<OverdueMove>,
    AppError,
>)
    requires
        !bot_is_stuck(*old(state), now),
    ensures
        same_but_clock(*final(state), *old(state)),
        final(state).bot_turn_started_at == bot_clock(*old(state), now),
        match due {
            Ok(None) => !bot_overdue(*old(state), now),
            Ok(Some(m)) => {
                &&& bot_overdue(*old(state), now)
                &&& mover(*old(state)) == Some(m.seat)
                &&& m.player_id@ == moving_player(*old(state))->Some_0.player_id@
                &&& m.player_name@ == moving_player(*old(state))->Some_0.player_name@
                &&& overdue_action(old(state).game->Some_0, m.seat, old(state).seq) == Ok::<
                    Action,
                    Refusal,
                >(m.action@)
            },
            Err(e) => {
                &&& bot_overdue(*old(state), now)
                &&& overdue_action(
                    old(state).game->Some_0,
                    mover(*old(state))->Some_0,
                    old(state).seq,
                ) == Err::<Action, Refusal>(e@)
            },
        },
{
    if state.status != TableStatus::InGame {
        return Ok(None);
    }
    let seat = match find_mover(state) {
        Some(s) => s,
        None => {
            return Ok(None);
        },
    };
    let (is_bot, player_id, player_name) = match state.seats.get(seat) {
        Some(p) => (p.player_type == PlayerType::Bot, p.player_id.clone(), p.player_name.clone()),
        None => {
            return Ok(None);
        },
    };
    if !is_bot {
        state.bot_turn_started_at = None;
        return Ok(None);
    }
    let start: u64 = match state.bot_turn_started_at {
        Some(t) => t,
        None => {
            state.bot_turn_started_at = Some(now);
            return Ok(None);
        },
    };
    if now <= start || now - start <= BOT_TURN_TIMEOUT {
        return Ok(None);
    }
    state.bot_turn_started_at = None;
    match &state.game {
        Some(game) => match act_when_overdue(game, seat, state.seq) {
            Ok(action) => Ok(Some(OverdueMove { seat, player_id, player_name, action })),
            Err(e) => Err(e),
        },
        None => Ok(None),
    }
}

/// What is announced when a bot was made to move.
pub open spec fn overdue_news(name: Seq<char>, action: Action) -> Seq<char> {
    name + match action {
        Action::Tribute { card: _ } => " (bot) auto-tributed (timed out after 30s)"@,
        Action::ReturnCard { card: _ } => " (bot) auto-returned (timed out after 30s)"@,
        _ => " (bot) auto-passed (timed out after 30s)"@,
    }
}

/// Takes in the game after a bot was made to move.
pub fn finish_overdue_move(state: &mut TableRuntimeState, moved: &OverdueMove, game: TableGameState)
    requires
        old(state).seq < u64::MAX,
    ensures
        final(state).game == Some(game),
        final(state).narration@ == overdue_news(moved.player_name@, moved.action@),
        final(state).seq == old(state).seq + 1,
        final(state).seats == old(state).seats,
        same_game(*final(state), (TableRuntimeState { game: Some(game), ..*old(state) })),
        final(state).bot_turn_started_at == old(state).bot_turn_started_at,
{
    let tail: &str = match &moved.action {
        PlayerAction::Tribute { card: _ } => " (bot) auto-tributed (timed out after 30s)",
        PlayerAction::ReturnCard { card: _ } => " (bot) auto-returned (timed out after 30s)",
        _ => " (bot) auto-passed (timed out after 30s)",
    };
    state.narration = moved.player_name.clone().concat(tail);
    state.game = Some(game);
    state.seq = state.seq + 1;
}

/// A player who has kept silent for too long and is not away yet.
pub open spec fn silent(slot: Option<PlayerRecord>, now: u64) -> bool {
    slot matches Some(p) && p.presence != PlayerPresence::Away && now > p.last_activity_at
        + PLAYER_INACTIVITY_TIMEOUT
}

/// The players from the `i`-th seat on who have kept silent for too long.
pub open spec fn silent_from(seats: PerSeat<PlayerRecord>, now: u64, i: int) -> Seq<Seat>
    decreases 4 - i,
{
    if i >= 4 {
        Seq::empty()
    } else if silent(seats.at(seat_at(i)), now) {
        seq![seat_at(i)] + silent_from(seats, now, i + 1)
    } else {
        silent_from(seats, now, i + 1)
    }
}

/// The ids of the players at a list of seats.
pub open spec fn ids_of(seats: PerSeat<PlayerRecord>, list: Seq<Seat>) -> Seq<Seq<char>> {
    list.map_values(|s: Seat| seats.at(s)->Some_0.player_id@)
}

/// A game that is over.
pub open spec fn ended(game: Option<TableGameState>) -> Option<TableGameState> {
    match game {
        Some(g) => Some(TableGameState { phase: GamePhase::Completed, ..g }),
        None => None,
    }
}

/// The players who have gone away.
#[derive(Debug)]
pub struct Absence {
    pub player_ids: Vec<String>,
    pub player_names: Vec<String>,
    /// The game is over on that account.
    pub game_ended: bool,
}

fn end_game(state: &mut TableRuntimeState)
    ensures
        final(state).status == TableStatus::Finished,
        !final(state).waiting_next_hand_ready,
        final(state).game == ended(old(state).game),
        final(state).seats == old(state).seats,
        final(state).seq == old(state).seq,
        final(state).narration == old(state).narration,
        final(state).bot_turn_started_at == old(state).bot_turn_started_at,
        same_game(
            *final(state),
            (TableRuntimeState {
                status: TableStatus::Finished,
                waiting_next_hand_ready: false,
                game: ended(old(state).game),
                ..*old(state)
            }),
        ),
{
    state.status = TableStatus::Finished;
    state.waiting_next_hand_ready = false;
    if let Some(game) = &mut state.game {
        game.phase = GamePhase::Completed;
    }
}

fn is_silent(slot: Option<&PlayerRecord>, now: u64) -> (b: bool)
    ensures
        b == silent(
            match slot {
                Some(p) => Some(*p),
                None => None,
            },
            now,
        ),
{
    match slot {
        Some(p) => p.presence != PlayerPresence::Away && now > p.last_activity_at && now
            - p.last_activity_at > PLAYER_INACTIVITY_TIMEOUT,
        None => false,
    }
}

fn find_silent(state: &TableRuntimeState, now: u64) -> (list: Vec<Seat>)
    ensures
        list@ == silent_from(state.seats, now, 0),
{
    let seats = Seat::all();
    let mut out: Vec<Seat> = Vec::new();
    let mut i: usize = 0;
    assert(out@ + silent_from(state.seats, now, 0) =~= silent_from(state.seats, now, 0));
    while i < 4
        invariant
            i <= 4,
            forall|i: int| 0 <= i < 4 ==> #[trigger] seats@[i] == seat_at(i),
            out@ + silent_from(state.seats, now, i as int) =~= silent_from(state.seats, now, 0),
        decreases 4 - i,
    {
        assert(seats@[i as int] == seat_at(i as int));
        let seat = seats[i];
        if is_silent(state.seats.get(seat), now) {
            out.push(seat);
        }
        i = i + 1;
    }
    assert(out@ + Seq::<Seat>::empty() =~= out@);
    out
}

/// A table whose silent players have been marked as away.
pub open spec fn seats_after(a: TableRuntimeState, now: u64, seat: Seat) -> Option<PlayerRecord> {
    if silent(a.seats.at(seat), now) {
        with_away(a.seats.at(seat))
    } else {
        a.seats.at(seat)
    }
}

fn mark_silent(state: &mut TableRuntimeState, now: u64)
    ensures
        forall|seat: Seat| #[trigger]
            final(state).seats.at(seat) == seats_after(*old(state), now, seat),
        same_game(*final(state), *old(state)),
        final(state).seq == old(state).seq,
        final(state).narration == old(state).narration,
        final(state).bot_turn_started_at == old(state).bot_turn_started_at,
{
    let e = is_silent(state.seats.get(Seat::E), now);
    let s = is_silent(state.seats.get(Seat::S), now);
    let w = is_silent(state.seats.get(Seat::W), now);
    let n = is_silent(state.seats.get(Seat::N), now);
    if e {
        state.set_away_at(Seat::E);
    }
    if s {
        state.set_away_at(Seat::S);
    }
    if w {
        state.set_away_at(Seat::W);
    }
    if n {
        state.set_away_at(Seat::N);
    }
}

proof fn lemma_silent_from(seats: PerSeat<PlayerRecord>, now: u64, i: int)
    requires
        0 <= i,
    ensures
        forall|k: int|
            0 <= k < silent_from(seats, now, i).len() ==> silent(
                seats.at(#[trigger] silent_from(seats, now, i)[k]),
                now,
            ),
    decreases 4 - i,
{
    if i < 4 {
        lemma_silent_from(seats, now, i + 1);
        let tail = silent_from(seats, now, i + 1);
        let all = silent_from(seats, now, i);
        assert forall|k: int| 0 <= k < all.len() implies silent(
            seats.at(#[trigger] all[k]),
            now,
        ) by {
            if silent(seats.at(seat_at(i)), now) {
                if k > 0 {
                    assert(all[k] == tail[k - 1]);
                }
            } else {
                assert(all[k] == tail[k]);
            }
        }
    }
}

/// Marks players as away who have kept silent for too long; that ends a game that runs.
pub fn expire_inactive_players(state: &mut TableRuntimeState, now: u64) -> (gone: Option<Absence>)
    requires
        old(state).seq < u64::MAX,
    ensures
        ({
            let list = silent_from(old(state).seats, now, 0);
            match gone {
                None => (old(state).status == TableStatus::Finished || list.len() == 0)
                    && *final(state) == *old(state),
                Some(a) => {
                    &&& old(state).status != TableStatus::Finished
                    &&& list.len() > 0
                    &&& texts(a.player_ids@) == ids_of(old(state).seats, list)
                    &&& texts(a.player_names@) == names_of(old(state).seats, list)
                    &&& a.game_ended == (old(state).status == TableStatus::InGame)
                    &&& forall|seat: Seat| #[trigger]
                        final(state).seats.at(seat) == seats_after(*old(state), now, seat)
                    &&& final(state).seq == old(state).seq + 1
                    &&& final(state).bot_turn_started_at == old(state).bot_turn_started_at
                    &&& if a.game_ended {
                        &&& speaks(
                            final(state).narration@,
                            game_end_by_leave(names_of(old(state).seats, list)),
                        )
                        &&& same_game(
                            *final(state),
                            (TableRuntimeState {
                                status: TableStatus::Finished,
                                waiting_next_hand_ready: false,
                                game: ended(old(state).game),
                                ..*old(state)
                            }),
                        )
                    } else {
                        final(state).narration == old(state).narration && same_game(
                            *final(state),
                            *old(state),
                        )
                    }
                },
            }
        }),
{
    if state.status == TableStatus::Finished {
        return None;
    }
    let list = find_silent(state, now);
    if list.len() == 0 {
        return None;
    }
    let mut ids: Vec<String> = Vec::new();
    for i in 0..list.len()
        invariant
            list@ == silent_from(state.seats, now, 0),
            texts(ids@) =~= ids_of(state.seats, list@.take(i as int)),
            *state == *old(state),
    {
        proof {
            lemma_silent_from(state.seats, now, 0);
            assert(silent(state.seats.at(list@[i as int]), now));
        }
        let ghost done = ids@;
        if let Some(p) = state.seats.get(list[i]) {
            ids.push(p.player_id.clone());
        }
        assert(texts(ids@) =~= texts(done).push(
            state.seats.at(list@[i as int])->Some_0.player_id@,
        ));
        assert(ids_of(state.seats, list@.take(i + 1)) =~= ids_of(
            state.seats,
            list@.take(i as int),
        ).push(state.seats.at(list@[i as int])->Some_0.player_id@));
    }
    assert(list@.take(list@.len() as int) =~= list@);
    let names = finish_names(state, &list);
    mark_silent(state, now);
    let running = state.status == TableStatus::InGame;
    if running {
        end_game(state);
        state.narration = format_game_end_by_leave(names.as_slice());
    }
    state.seq = state.seq + 1;
    Some(Absence { player_ids: ids, player_names: names, game_ended: running })
}

/// Ends a game that runs, with an announcement. Says whether one did.
pub fn disband(state: &mut TableRuntimeState, narration: String) -> (ran: bool)
    requires
        old(state).seq < u64::MAX,
    ensures
        ran == (old(state).status == TableStatus::InGame),
        !ran ==> *final(state) == *old(state),
        ran ==> {
            &&& final(state).narration == narration
            &&& final(state).seq == old(state).seq + 1
            &&& final(state).seats == old(state).seats
            &&& final(state).bot_turn_started_at == old(state).bot_turn_started_at
            &&& same_game(
                *final(state),
                (TableRuntimeState {
                    status: TableStatus::Finished,
                    waiting_next_hand_ready: false,
                    game: ended(old(state).game),
                    ..*old(state)
                }),
            )
        },
{
    if state.status != TableStatus::InGame {
        return false;
    }
    end_game(state);
    state.narration = narration;
    state.seq = state.seq + 1;
    true
}

/// What is announced when a player leaves.
pub open spec fn leave_news(state: TableRuntimeState, id: Seq<char>) -> Seq<char> {
    (match seat_held(state, id) {
        Some(seat) => name_at(state.seats, seat),
        None => "unknown"@,
    }) + " left the game"@
}

/// Ends a game that runs because a player leaves. Says whether one did.
pub fn leave_game(state: &mut TableRuntimeState, player_id: &str) -> (ran: bool)
    requires
        old(state).seq < u64::MAX,
    ensures
        ran == (old(state).status == TableStatus::InGame),
        !ran ==> *final(state) == *old(state),
        ran ==> {
            &&& final(state).narration@ == leave_news(*old(state), player_id@)
            &&& final(state).seq == old(state).seq + 1
            &&& final(state).seats == old(state).seats
            &&& final(state).bot_turn_started_at == old(state).bot_turn_started_at
            &&& same_game(
                *final(state),
                (TableRuntimeState {
                    status: TableStatus::Finished,
                    waiting_next_hand_ready: false,
                    game: ended(old(state).game),
                    ..*old(state)
                }),
            )
        },
{
    let name = match state.seat_for_player(player_id) {
        Some(seat) => state.player_name_for_seat(seat),
        None => "unknown".to_owned(),
    };
    disband(state, name.concat(" left the game"))
}

/// A championship is being shown.
pub open spec fn champion_shown(state: TableRuntimeState, now: u64) -> bool {
    &&& state.status == TableStatus::InGame
    &&& state.waiting_next_hand_ready
    &&& state.champ_pause_until matches Some(until) && now < until
}

/// Whether a championship is being shown, during which no hand starts.
pub fn champ_pause_active(state: &TableRuntimeState, now: u64) -> (b: bool)
    ensures
        b == champion_shown(*state, now),
{
    state.status == TableStatus::InGame && state.waiting_next_hand_ready
        && match state.champ_pause_until {
        Some(until) => now < until,
        None => false,
    }
}

/// Ends the show of a championship once its time is up; says whether the next hand is to
/// start.
pub fn end_champ_pause(state: &mut TableRuntimeState, now: u64) -> (start: bool)
    ensures
        ({
            let over = old(state).status == TableStatus::InGame
                && old(state).waiting_next_hand_ready && !champion_shown(*old(state), now);
            &&& start == (over && everyone_ready(*old(state)))
            &&& if over {
                &&& final(state).champ_pause_until is None
                &&& final(state).seats == old(state).seats
                &&& final(state).seq == old(state).seq
                &&& final(state).narration == old(state).narration
                &&& final(state).bot_turn_started_at == old(state).bot_turn_started_at
                &&& same_game(
                    *final(state),
                    (TableRuntimeState { champ_pause_until: None, ..*old(state) }),
                )
            } else {
                *final(state) == *old(state)
            }
        }),
{
    if state.status != TableStatus::InGame || !state.waiting_next_hand_ready
        || champ_pause_active(state, now) {
        return false;
    }
    let ready = state.all_ready();
    state.champ_pause_until = None;
    ready
}

/// What a change of a player's flag leads to.
#[derive(Clone, Copy, Debug, PartialEq, Eq, Structural)]
pub enum ReadyStep {
    /// The flag was set before.
    Unchanged,
    Changed,
    /// Everyone is ready for the first hand.
    StartGame { declarer: TeamId, level: Level },
    /// Everyone is ready for the next hand.
    StartNextHand,
}

/// The flag of the player with an id.
pub open spec fn flag_of(state: TableRuntimeState, id: Seq<char>) -> Option<bool> {
    match seat_held(state, id) {
        Some(seat) => match state.seats.at(seat) {
            Some(p) => Some(p.ready),
            None => None,
        },
        None => None,
    }
}

/// What a table whose players' flags have changed goes on to.
pub open spec fn step_of(state: TableRuntimeState, now: u64) -> ReadyStep {
    if everyone_ready(state) && state.status == TableStatus::Waiting {
        ReadyStep::StartGame {
            declarer: state.current_declarer,
            level: choose_team(
                state.current_declarer,
                state.team_progress_ew,
                state.team_progress_sn,
            ).level,
        }
    } else if everyone_ready(state) && state.status == TableStatus::InGame
        && state.waiting_next_hand_ready && !champion_shown(state, now) {
        ReadyStep::StartNextHand
    } else {
        ReadyStep::Changed
    }
}

/// Sets the flag of a player and says what that leads to.
pub fn change_ready(state: &mut TableRuntimeState, player_id: &str, ready: bool, now: u64) -> (step:
    Result<ReadyStep, AppError>)
    ensures
        match step {
            Err(e) => flag_of(*old(state), player_id@) is None && e@ == Refusal::Forbidden(
                "player is not seated at this table"@,
            ) && *final(state) == *old(state),
            Ok(ReadyStep::Unchanged) => flag_of(*old(state), player_id@) == Some(ready)
                && *final(state) == *old(state),
            Ok(next) => {
                &&& flag_of(*old(state), player_id@) == Some(!ready)
                &&& next == step_of(*final(state), now)
                &&& forall|seat: Seat| #[trigger]
                    final(state).seats.at(seat) == if seat_held(*old(state), player_id@) == Some(
                        seat,
                    ) {
                        with_ready(old(state).seats.at(seat), ready)
                    } else {
                        old(state).seats.at(seat)
                    }
                &&& same_game(*final(state), *old(state))
                &&& final(state).seq == old(state).seq
                &&& final(state).narration == old(state).narration
                &&& final(state).bot_turn_started_at == old(state).bot_turn_started_at
            },
        },
{
    let seat = match state.seat_for_player(player_id) {
        Some(s) => s,
        None => {
            return Err(AppError::Forbidden("player is not seated at this table".to_owned()));
        },
    };
    let was: bool = match state.seats.get(seat) {
        Some(p) => p.ready,
        None => {
            return Err(AppError::Forbidden("player is not seated at this table".to_owned()));
        },
    };
    if was == ready {
        return Ok(ReadyStep::Unchanged);
    }
    state.set_ready_at(seat, ready);
    if state.all_ready() {
        if state.status == TableStatus::Waiting {
            let level = match state.current_declarer {
                TeamId::Ew => state.team_progress_ew.level,
                TeamId::Sn => state.team_progress_sn.level,
            };
            return Ok(ReadyStep::StartGame { declarer: state.current_declarer, level });
        }
        if state.status == TableStatus::InGame && state.waiting_next_hand_ready
            && !champ_pause_active(state, now) {
            return Ok(ReadyStep::StartNextHand);
        }
    }
    Ok(ReadyStep::Changed)
}

pub open spec fn ready_event(step: ReadyStep) -> Seq<char> {
    match step {
        ReadyStep::StartGame { declarer: _, level: _ } => "GAME_STARTED"@,
        ReadyStep::StartNextHand => "NEXT_HAND_STARTED"@,
        _ => "PLAYER_READY_CHANGED"@,
    }
}

/// What a change of a player's flag is reported as.
pub fn ready_transition_type(step: ReadyStep) -> (text: &'static str)
    ensures
        text@ == ready_event(step),
{
    match step {
        ReadyStep::StartGame { declarer: _, level: _ } => "GAME_STARTED",
        ReadyStep::StartNextHand => "NEXT_HAND_STARTED",
        _ => "PLAYER_READY_CHANGED",
    }
}

/// The seat of the dealer: East for East and West, South for the others.
pub open spec fn anchor_seat(team: TeamId) -> Seat {
    match team {
        TeamId::Ew => Seat::E,
        TeamId::Sn => Seat::S,
    }
}

/// The seat of the dealer.
pub fn declarer_anchor_seat(team: TeamId) -> (seat: Seat)
    ensures
        seat == anchor_seat(team),
{
    match team {
        TeamId::Ew => Seat::E,
        TeamId::Sn => Seat::S,
    }
}

/// Takes in the game whose first hand has been dealt.
pub fn begin_game(state: &mut TableRuntimeState, game: TableGameState, level: Level)
    ensures
        final(state).status == TableStatus::InGame,
        final(state).game == Some(
            TableGameState { dealer_seat: anchor_seat(old(state).current_declarer), ..game },
        ),
        !final(state).waiting_next_hand_ready,
        speaks(
            final(state).narration@,
            hand_open(old(state).current_declarer, level_text(level)),
        ),
        final(state).seats == old(state).seats,
        final(state).seq == old(state).seq,
        final(state).bot_turn_started_at == old(state).bot_turn_started_at,
        same_game(
            *final(state),
            (TableRuntimeState {
                status: TableStatus::InGame,
                waiting_next_hand_ready: false,
                game: final(state).game,
                ..*old(state)
            }),
        ),
{
    let mut dealt = game;
    dealt.dealer_seat = declarer_anchor_seat(state.current_declarer);
    state.status = TableStatus::InGame;
    state.game = Some(dealt);
    state.waiting_next_hand_ready = false;
    state.narration = format_hand_open(state.current_declarer, level.as_api_str());
}

/// Counts one change of a table, once a flag or the start of a hand has been carried out.
pub fn count_change(state: &mut TableRuntimeState)
    requires
        old(state).seq < u64::MAX,
    ensures
        *final(state) == (TableRuntimeState { seq: (old(state).seq + 1) as u64, ..*old(state) }),
{
    state.seq = state.seq + 1;
}

/// How the next hand starts.
#[derive(Debug)]
pub enum NextHand {
    /// The first hand of a new game, after a championship.
    Rematch { champion: TeamId },
    /// Another hand of the same game, with tribute by the finishing order.
    Tribute { declarer: TeamId, level: Level, order: Vec<Seat> },
}

/// A table that starts over from level two with the champion as declarer.
pub open spec fn started_over(a: TableRuntimeState, b: TableRuntimeState, champion: TeamId) -> bool {
    &&& b.team_progress_ew == start_of(TeamId::Ew, Level::Two)
    &&& b.team_progress_sn == start_of(TeamId::Sn, Level::Two)
    &&& b.current_declarer == champion
    &&& b.game_winner_team_id is None
    &&& b.last_finishing_order@.len() == 0
    &&& b.rematch_from_level2 is None
    &&& b.table_id == a.table_id
    &&& b.status == a.status
    &&& b.seq == a.seq
    &&& b.seats == a.seats
    &&& b.game == a.game
    &&& b.waiting_next_hand_ready == a.waiting_next_hand_ready
    &&& b.narration == a.narration
    &&& b.champ_pause_until == a.champ_pause_until
    &&& b.bot_turn_started_at == a.bot_turn_started_at
}

/// Says how the next hand starts. After a championship the teams go back to level two.
pub fn plan_next_hand(state: &mut TableRuntimeState) -> (plan: NextHand)
    ensures
        match plan {
            NextHand::Rematch { champion } => old(state).rematch_from_level2 == Some(champion)
                && started_over(*old(state), *final(state), champion),
            NextHand::Tribute { declarer, level, order } => {
                &&& old(state).rematch_from_level2 is None
                &&& *final(state) == *old(state)
                &&& declarer == old(state).current_declarer
                &&& level == choose_team(
                    declarer,
                    old(state).team_progress_ew,
                    old(state).team_progress_sn,
                ).level
                &&& order@ == old(state).last_finishing_order@
            },
        },
{
    match state.rematch_from_level2 {
        Some(champion) => {
            state.rematch_from_level2 = None;
            state.team_progress_ew = TeamProgress {
                team: TeamId::Ew,
                level: Level::Two,
                ace_failed_attempts: 0,
            };
            state.team_progress_sn = TeamProgress {
                team: TeamId::Sn,
                level: Level::Two,
                ace_failed_attempts: 0,
            };
            state.current_declarer = champion;
            state.game_winner_team_id = None;
            state.last_finishing_order = Vec::new();
            NextHand::Rematch { champion }
        },
        None => {
            let declarer = state.current_declarer;
            let level = match declarer {
                TeamId::Ew => state.team_progress_ew.level,
                TeamId::Sn => state.team_progress_sn.level,
            };
            NextHand::Tribute {
                declarer,
                level,
                order: copy_all(state.last_finishing_order.as_slice()),
            }
        },
    }
}

/// Who leads because no tribute is due, if so.
pub open spec fn untaxed_lead(game: TableGameState) -> Option<Seat> {
    match game.hand {
        Some(hand) => match hand.tribute {
            Some(t) => if t.canceled {
                Some(game.turn_seat)
            } else {
                None
            },
            None => None,
        },
        None => None,
    }
}

/// What is announced at the start of a hand.
pub open spec fn opening_news(
    seats: PerSeat<PlayerRecord>,
    declarer: TeamId,
    level: Level,
    lead: Option<Seat>,
) -> Bilingual {
    match lead {
        Some(seat) => hand_open_untaxed(declarer, level_text(level), name_at(seats, seat)),
        None => hand_open(declarer, level_text(level)),
    }
}

/// Takes in the game whose next hand has been dealt; says who leads where no tribute is due.
/// The first hand of a new game has no tribute.
pub fn begin_hand(state: &mut TableRuntimeState, game: TableGameState, plan: &NextHand) -> (lead: Option<
    Seat,
>)
    ensures
        lead == (if plan is Tribute {
            untaxed_lead(game)
        } else {
            None
        }),
        final(state).game == Some(game),
        !final(state).waiting_next_hand_ready,
        speaks(
            final(state).narration@,
            match plan {
                NextHand::Rematch { champion } => opening_news(
                    old(state).seats,
                    *champion,
                    Level::Two,
                    None,
                ),
                NextHand::Tribute { declarer, level, order: _ } => opening_news(
                    old(state).seats,
                    *declarer,
                    *level,
                    untaxed_lead(game),
                ),
            },
        ),
        final(state).seats == old(state).seats,
        final(state).seq == old(state).seq,
        final(state).bot_turn_started_at == old(state).bot_turn_started_at,
        same_game(
            *final(state),
            (TableRuntimeState {
                waiting_next_hand_ready: false,
                game: Some(game),
                ..*old(state)
            }),
        ),
{
    let lead: Option<Seat> = match plan {
        NextHand::Rematch { champion: _ } => None,
        NextHand::Tribute { declarer: _, level: _, order: _ } => match &game.hand {
            Some(hand) => match &hand.tribute {
                Some(t) => if t.canceled {
                    Some(game.turn_seat)
                } else {
                    None
                },
                None => None,
            },
            None => None,
        },
    };
    state.narration = match plan {
        NextHand::Rematch { champion } => format_hand_open(*champion, Level::Two.as_api_str()),
        NextHand::Tribute { declarer, level, order: _ } => match lead {
            Some(seat) => {
                let name = state.player_name_for_seat(seat);
                format_hand_open_with_tribute_canceled(
                    *declarer,
                    level.as_api_str(),
                    name.as_str(),
                )
            },
            None => format_hand_open(*declarer, level.as_api_str()),
        },
    };
    state.game = Some(game);
    state.waiting_next_hand_ready = false;
    lead
}

/// What a client that has seen a number of changes gets.
#[derive(Clone, Copy, Debug, PartialEq, Eq, Structural)]
pub enum Poll {
    /// The client claims to have seen more than there is.
    Ahead,
    /// The change at a place of the log; so many are still to come after it.
    Ready { index: u64, lag: u64 },
    /// The log lacks the change.
    Missing,
    /// Nothing more will come.
    Ended,
    /// Nothing yet.
    Wait,
}

/// What a client that has seen `since` changes gets of a table with `seq` changes and a log
/// of `logged` of them.
pub open spec fn poll_of(since: u64, seq: u64, logged: nat, status: TableStatus) -> Poll {
    if since > seq {
        Poll::Ahead
    } else if since < seq {
        if since < logged {
            Poll::Ready { index: since, lag: (seq - since - 1) as u64 }
        } else {
            Poll::Missing
        }
    } else if status == TableStatus::Finished {
        Poll::Ended
    } else {
        Poll::Wait
    }
}

/// What a client that has seen `since` changes gets.
pub fn next_transition(since: u64, state: &TableRuntimeState, logged: usize) -> (poll: Poll)
    ensures
        poll == poll_of(since, state.seq, logged as nat, state.status),
{
    if since > state.seq {
        Poll::Ahead
    } else if since < state.seq {
        if (since as u128) < logged as u128 {
            Poll::Ready { index: since, lag: state.seq - since - 1 }
        } else {
            Poll::Missing
        }
    } else if state.status == TableStatus::Finished {
        Poll::Ended
    } else {
        Poll::Wait
    }
}

/// What a client is told that claims to have seen more than there is.
pub open spec fn ahead_refusal(since: u64, seq: u64) -> Refusal {
    Refusal::BadRequest(
        "sinceSeq "@ + decimal(since as nat) + " is ahead of currentSeq "@ + decimal(seq as nat),
    )
}

/// What a client is told that claims to have seen more than there is.
pub fn ahead_error(since: u64, seq: u64) -> (e: AppError)
    ensures
        e@ == ahead_refusal(since, seq),
{
    let mut text = "sinceSeq ".to_owned();
    push_decimal(&mut text, since);
    text.append(" is ahead of currentSeq ");
    push_decimal(&mut text, seq);
    AppError::BadRequest(text)
}

/// A client that polls one change after the other gets each of them once, in order, and is
/// told how many are left.
pub proof fn polling_walks_the_log(since: u64, seq: u64, status: TableStatus)
    requires
        since < seq,
    ensures
        poll_of(since, seq, seq as nat, status) == (Poll::Ready {
            index: since,
            lag: (seq - since - 1) as u64,
        }),
        (poll_of((since + 1) as u64, seq, seq as nat, status) is Ready) == (since + 1 < seq),
{
}

/// Where the first out is of the winning team, how it has won is decided by the place of the
/// partner: second, third or last.
pub proof fn wins_go_by_the_partner(order: Seq<Seat>, winner: TeamId, place: int)
    requires
        order.len() == 4,
        order.no_duplicates(),
        team_of(order[0]) == winner,
        0 < place < 4,
        order[place] == partner_of(order[0]),
    ensures
        place == 1 ==> win_of(order, winner) == WinType::OneTwo,
        place == 2 ==> win_of(order, winner) == WinType::OneThree,
        place == 3 ==> win_of(order, winner) == WinType::OneFour,
{
    assert(order[0] != order[1] && order[0] != order[2] && order[1] != order[2] && order[1]
        != order[3] && order[2] != order[3]);
}

/// The team that has won a hand declares the next one, and moves up by the place of the partner of
/// the first out: by three, two or one ranks, up to the ace, unless it has declared at the ace.
pub proof fn settled_winners_go_on(
    a: TableRuntimeState,
    b: TableRuntimeState,
    order: Seq<Seat>,
    winner: TeamId,
    now: u64,
)
    requires
        settled(
            a,
            b,
            order,
            house_applied(
                a.team_progress_ew,
                a.team_progress_sn,
                a.current_declarer,
                winner,
                win_of(order, winner),
            ),
            now,
        ),
    ensures
        b.current_declarer == winner,
        winner != a.current_declarer || choose_team(winner, a.team_progress_ew, a.team_progress_sn).level
            != Level::A ==> level_step(
            choose_team(winner, b.team_progress_ew, b.team_progress_sn).level,
        ) == ({
            let before = level_step(
                choose_team(winner, a.team_progress_ew, a.team_progress_sn).level,
            );
            let reached = before + if order.len() >= 2 && team_of(order[0]) == winner && team_of(
                order[1],
            ) == winner {
                3int
            } else if order.len() >= 3 && team_of(order[0]) == winner && team_of(order[2])
                == winner {
                2
            } else {
                1
            };
            if reached > 12 {
                12
            } else {
                reached
            }
        }),
        b.seq == a.seq + 1,
        b.waiting_next_hand_ready,
{
}

proof fn lemma_last_highest(hand: Seq<String>, ctx: RuleContext, n: int)
    requires
        0 <= n <= hand.len(),
    ensures
        match last_highest(hand, ctx, n) {
            Some(i) => 0 <= i < n && (card_named(hand[i]@) matches Some(card) && !wild(card, ctx)
                && forall|j: int|
                0 <= j < n ==> (card_named((#[trigger] hand[j])@) matches Some(other) ==> (!wild(
                    other,
                    ctx,
                ) ==> rank_order(other.rank, ctx) <= rank_order(card.rank, ctx)))),
            None => forall|j: int|
                0 <= j < n ==> (card_named((#[trigger] hand[j])@) matches Some(other) ==> wild(
                    other,
                    ctx,
                )),
        },
    decreases n,
{
    if n > 0 {
        lemma_last_highest(hand, ctx, n - 1);
    }
}

/// A bot whose time is up pays a card that is not wild and that no other such card of its hand
/// ranks above.
pub proof fn slow_bots_pay_their_highest_card(game: TableGameState, seat: Seat, seq: u64)
    requires
        game.phase == GamePhase::Tribute,
    ensures
        overdue_action(game, seat, seq) matches Ok(action) ==> (game.hand matches Some(hand) && (
        held_by(hand, seat) matches Some(held) && (action matches Action::Tribute { card: text } && (
        card_named(text) matches Some(card) && !wild(
            card,
            RuleContext { hand_level: hand.hand_level },
        ) && (exists|i: int| 0 <= i < held.len() && (#[trigger] held[i])@ == text) && forall|j: int|
            0 <= j < held.len() ==> (card_named((#[trigger] held[j])@) matches Some(other) ==> (
            !wild(other, RuleContext { hand_level: hand.hand_level }) ==> rank_order(
                other.rank,
                RuleContext { hand_level: hand.hand_level },
            ) <= rank_order(card.rank, RuleContext { hand_level: hand.hand_level }))))))),
{
    if let Some(hand) = game.hand {
        if let Some(held) = held_by(hand, seat) {
            let ctx = RuleContext { hand_level: hand.hand_level };
            lemma_last_highest(held, ctx, held.len() as int);
            if let Some(i) = last_highest(held, ctx, held.len() as int) {
                assert(held[i]@ == held[i]@);
            }
        }
    }
}

proof fn lemma_first_other_differs(hand: Seq<String>, ctx: RuleContext, paid: int, i: int)
    requires
        0 <= i <= hand.len(),
        hand.len() > 0,
    ensures
        0 <= first_other(hand, ctx, paid, i) < hand.len(),
        (exists|j: int|
            i <= j < hand.len() && (card_named((#[trigger] hand[j])@) matches Some(c) && !wild(c, ctx)
                && rank_order(c.rank, ctx) != paid)) ==> (card_named(
            hand[first_other(hand, ctx, paid, i)]@,
        ) matches Some(c) && !wild(c, ctx) && rank_order(c.rank, ctx) != paid),
    decreases hand.len() - i,
{
    if i < hand.len() {
        lemma_first_other_differs(hand, ctx, paid, i + 1);
    }
}

/// A bot whose time is up returns a card of its hand, and where it can one that is not wild and of
/// another rank than the tribute it was paid.
pub proof fn slow_bots_return_another_card(
    hand: HandState,
    seat: Seat,
    seq: u64,
    held: Seq<String>,
    j: int,
)
    requires
        held_by(hand, seat) == Some(held),
        0 <= j < held.len(),
    ensures
        overdue_return(hand, seat, seq) matches Ok(action) ==> (action matches Action::ReturnCard {
            card: text,
        } && (exists|i: int| 0 <= i < held.len() && (#[trigger] held[i])@ == text) && {
            let ctx = RuleContext { hand_level: hand.hand_level };
            let pairs = hand.tribute->Some_0.pairs@;
            let paid = card_named(
                pairs[owed_by(pairs, seat, 0)->Some_0].paid_card->Some_0@,
            )->Some_0;
            (card_named(held[j]@) matches Some(c) && !wild(c, ctx) && rank_order(c.rank, ctx)
                != rank_order(paid.rank, ctx)) ==> (card_named(text) matches Some(c) && !wild(c, ctx)
                && rank_order(c.rank, ctx) != rank_order(paid.rank, ctx))
        }),
{
    if overdue_return(hand, seat, seq) is Ok {
        let ctx = RuleContext { hand_level: hand.hand_level };
        let pairs = hand.tribute->Some_0.pairs@;
        let paid = card_named(pairs[owed_by(pairs, seat, 0)->Some_0].paid_card->Some_0@)->Some_0;
        lemma_first_other_differs(held, ctx, rank_order(paid.rank, ctx), 0);
        let at = first_other(held, ctx, rank_order(paid.rank, ctx), 0);
        assert(held[at]@ == held[at]@);
        assert(held[j] == held[j]);
    }
}

/// Those found silent are exactly the seated players who have not been heard of for half an hour
/// and are not away yet.
pub proof fn silent_players_are_found(seats: PerSeat<PlayerRecord>, now: u64, seat: Seat)
    ensures
        silent_from(seats, now, 0).contains(seat) <==> (seats.at(seat) matches Some(p) && p.presence
            != PlayerPresence::Away && now > p.last_activity_at + 30 * 60 * 1000),
{
    reveal_with_fuel(silent_from, 5);
    let list = silent_from(seats, now, 0);
    lemma_silent_from(seats, now, 0);
    let e = silent(seats.at(Seat::E), now);
    let s = silent(seats.at(Seat::S), now);
    let w = silent(seats.at(Seat::W), now);
    let n = silent(seats.at(Seat::N), now);
    let four = silent_from(seats, now, 4);
    let three = silent_from(seats, now, 3);
    let two = silent_from(seats, now, 2);
    let one = silent_from(seats, now, 1);
    assert(four.len() == 0);
    assert(n ==> three[0] == Seat::N);
    assert(w ==> two[0] == Seat::W);
    assert(s ==> one[0] == Seat::S);
    assert(e ==> list[0] == Seat::E);
    if silent(seats.at(seat), now) {
        if seat == Seat::E {
        } else if seat == Seat::S {
            assert(list == if e {
                seq![Seat::E] + one
            } else {
                one
            });
            assert(list[if e {
                1int
            } else {
                0
            }] == Seat::S);
        } else if seat == Seat::W {
            assert(one[if s {
                1int
            } else {
                0
            }] == Seat::W);
            let k: int = if s {
                1
            } else {
                0
            };
            assert(list[if e {
                k + 1
            } else {
                k
            }] == one[k]);
        } else {
            let k: int = if w {
                1
            } else {
                0
            };
            assert(two[k] == Seat::N);
            let m: int = if s {
                k + 1
            } else {
                k
            };
            assert(one[m] == two[k]);
            assert(list[if e {
                m + 1
            } else {
                m
            }] == one[m]);
        }
    } else if list.contains(seat) {
        let i = choose|i: int| 0 <= i < list.len() && list[i] == seat;
        assert(silent(seats.at(list[i]), now));
    }
}

/// A bot is overdue only after thirty seconds on the clock, which starts when its move is first
/// seen and stops when the move is another player's.
pub proof fn bots_have_thirty_seconds(state: TableRuntimeState, now: u64)
    ensures
        bot_overdue(state, now) ==> (state.bot_turn_started_at matches Some(start) && now > start
            + 30_000),
        (moving_player(state) matches Some(p) && p.player_type == PlayerType::Bot
            && state.bot_turn_started_at is None) ==> bot_clock(state, now) == Some(now),
        (moving_player(state) matches Some(p) && p.player_type != PlayerType::Bot) ==> bot_clock(
            state,
            now,
        ) is None && !bot_overdue(state, now),
        (moving_player(state) matches Some(p) && p.player_type == PlayerType::Bot && (
        state.bot_turn_started_at matches Some(start) && now <= start + 30_000)) ==> bot_clock(
            state,
            now,
        ) == state.bot_turn_started_at && !bot_overdue(state, now),
{
}

/// A game or hand starts only when everyone is ready: the first hand at a table that waits, the
/// next one where a hand is over and no championship is being shown. It starts at the level of the
/// declaring team.
pub proof fn hands_start_when_everyone_is_ready(state: TableRuntimeState, now: u64)
    ensures
        !everyone_ready(state) ==> step_of(state, now) is Changed,
        step_of(state, now) is StartGame ==> state.status == TableStatus::Waiting,
        step_of(state, now) is StartNextHand ==> state.status == TableStatus::InGame
            && state.waiting_next_hand_ready && !(state.champ_pause_until matches Some(until) && now
            < until),
        step_of(state, now) matches ReadyStep::StartGame { declarer, level } ==> declarer
            == state.current_declarer && level == (if declarer == TeamId::Ew {
            state.team_progress_ew.level
        } else {
            state.team_progress_sn.level
        }),
        everyone_ready(state) && state.status == TableStatus::Waiting ==> step_of(
            state,
            now,
        ) is StartGame,
        team_of(anchor_seat(state.current_declarer)) == state.current_declarer,
{
}

} // verus!
