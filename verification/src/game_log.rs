//! The log of finished hands.

use vstd::prelude::*;
use vstd::string::*;
use crate::cards::level_text;
use crate::domain::{PerSeat, Seat, TeamId, seat_at, seat_text, team_of, team_text};
use crate::game_types::{HandHistoryEntry, HistoryActionKind};
use crate::params::AdvancedBotParams;
use crate::table::{PlayerRecord, PlayerType, TableRuntimeState};
use crate::table_actions::list_of;
use crate::text::{copy_texts, texts};

verus! {

/// One action of a logged hand.
#[derive(Debug)]
pub struct GameAction {
    pub seat: String,
    pub seat_team: String,
    pub action_type: String,
    pub cards: Option<Vec<String>>,
    pub seq: u64,
}

/// A logged hand.
#[derive(Debug)]
pub struct GameLogEntry {
    pub game_id: String,
    pub table_id: String,
    pub start_time: String,
    pub end_time: String,
    pub finishing_order: Vec<String>,
    pub winner_team: String,
    pub bot_seats: Vec<String>,
    pub human_seats: Vec<String>,
    pub bot_params: Option<AdvancedBotParams>,
    pub actions: Vec<GameAction>,
    pub hand_level: String,
}

/// The team of a seat, in letters.
pub fn seat_to_team_str(seat: Seat) -> (text: String)
    ensures
        text@ == team_text(team_of(seat)),
{
    seat.team().as_str().to_owned()
}

/// A team, in letters.
pub fn team_to_str(team: TeamId) -> (text: String)
    ensures
        text@ == team_text(team),
{
    team.as_str().to_owned()
}

/// The letters of seats.
pub open spec fn seat_letters(order: Seq<Seat>) -> Seq<Seq<char>> {
    order.map_values(|s: Seat| seat_text(s))
}

/// The seats from the `i`-th on that are taken by players of a type.
pub open spec fn seats_of_type(seats: PerSeat<PlayerRecord>, kind: PlayerType, i: int) -> Seq<Seq<char>>
    decreases 4 - i,
{
    if i >= 4 {
        Seq::empty()
    } else {
        let rest = seats_of_type(seats, kind, i + 1);
        match seats.at(seat_at(i)) {
            Some(p) => if p.player_type == kind {
                seq![seat_text(seat_at(i))] + rest
            } else {
                rest
            },
            None => rest,
        }
    }
}

fn letters_of_type(seats: &PerSeat<PlayerRecord>, kind: PlayerType) -> (list: Vec<String>)
    ensures
        texts(list@) == seats_of_type(*seats, kind, 0),
{
    let all = Seat::all();
    let mut out: Vec<String> = Vec::new();
    let mut i: usize = 0;
    assert(texts(out@) + seats_of_type(*seats, kind, 0) =~= seats_of_type(*seats, kind, 0));
    while i < 4
        invariant
            i <= 4,
            forall|i: int| 0 <= i < 4 ==> #[trigger] all@[i] == seat_at(i),
            texts(out@) + seats_of_type(*seats, kind, i as int) =~= seats_of_type(*seats, kind, 0),
        decreases 4 - i,
    {
        assert(all@[i as int] == seat_at(i as int));
        let seat = all[i];
        if let Some(p) = seats.get(seat) {
            if p.player_type == kind {
                let ghost done = out@;
                let text = seat.as_str().to_owned();
                out.push(text);
                assert(texts(out@) =~= texts(done).push(text@));
            }
        }
        i = i + 1;
    }
    assert(texts(out@) + Seq::<Seq<char>>::empty() =~= texts(out@));
    out
}

/// An action of a hand, as it is logged.
pub open spec fn logged(a: GameAction, e: HandHistoryEntry) -> bool {
    &&& a.seat@ == seat_text(e.seat)
    &&& a.seat_team@ == team_text(team_of(e.seat))
    &&& a.action_type@ == match e.action_type {
        HistoryActionKind::Play => "play"@,
        HistoryActionKind::Pass => "pass"@,
    }
    &&& list_of(a.cards) == if e.cards@.len() == 0 {
        None
    } else {
        Some(texts(e.cards@))
    }
    &&& a.seq == e.seq
}

fn log_action(e: &HandHistoryEntry) -> (a: GameAction)
    ensures
        logged(a, *e),
{
    let action_type: &str = match e.action_type {
        HistoryActionKind::Play => "play",
        HistoryActionKind::Pass => "pass",
    };
    let cards: Option<Vec<String>> = if e.cards.len() == 0 {
        None
    } else {
        Some(copy_texts(e.cards.as_slice()))
    };
    GameAction {
        seat: e.seat.as_str().to_owned(),
        seat_team: seat_to_team_str(e.seat),
        action_type: action_type.to_owned(),
        cards,
        seq: e.seq,
    }
}

/// What the log needs to know besides the table.
#[derive(Debug)]
pub struct LogHeader {
    pub game_id: String,
    pub start_time: String,
    pub end_time: String,
    pub bot_params: Option<AdvancedBotParams>,
}

fn letters_in_order(order: &Vec<Seat>) -> (list: Vec<String>)
    ensures
        texts(list@) == seat_letters(order@),
{
    let mut out: Vec<String> = Vec::new();
    for i in 0..order.len()
        invariant
            texts(out@) =~= seat_letters(order@.take(i as int)),
    {
        let ghost done = out@;
        let text = order[i].as_str().to_owned();
        out.push(text);
        assert(texts(out@) =~= texts(done).push(text@));
        assert(seat_letters(order@.take(i + 1)) =~= seat_letters(order@.take(i as int)).push(text@));
    }
    assert(order@.take(order@.len() as int) =~= order@);
    out
}

/// The log entry of the hand that a table has finished; none where it has no hand. Without
/// bots at the table no weights are logged.
pub fn log_entry_of(
    state: &TableRuntimeState,
    completed_order: &Vec<Seat>,
    winner: TeamId,
    header: LogHeader,
) -> (entry: Option<GameLogEntry>)
    ensures
        match entry {
            None => state.game is None || state.game->Some_0.hand is None,
            Some(e) => {
                &&& state.game matches Some(game) && game.hand matches Some(hand) && {
                    &&& e.table_id@ == game.table_id@
                    &&& e.actions@.len() == hand.history@.len()
                    &&& forall|i: int|
                        0 <= i < e.actions@.len() ==> logged(
                            #[trigger] e.actions@[i],
                            hand.history@[i],
                        )
                    &&& e.hand_level@ == level_text(hand.hand_level)
                }
                &&& e.game_id@ == header.game_id@
                &&& e.start_time@ == header.start_time@
                &&& e.end_time@ == header.end_time@
                &&& texts(e.finishing_order@) == seat_letters(completed_order@)
                &&& e.winner_team@ == team_text(winner)
                &&& texts(e.bot_seats@) == seats_of_type(state.seats, PlayerType::Bot, 0)
                &&& texts(e.human_seats@) == seats_of_type(state.seats, PlayerType::Human, 0)
                &&& e.bot_params == if e.bot_seats@.len() == 0 {
                    None
                } else {
                    header.bot_params
                }
            },
        },
{
    let game = match &state.game {
        Some(g) => g,
        None => {
            return None;
        },
    };
    let hand = match &game.hand {
        Some(h) => h,
        None => {
            return None;
        },
    };
    let mut actions: Vec<GameAction> = Vec::new();
    for i in 0..hand.history.len()
        invariant
            actions@.len() == i,
            forall|j: int| 0 <= j < i ==> logged(#[trigger] actions@[j], hand.history@[j]),
    {
        actions.push(log_action(&hand.history[i]));
    }
    let bot_seats = letters_of_type(&state.seats, PlayerType::Bot);
    let bot_params = if bot_seats.len() == 0 {
        None
    } else {
        header.bot_params
    };
    Some(
        GameLogEntry {
            game_id: header.game_id,
            table_id: game.table_id.clone(),
            start_time: header.start_time,
            end_time: header.end_time,
            finishing_order: letters_in_order(completed_order),
            winner_team: team_to_str(winner),
            bot_seats,
            human_seats: letters_of_type(&state.seats, PlayerType::Human),
            bot_params,
            actions,
            hand_level: hand.hand_level.as_api_str().to_owned(),
        },
    )
}

/// Entries that wait to be written.
#[derive(Debug)]
pub struct GameLogger {
    entries: Vec<GameLogEntry>,
    flush_interval: usize,
}

impl GameLogger {
    pub closed spec fn waiting(&self) -> Seq<GameLogEntry> {
        self.entries@
    }

    pub closed spec fn interval(&self) -> usize {
        self.flush_interval
    }

    /// Writes after every `flush_interval` entries.
    pub fn new(flush_interval: usize) -> (logger: Self)
        ensures
            logger.waiting().len() == 0,
            logger.interval() == flush_interval,
    {
        GameLogger { entries: Vec::new(), flush_interval }
    }

    /// Adds an entry; says whether it is time to write.
    pub fn log_game(&mut self, entry: GameLogEntry) -> (due: bool)
        ensures
            final(self).waiting() == old(self).waiting().push(entry),
            final(self).interval() == old(self).interval(),
            due == (final(self).waiting().len() >= old(self).interval()),
    {
        self.entries.push(entry);
        self.entries.len() >= self.flush_interval
    }

    /// The entries that wait.
    pub fn entries(&self) -> (list: &Vec<GameLogEntry>)
        ensures
            list@ == self.waiting(),
    {
        &self.entries
    }

    /// Forgets the entries, which have been written.
    pub fn written(&mut self)
        ensures
            final(self).waiting().len() == 0,
            final(self).interval() == old(self).interval(),
    {
        self.entries = Vec::new();
    }
}

impl Default for GameLogger {
    fn default() -> (logger: Self)
        ensures
            logger.waiting().len() == 0,
            logger.interval() == 10,
    {
        GameLogger { entries: Vec::new(), flush_interval: 10 }
    }
}

proof fn lemma_seats_of_type(seats: PerSeat<PlayerRecord>, kind: PlayerType, i: int, text: Seq<char>)
    requires
        0 <= i <= 4,
    ensures
        seats_of_type(seats, kind, i).contains(text) <==> exists|k: int|
            i <= k < 4 && text == seat_text(#[trigger] seat_at(k)) && (seats.at(seat_at(k))
                matches Some(p) && p.player_type == kind),
    decreases 4 - i,
{
    if i < 4 {
        lemma_seats_of_type(seats, kind, i + 1, text);
        let rest = seats_of_type(seats, kind, i + 1);
        let list = seats_of_type(seats, kind, i);
        let here = seats.at(seat_at(i)) matches Some(p) && p.player_type == kind;
        if here {
            assert(list == seq![seat_text(seat_at(i))] + rest);
            assert(list[0] == seat_text(seat_at(i)));
            if rest.contains(text) {
                let k = choose|k: int| 0 <= k < rest.len() && rest[k] == text;
                assert(list[k + 1] == text);
            }
            if list.contains(text) && text != seat_text(seat_at(i)) {
                let k = choose|k: int| 0 <= k < list.len() && list[k] == text;
                assert(rest[k - 1] == text);
            }
        } else {
            assert(list == rest);
        }
    }
}

/// The seats that are logged as those of bots, or of people, are exactly the ones where such
/// players sit.
pub proof fn seats_are_logged_by_who_sits(seats: PerSeat<PlayerRecord>, kind: PlayerType, seat: Seat)
    ensures
        seats_of_type(seats, kind, 0).contains(seat_text(seat)) <==> (seats.at(seat) matches Some(p)
            && p.player_type == kind),
{
    lemma_seats_of_type(seats, kind, 0, seat_text(seat));
    assert(seat_at(0) == Seat::E && seat_at(1) == Seat::S && seat_at(2) == Seat::W && seat_at(3)
        == Seat::N);
    assert(seat_text(Seat::E)[0] == 'E' && seat_text(Seat::S)[0] == 'S' && seat_text(Seat::W)[0]
        == 'W' && seat_text(Seat::N)[0] == 'N');
}

} // verus!
