//! A table: its players, its game and where the teams stand.

use vstd::prelude::*;
use vstd::string::*;
use crate::domain::{PerSeat, Seat, TeamId, seat_text};
use crate::game_types::TableGameState;
use crate::json::text_of;
use crate::scoring::{Level, TeamProgress};
use crate::text::{same_text, trim, trimmed};

verus! {

/// Why a request is turned down.
#[derive(Debug)]
pub enum AppError {
    NotFound(String),
    Forbidden(String),
    BadRequest(String),
    Conflict { message: String, code: &'static str, current_seq: Option<u64> },
    Unprocessable { message: String, code: &'static str, current_seq: Option<u64> },
}

/// The contents of an error.
pub ghost enum Refusal {
    NotFound(Seq<char>),
    Forbidden(Seq<char>),
    BadRequest(Seq<char>),
    Conflict { message: Seq<char>, code: Seq<char>, seq: Option<u64> },
    Unprocessable { message: Seq<char>, code: Seq<char>, seq: Option<u64> },
}

impl View for AppError {
    type V = Refusal;

    open spec fn view(&self) -> Refusal {
        match *self {
            AppError::NotFound(m) => Refusal::NotFound(m@),
            AppError::Forbidden(m) => Refusal::Forbidden(m@),
            AppError::BadRequest(m) => Refusal::BadRequest(m@),
            AppError::Conflict { message, code, current_seq } => Refusal::Conflict {
                message: message@,
                code: code@,
                seq: current_seq,
            },
            AppError::Unprocessable { message, code, current_seq } => Refusal::Unprocessable {
                message: message@,
                code: code@,
                seq: current_seq,
            },
        }
    }
}

/// A table whose state does not allow what is asked.
pub open spec fn bad_status(message: Seq<char>, seq: u64) -> Refusal {
    Refusal::Conflict { message, code: "INVALID_TABLE_STATUS"@, seq: Some(seq) }
}

/// An error about a table whose state does not allow what is asked.
pub fn status_conflict(message: &str, seq: u64) -> (e: AppError)
    ensures
        e@ == bad_status(message@, seq),
{
    AppError::Conflict {
        message: message.to_owned(),
        code: "INVALID_TABLE_STATUS",
        current_seq: Some(seq),
    }
}

#[derive(Clone, Copy, Debug, PartialEq, Eq, Structural)]
pub enum TableStatus {
    Waiting,
    InGame,
    Finished,
}

#[derive(Clone, Copy, Debug, PartialEq, Eq, Structural)]
pub enum PlayerType {
    Human,
    Bot,
    Agent,
}

#[derive(Clone, Copy, Debug, PartialEq, Eq, Structural)]
pub enum PlayerPresence {
    Active,
    Away,
}

/// A player at a table.
#[derive(Debug)]
pub struct PlayerRecord {
    pub player_id: String,
    pub player_key: String,
    pub player_name: String,
    pub player_type: PlayerType,
    pub player_model: Option<String>,
    pub presence: PlayerPresence,
    pub ready: bool,
    /// When the player was last heard of, in milliseconds.
    pub last_activity_at: u64,
}

/// A table.
pub struct TableRuntimeState {
    pub table_id: String,
    pub status: TableStatus,
    /// Number of changes so far.
    pub seq: u64,
    pub seats: PerSeat<PlayerRecord>,
    pub game: Option<TableGameState>,
    /// A hand is over and the players have to get ready for the next.
    pub waiting_next_hand_ready: bool,
    pub narration: String,
    pub team_progress_ew: TeamProgress,
    pub team_progress_sn: TeamProgress,
    pub current_declarer: TeamId,
    pub last_finishing_order: Vec<Seat>,
    pub game_winner_team_id: Option<TeamId>,
    /// When the turn of a bot began, in milliseconds.
    pub bot_turn_started_at: Option<u64>,
    /// Until when a championship is shown, in milliseconds.
    pub champ_pause_until: Option<u64>,
    /// The champion, if the next hand starts a new game.
    pub rematch_from_level2: Option<TeamId>,
}

/// Everything at a table but its seats, announcement, number of changes and clock for bots.
pub open spec fn same_game(a: TableRuntimeState, b: TableRuntimeState) -> bool {
    &&& a.table_id == b.table_id
    &&& a.status == b.status
    &&& a.game == b.game
    &&& a.waiting_next_hand_ready == b.waiting_next_hand_ready
    &&& a.team_progress_ew == b.team_progress_ew
    &&& a.team_progress_sn == b.team_progress_sn
    &&& a.current_declarer == b.current_declarer
    &&& a.last_finishing_order == b.last_finishing_order
    &&& a.game_winner_team_id == b.game_winner_team_id
    &&& a.champ_pause_until == b.champ_pause_until
    &&& a.rematch_from_level2 == b.rematch_from_level2
}

/// Whether the player at a seat has an id.
pub open spec fn sits_at(state: TableRuntimeState, id: Seq<char>, seat: Seat) -> bool {
    match state.seats.at(seat) {
        Some(p) => p.player_id@ == id,
        None => false,
    }
}

/// The first seat, in table order, of a player with an id.
pub open spec fn seat_held(state: TableRuntimeState, id: Seq<char>) -> Option<Seat> {
    if sits_at(state, id, Seat::E) {
        Some(Seat::E)
    } else if sits_at(state, id, Seat::S) {
        Some(Seat::S)
    } else if sits_at(state, id, Seat::W) {
        Some(Seat::W)
    } else if sits_at(state, id, Seat::N) {
        Some(Seat::N)
    } else {
        None
    }
}

/// The name at a seat; an empty seat goes by its letter.
pub open spec fn name_at(seats: PerSeat<PlayerRecord>, seat: Seat) -> Seq<char> {
    match seats.at(seat) {
        Some(p) => p.player_name@,
        None => seat_text(seat),
    }
}

/// A seat where someone sits and is ready.
pub open spec fn ready_at(seats: PerSeat<PlayerRecord>, seat: Seat) -> bool {
    seats.at(seat) matches Some(p) && p.ready
}

/// All four seats are taken by players who are ready.
pub open spec fn everyone_ready(state: TableRuntimeState) -> bool {
    forall|seat: Seat| #[trigger] ready_at(state.seats, seat)
}

/// A team's progress at the start of a game.
pub open spec fn start_of(team: TeamId, level: Level) -> TeamProgress {
    TeamProgress { team, level, ace_failed_attempts: 0 }
}

/// A player with another flag.
pub open spec fn with_ready(slot: Option<PlayerRecord>, ready: bool) -> Option<PlayerRecord> {
    match slot {
        Some(p) => Some(PlayerRecord { ready, ..p }),
        None => None,
    }
}

/// A player who was just heard of.
pub open spec fn with_activity(slot: Option<PlayerRecord>, now: u64) -> Option<PlayerRecord> {
    match slot {
        Some(p) => Some(PlayerRecord { last_activity_at: now, ..p }),
        None => None,
    }
}

/// A player who is away.
pub open spec fn with_away(slot: Option<PlayerRecord>) -> Option<PlayerRecord> {
    match slot {
        Some(p) => Some(PlayerRecord { presence: PlayerPresence::Away, ..p }),
        None => None,
    }
}

fn mark_ready(slot: &mut Option<PlayerRecord>, ready: bool)
    ensures
        *final(slot) == with_ready(*old(slot), ready),
{
    if let Some(p) = slot {
        p.ready = ready;
    }
}

fn mark_active(slot: &mut Option<PlayerRecord>, now: u64)
    ensures
        *final(slot) == with_activity(*old(slot), now),
{
    if let Some(p) = slot {
        p.last_activity_at = now;
    }
}

fn mark_away(slot: &mut Option<PlayerRecord>)
    ensures
        *final(slot) == with_away(*old(slot)),
{
    if let Some(p) = slot {
        p.presence = PlayerPresence::Away;
    }
}

impl TableRuntimeState {
    /// A table without players.
    pub fn new_with_level(table_id: String, level: Level) -> (state: TableRuntimeState)
        ensures
            state.table_id == table_id,
            state.status == TableStatus::Waiting,
            state.seq == 0,
            forall|seat: Seat| #[trigger] state.seats.at(seat) is None,
            state.game is None,
            !state.waiting_next_hand_ready,
            state.narration@.len() == 0,
            state.team_progress_ew == start_of(TeamId::Ew, level),
            state.team_progress_sn == start_of(TeamId::Sn, level),
            state.current_declarer == TeamId::Ew,
            state.last_finishing_order@.len() == 0,
            state.game_winner_team_id is None,
            state.bot_turn_started_at is None,
            state.champ_pause_until is None,
            state.rematch_from_level2 is None,
    {
        TableRuntimeState {
            table_id,
            status: TableStatus::Waiting,
            seq: 0,
            seats: PerSeat::empty(),
            game: None,
            waiting_next_hand_ready: false,
            narration: String::new(),
            team_progress_ew: TeamProgress { team: TeamId::Ew, level, ace_failed_attempts: 0 },
            team_progress_sn: TeamProgress { team: TeamId::Sn, level, ace_failed_attempts: 0 },
            current_declarer: TeamId::Ew,
            last_finishing_order: Vec::new(),
            game_winner_team_id: None,
            bot_turn_started_at: None,
            champ_pause_until: None,
            rematch_from_level2: None,
        }
    }

    fn sits(&self, player_id: &str, seat: Seat) -> (b: bool)
        ensures
            b == sits_at(*self, player_id@, seat),
    {
        match self.seats.get(seat) {
            Some(p) => same_text(p.player_id.as_str(), player_id),
            None => false,
        }
    }

    /// The seat of a player.
    pub fn seat_for_player(&self, player_id: &str) -> (seat: Option<Seat>)
        ensures
            seat == seat_held(*self, player_id@),
    {
        if self.sits(player_id, Seat::E) {
            Some(Seat::E)
        } else if self.sits(player_id, Seat::S) {
            Some(Seat::S)
        } else if self.sits(player_id, Seat::W) {
            Some(Seat::W)
        } else if self.sits(player_id, Seat::N) {
            Some(Seat::N)
        } else {
            None
        }
    }

    fn ready_seat(&self, seat: Seat) -> (b: bool)
        ensures
            b == ready_at(self.seats, seat),
    {
        match self.seats.get(seat) {
            Some(p) => p.ready,
            None => false,
        }
    }

    /// Whether all four seats are taken by players who are ready.
    pub fn all_ready(&self) -> (b: bool)
        ensures
            b == everyone_ready(*self),
    {
        let all = self.ready_seat(Seat::E) && self.ready_seat(Seat::S) && self.ready_seat(Seat::W)
            && self.ready_seat(Seat::N);
        proof {
            if all {
                assert forall|seat: Seat| #[trigger] ready_at(self.seats, seat) by {
                    match seat {
                        Seat::E => {},
                        Seat::S => {},
                        Seat::W => {},
                        Seat::N => {},
                    }
                }
            } else {
                assert(!ready_at(self.seats, Seat::E) || !ready_at(self.seats, Seat::S)
                    || !ready_at(self.seats, Seat::W) || !ready_at(self.seats, Seat::N));
            }
        }
        all
    }

    /// The name at a seat.
    pub fn player_name_for_seat(&self, seat: Seat) -> (name: String)
        ensures
            name@ == name_at(self.seats, seat),
    {
        match self.seats.get(seat) {
            Some(p) => p.player_name.clone(),
            None => seat.as_str().to_owned(),
        }
    }

    /// Sets a player's flag.
    pub fn set_ready_at(&mut self, seat: Seat, ready: bool)
        ensures
            forall|other: Seat| #[trigger]
                final(self).seats.at(other) == if other == seat {
                    with_ready(old(self).seats.at(other), ready)
                } else {
                    old(self).seats.at(other)
                },
            same_game(*final(self), *old(self)),
            final(self).seq == old(self).seq,
            final(self).narration == old(self).narration,
            final(self).bot_turn_started_at == old(self).bot_turn_started_at,
    {
        match seat {
            Seat::E => mark_ready(&mut self.seats.e, ready),
            Seat::S => mark_ready(&mut self.seats.s, ready),
            Seat::W => mark_ready(&mut self.seats.w, ready),
            Seat::N => mark_ready(&mut self.seats.n, ready),
        }
    }

    /// Nobody is ready any more.
    pub fn reset_all_players_ready(&mut self)
        ensures
            forall|seat: Seat| #[trigger]
                final(self).seats.at(seat) == with_ready(old(self).seats.at(seat), false),
            same_game(*final(self), *old(self)),
            final(self).seq == old(self).seq,
            final(self).narration == old(self).narration,
            final(self).bot_turn_started_at == old(self).bot_turn_started_at,
    {
        mark_ready(&mut self.seats.e, false);
        mark_ready(&mut self.seats.s, false);
        mark_ready(&mut self.seats.w, false);
        mark_ready(&mut self.seats.n, false);
    }

    /// Notes that a player was heard of; says whether the player sits here.
    pub fn touch_player_activity(&mut self, player_id: &str, now: u64) -> (found: bool)
        ensures
            found == (seat_held(*old(self), player_id@) is Some),
            forall|seat: Seat| #[trigger]
                final(self).seats.at(seat) == if seat_held(*old(self), player_id@) == Some(seat) {
                    with_activity(old(self).seats.at(seat), now)
                } else {
                    old(self).seats.at(seat)
                },
            same_game(*final(self), *old(self)),
            final(self).seq == old(self).seq,
            final(self).narration == old(self).narration,
            final(self).bot_turn_started_at == old(self).bot_turn_started_at,
    {
        match self.seat_for_player(player_id) {
            Some(Seat::E) => mark_active(&mut self.seats.e, now),
            Some(Seat::S) => mark_active(&mut self.seats.s, now),
            Some(Seat::W) => mark_active(&mut self.seats.w, now),
            Some(Seat::N) => mark_active(&mut self.seats.n, now),
            None => {
                return false;
            },
        }
        true
    }

    /// Marks the player at a seat as away.
    pub fn set_away_at(&mut self, seat: Seat)
        ensures
            forall|other: Seat| #[trigger]
                final(self).seats.at(other) == if other == seat {
                    with_away(old(self).seats.at(other))
                } else {
                    old(self).seats.at(other)
                },
            same_game(*final(self), *old(self)),
            final(self).seq == old(self).seq,
            final(self).narration == old(self).narration,
            final(self).bot_turn_started_at == old(self).bot_turn_started_at,
    {
        match seat {
            Seat::E => mark_away(&mut self.seats.e),
            Seat::S => mark_away(&mut self.seats.s),
            Seat::W => mark_away(&mut self.seats.w),
            Seat::N => mark_away(&mut self.seats.n),
        }
    }
}

/// Why a player is not who the request says, if so.
pub open spec fn identity_refusal(
    state: TableRuntimeState,
    id: Seq<char>,
    key: Seq<char>,
) -> Option<Refusal> {
    match seat_held(state, id) {
        None => Some(Refusal::Forbidden("playerId is not seated at this table"@)),
        Some(seat) => match state.seats.at(seat) {
            Some(p) => if p.player_key@ == key {
                None
            } else {
                Some(Refusal::Forbidden("invalid playerKey for playerId"@))
            },
            None => Some(Refusal::Forbidden("playerId is not seated at this table"@)),
        },
    }
}

/// Checks that a player sits at a table and has the right key.
pub fn verify_player_identity(state: &TableRuntimeState, player_id: &str, player_key: &str) -> (checked:
    Result<(), AppError>)
    ensures
        match checked {
            Ok(_) => identity_refusal(*state, player_id@, player_key@) is None,
            Err(e) => identity_refusal(*state, player_id@, player_key@) == Some(e@),
        },
{
    let seat = match state.seat_for_player(player_id) {
        Some(s) => s,
        None => {
            return Err(AppError::Forbidden("playerId is not seated at this table".to_owned()));
        },
    };
    match state.seats.get(seat) {
        Some(p) => if same_text(p.player_key.as_str(), player_key) {
            Ok(())
        } else {
            Err(AppError::Forbidden("invalid playerKey for playerId".to_owned()))
        },
        None => Err(AppError::Forbidden("playerId is not seated at this table".to_owned())),
    }
}

/// A seat of choice, or any.
#[derive(Clone, Copy, Debug, PartialEq, Eq, Structural)]
pub enum SeatOrAuto {
    Auto,
    Fixed(Seat),
}

/// The seat that a text asks for.
pub open spec fn seat_asked(text: Seq<char>) -> Option<SeatOrAuto> {
    if text == "auto"@ {
        Some(SeatOrAuto::Auto)
    } else if text == seat_text(Seat::E) {
        Some(SeatOrAuto::Fixed(Seat::E))
    } else if text == seat_text(Seat::S) {
        Some(SeatOrAuto::Fixed(Seat::S))
    } else if text == seat_text(Seat::W) {
        Some(SeatOrAuto::Fixed(Seat::W))
    } else if text == seat_text(Seat::N) {
        Some(SeatOrAuto::Fixed(Seat::N))
    } else {
        None
    }
}

/// A text in quotation marks, as `core::fmt::Debug` writes it.
pub uninterp spec fn quoted(text: Seq<char>) -> Seq<char>;

/// Writes a text in quotation marks, with what needs it escaped, by `core::fmt::Debug` of
/// `str`.
#[verifier::external_body]
fn quote(text: &str) -> (out: String)
    ensures
        out@ == quoted(text@),
{
    format!("{:?}", text)
}

impl SeatOrAuto {
    /// Reads the seat that a text asks for: one of the letters E, S, W, N, or `auto`.
    pub fn parse(s: &str) -> (seat: Result<Self, AppError>)
        ensures
            match seat {
                Ok(found) => seat_asked(s@) == Some(found),
                Err(e) => seat_asked(s@) is None && e@ == Refusal::BadRequest(
                    "invalid seat "@ + quoted(s@),
                ),
            },
    {
        if same_text(s, "auto") {
            Ok(SeatOrAuto::Auto)
        } else if same_text(s, Seat::E.as_str()) {
            Ok(SeatOrAuto::Fixed(Seat::E))
        } else if same_text(s, Seat::S.as_str()) {
            Ok(SeatOrAuto::Fixed(Seat::S))
        } else if same_text(s, Seat::W.as_str()) {
            Ok(SeatOrAuto::Fixed(Seat::W))
        } else if same_text(s, Seat::N.as_str()) {
            Ok(SeatOrAuto::Fixed(Seat::N))
        } else {
            Err(AppError::BadRequest("invalid seat ".to_owned().concat(quote(s).as_str())))
        }
    }
}

/// The first empty seat in table order.
pub open spec fn first_empty(seats: PerSeat<PlayerRecord>) -> Option<Seat> {
    if seats.at(Seat::E) is None {
        Some(Seat::E)
    } else if seats.at(Seat::S) is None {
        Some(Seat::S)
    } else if seats.at(Seat::W) is None {
        Some(Seat::W)
    } else if seats.at(Seat::N) is None {
        Some(Seat::N)
    } else {
        None
    }
}

/// The seat that a player gets, or why there is none.
pub open spec fn seat_given(state: TableRuntimeState, asked: SeatOrAuto) -> Result<Seat, Refusal> {
    match asked {
        SeatOrAuto::Auto => match first_empty(state.seats) {
            Some(seat) => Ok(seat),
            None => Err(
                Refusal::Conflict {
                    message: "table is full"@,
                    code: "TABLE_FULL"@,
                    seq: Some(state.seq),
                },
            ),
        },
        SeatOrAuto::Fixed(seat) => if state.seats.at(seat) is Some {
            Err(
                Refusal::Conflict {
                    message: "seat "@ + seat_text(seat) + " is occupied"@,
                    code: "SEAT_TAKEN"@,
                    seq: Some(state.seq),
                },
            )
        } else {
            Ok(seat)
        },
    }
}

/// Finds the seat that a player gets.
pub fn pick_seat(state: &TableRuntimeState, requested: SeatOrAuto) -> (seat: Result<Seat, AppError>)
    ensures
        match seat {
            Ok(s) => seat_given(*state, requested) == Ok::<Seat, Refusal>(s),
            Err(e) => seat_given(*state, requested) == Err::<Seat, Refusal>(e@),
        },
{
    match requested {
        SeatOrAuto::Auto => {
            if state.seats.get(Seat::E).is_none() {
                Ok(Seat::E)
            } else if state.seats.get(Seat::S).is_none() {
                Ok(Seat::S)
            } else if state.seats.get(Seat::W).is_none() {
                Ok(Seat::W)
            } else if state.seats.get(Seat::N).is_none() {
                Ok(Seat::N)
            } else {
                Err(
                    AppError::Conflict {
                        message: "table is full".to_owned(),
                        code: "TABLE_FULL",
                        current_seq: Some(state.seq),
                    },
                )
            }
        },
        SeatOrAuto::Fixed(seat) => {
            if state.seats.get(seat).is_some() {
                Err(
                    AppError::Conflict {
                        message: "seat ".to_owned().concat(seat.as_str()).concat(" is occupied"),
                        code: "SEAT_TAKEN",
                        current_seq: Some(state.seq),
                    },
                )
            } else {
                Ok(seat)
            }
        },
    }
}

/// The model that a player goes by: only bots have one, and not a blank one.
pub open spec fn model_kept(player_type: PlayerType, model: Option<Seq<char>>) -> Option<Seq<char>> {
    if player_type != PlayerType::Bot {
        None
    } else {
        match model {
            Some(m) => if trimmed(m).len() == 0 {
                None
            } else {
                Some(trimmed(m))
            },
            None => None,
        }
    }
}

/// Cleans up the model that a player goes by.
pub fn normalize_player_model(player_type: PlayerType, player_model: Option<String>) -> (model: Option<
    String,
>)
    ensures
        text_of(model) == model_kept(player_type, text_of(player_model)),
{
    if player_type != PlayerType::Bot {
        return None;
    }
    match player_model {
        Some(m) => {
            let short = trim(m.as_str());
            if short.is_empty() {
                None
            } else {
                Some(short.to_owned())
            }
        },
        None => None,
    }
}

/// A player who joins.
#[derive(Debug)]
pub struct NewPlayer {
    pub player_id: String,
    pub player_key: String,
    pub player_name: String,
    pub player_type: PlayerType,
    pub player_model: Option<String>,
}

/// Why a player cannot join, if so.
pub open spec fn join_refusal(state: TableRuntimeState, asked: SeatOrAuto) -> Option<Refusal> {
    if state.status != TableStatus::Waiting {
        Some(bad_status("cannot join: game already started or finished"@, state.seq))
    } else {
        match seat_given(state, asked) {
            Ok(_) => None,
            Err(e) => Some(e),
        }
    }
}

/// The record of a player who joins.
pub open spec fn joined_record(r: PlayerRecord, player: NewPlayer, now: u64) -> bool {
    &&& r.player_id@ == player.player_id@
    &&& r.player_key@ == player.player_key@
    &&& r.player_name@ == player.player_name@
    &&& r.player_type == player.player_type
    &&& text_of(r.player_model) == model_kept(player.player_type, text_of(player.player_model))
    &&& r.presence == PlayerPresence::Active
    &&& !r.ready
    &&& r.last_activity_at == now
}

/// Seats a player at a table that has not started.
pub fn join_table(
    state: &mut TableRuntimeState,
    player: NewPlayer,
    seat: SeatOrAuto,
    now: u64,
) -> (joined: Result<Seat, AppError>)
    requires
        old(state).seq < u64::MAX,
    ensures
        match joined {
            Ok(s) => {
                &&& join_refusal(*old(state), seat) is None
                &&& seat_given(*old(state), seat) == Ok::<Seat, Refusal>(s)
                &&& final(state).seats.at(s) matches Some(r) && joined_record(r, player, now)
                &&& forall|other: Seat| #[trigger]
                    final(state).seats.at(other) == old(state).seats.at(other) || other == s
                &&& final(state).seq == old(state).seq + 1
                &&& final(state).narration == old(state).narration
                &&& final(state).bot_turn_started_at == old(state).bot_turn_started_at
                &&& same_game(*final(state), *old(state))
            },
            Err(e) => join_refusal(*old(state), seat) == Some(e@) && *final(state) == *old(state),
        },
{
    if state.status != TableStatus::Waiting {
        return Err(
            status_conflict("cannot join: game already started or finished", state.seq),
        );
    }
    let place = match pick_seat(state, seat) {
        Ok(s) => s,
        Err(e) => {
            return Err(e);
        },
    };
    let player_model = normalize_player_model(player.player_type, player.player_model);
    state.seats.insert(
        place,
        PlayerRecord {
            player_id: player.player_id,
            player_key: player.player_key,
            player_name: player.player_name,
            player_type: player.player_type,
            player_model,
            presence: PlayerPresence::Active,
            ready: false,
            last_activity_at: now,
        },
    );
    state.seq = state.seq + 1;
    Ok(place)
}

/// What comes before the first hyphen of a text.
pub open spec fn before_hyphen(text: Seq<char>) -> Seq<char>
    decreases text.len(),
{
    if text.len() == 0 || text[0] == '-' {
        Seq::empty()
    } else {
        seq![text[0]] + before_hyphen(text.drop_first())
    }
}

/// A hexadecimal digit in lower case.
pub open spec fn hex_digit(c: char) -> bool {
    '0' <= c <= '9' || 'a' <= c <= 'f'
}

/// Nothing but hexadecimal digits.
pub open spec fn all_hex(text: Seq<char>) -> bool {
    forall|i: int| 0 <= i < text.len() ==> hex_digit(#[trigger] text[i])
}

/// Thirty-two hexadecimal digits in five groups, with hyphens between them.
pub open spec fn hyphenated(text: Seq<char>) -> bool {
    &&& text.len() == 36
    &&& forall|i: int|
        0 <= i < 36 ==> if i == 8 || i == 13 || i == 18 || i == 23 {
            #[trigger] text[i] == '-'
        } else {
            hex_digit(text[i])
        }
}

/// A new identifier, by `uuid::Uuid::new_v4` and its `to_string`: chance decides which, but it is
/// hyphenated and in lower case.
#[verifier::external_body]
pub(crate) fn fresh_uuid() -> (text: String)
    ensures
        hyphenated(text@),
{
    uuid::Uuid::new_v4().to_string()
}

/// What comes before the first hyphen of a text.
pub fn first_segment(text: &str) -> (part: String)
    ensures
        part@ == before_hyphen(text@),
{
    let n: usize = text.unicode_len();
    let mut i: usize = 0;
    assert(text@.skip(0) =~= text@);
    assert(text@.take(0) + before_hyphen(text@) =~= before_hyphen(text@));
    while i < n && text.get_char(i) != '-'
        invariant
            n == text@.len(),
            i <= n,
            before_hyphen(text@) == text@.take(i as int) + before_hyphen(text@.skip(i as int)),
        decreases n - i,
    {
        let ghost rest = text@.skip(i as int);
        assert(rest.drop_first() =~= text@.skip(i + 1));
        assert(text@.take(i + 1) =~= text@.take(i as int) + seq![rest[0]]);
        assert(text@.take(i as int) + (seq![rest[0]] + before_hyphen(text@.skip(i + 1)))
            =~= text@.take(i + 1) + before_hyphen(text@.skip(i + 1)));
        i = i + 1;
    }
    assert(before_hyphen(text@.skip(i as int)) =~= Seq::<char>::empty());
    assert(text@.take(i as int) =~= text@.subrange(0, i as int));
    text.substring_char(0, i).to_owned()
}

proof fn lemma_before_hyphen(text: Seq<char>, n: int)
    requires
        0 <= n < text.len(),
        text[n] == '-',
        forall|i: int| 0 <= i < n ==> #[trigger] text[i] != '-',
    ensures
        before_hyphen(text) == text.take(n),
    decreases n,
{
    if n > 0 {
        let rest = text.drop_first();
        assert forall|i: int| 0 <= i < n - 1 implies #[trigger] rest[i] != '-' by {
            assert(rest[i] == text[i + 1]);
        }
        lemma_before_hyphen(rest, n - 1);
        assert(seq![text[0]] + rest.take(n - 1) =~= text.take(n));
    } else {
        assert(text.take(0) =~= Seq::<char>::empty());
    }
}

/// A short identifier: the eight hexadecimal digits that a new one starts with.
pub fn uuid_short_fragment() -> (part: String)
    ensures
        part@.len() == 8,
        all_hex(part@),
{
    let whole = fresh_uuid();
    proof {
        assert forall|i: int| 0 <= i < 8 implies #[trigger] whole@[i] != '-' by {
            assert(hex_digit(whole@[i]));
        }
        lemma_before_hyphen(whole@, 8);
    }
    first_segment(whole.as_str())
}

/// A text followed by eight hexadecimal digits.
pub open spec fn tagged(id: Seq<char>, tag: Seq<char>) -> bool {
    id.len() == tag.len() + 8 && tag.is_prefix_of(id) && all_hex(id.skip(tag.len() as int))
}

fn fresh_id(tag: &str) -> (id: String)
    ensures
        tagged(id@, tag@),
{
    let part = uuid_short_fragment();
    let id = tag.to_owned().concat(part.as_str());
    assert(id@.skip(tag@.len() as int) =~= part@);
    id
}

/// A new identifier for a table.
pub fn fresh_table_id() -> (id: String)
    ensures
        tagged(id@, "t_"@),
{
    fresh_id("t_")
}

/// A new identifier for a player.
pub fn fresh_player_id() -> (id: String)
    ensures
        tagged(id@, "p_"@),
{
    fresh_id("p_")
}

/// Nobody is seated on top of somebody else: a seat that is given was free, and whoever finds no
/// seat at a table that is not full has asked for a taken one.
pub proof fn only_free_seats_are_given(state: TableRuntimeState, asked: SeatOrAuto)
    ensures
        seat_given(state, asked) matches Ok(seat) ==> state.seats.at(seat) is None,
        seat_given(state, asked) is Err && first_empty(state.seats) is Some ==> (
        asked matches SeatOrAuto::Fixed(seat) && state.seats.at(seat) is Some),
{
}

/// A request is let in only with the key of the player it names: whoever is not seated, or has
/// another key, is turned away.
pub proof fn only_the_right_key_is_let_in(state: TableRuntimeState, id: Seq<char>, key: Seq<char>)
    ensures
        identity_refusal(state, id, key) is None ==> exists|seat: Seat|
            (#[trigger] state.seats.at(seat) matches Some(p) && p.player_id@ == id && p.player_key@
                == key),
        (forall|seat: Seat|
            (#[trigger] state.seats.at(seat) matches Some(p) ==> p.player_id@ != id || p.player_key@
                != key)) ==> (identity_refusal(state, id, key) matches Some(r) && r is Forbidden),
        (exists|seat: Seat|
            (#[trigger] state.seats.at(seat) matches Some(p) && p.player_id@ == id && p.player_key@
                == key)) && (forall|a: Seat, b: Seat|
            sits_at(state, id, a) && sits_at(state, id, b) ==> a == b) ==> identity_refusal(
            state,
            id,
            key,
        ) is None,
{
    if let Some(seat) = seat_held(state, id) {
        assert(sits_at(state, id, seat));
        assert(state.seats.at(seat) is Some);
    }
    if exists|seat: Seat|
        (#[trigger] state.seats.at(seat) matches Some(p) && p.player_id@ == id && p.player_key@
            == key) {
        let seat = choose|seat: Seat|
            (#[trigger] state.seats.at(seat) matches Some(p) && p.player_id@ == id && p.player_key@
                == key);
        assert(sits_at(state, id, seat));
        if forall|a: Seat, b: Seat| sits_at(state, id, a) && sits_at(state, id, b) ==> a == b {
            assert(seat_held(state, id) is Some);
            assert(sits_at(state, id, seat_held(state, id)->Some_0));
            assert(seat_held(state, id) == Some(seat));
        }
    }
}

/// A player is found where they sit, and nobody is found who does not.
pub proof fn players_are_found_where_they_sit(state: TableRuntimeState, id: Seq<char>)
    ensures
        match seat_held(state, id) {
            Some(seat) => state.seats.at(seat) matches Some(p) && p.player_id@ == id,
            None => forall|seat: Seat|
                (#[trigger] state.seats.at(seat) matches Some(p) ==> p.player_id@ != id),
        },
{
    if let Some(seat) = seat_held(state, id) {
        assert(sits_at(state, id, seat));
    } else {
        assert forall|seat: Seat|
            (#[trigger] state.seats.at(seat) matches Some(p) ==> p.player_id@ != id) by {
            assert(!sits_at(state, id, Seat::E) && !sits_at(state, id, Seat::S) && !sits_at(
                state,
                id,
                Seat::W,
            ) && !sits_at(state, id, Seat::N));
            assert(!sits_at(state, id, seat));
        }
    }
}

/// Players join only a table that waits. Whoever asks for any seat gets the first free one in the
/// order east, south, west, north, and finds none only where all four are taken; whoever asks for a
/// seat gets that one.
pub proof fn players_join_while_the_table_waits(state: TableRuntimeState, asked: SeatOrAuto, seat: Seat)
    ensures
        join_refusal(state, asked) is None ==> state.status == TableStatus::Waiting,
        state.status == TableStatus::Waiting && asked == SeatOrAuto::Auto ==> (join_refusal(
            state,
            asked,
        ) is Some <==> state.seats.at(Seat::E) is Some && state.seats.at(Seat::S) is Some
            && state.seats.at(Seat::W) is Some && state.seats.at(Seat::N) is Some),
        state.status == TableStatus::Waiting && asked == SeatOrAuto::Fixed(seat) ==> (join_refusal(
            state,
            asked,
        ) is Some <==> state.seats.at(seat) is Some),
        asked == SeatOrAuto::Fixed(seat) ==> (seat_given(state, asked) matches Ok(s) ==> s == seat),
        asked == SeatOrAuto::Auto ==> (seat_given(state, asked) matches Ok(s) ==> state.seats.at(s)
            is None && (s != Seat::E ==> state.seats.at(Seat::E) is Some) && (s == Seat::W || s
            == Seat::N ==> state.seats.at(Seat::S) is Some) && (s == Seat::N ==> state.seats.at(
            Seat::W,
        ) is Some)),
{
}

/// Everyone is ready where four players sit and each of them is.
pub proof fn everyone_is_ready_at_four_seats(state: TableRuntimeState)
    ensures
        everyone_ready(state) <==> (state.seats.e matches Some(p) && p.ready) && (
        state.seats.s matches Some(p) && p.ready) && (state.seats.w matches Some(p) && p.ready) && (
        state.seats.n matches Some(p) && p.ready),
{
    if everyone_ready(state) {
        assert(ready_at(state.seats, Seat::E) && ready_at(state.seats, Seat::S) && ready_at(
            state.seats,
            Seat::W,
        ) && ready_at(state.seats, Seat::N));
    } else {
        let seat = choose|seat: Seat| !#[trigger] ready_at(state.seats, seat);
        assert(!ready_at(state.seats, seat));
    }
}

/// Only bots go by a model, and not by a blank one.
pub proof fn only_bots_have_a_model(kind: PlayerType, model: Seq<char>)
    ensures
        kind != PlayerType::Bot ==> model_kept(kind, Some(model)) is None,
        kind == PlayerType::Bot && trimmed(model).len() > 0 ==> model_kept(kind, Some(model)) == Some(
            trimmed(model),
        ),
        trimmed(model).len() == 0 ==> model_kept(kind, Some(model)) is None,
        model_kept(kind, None) is None,
{
}

} // verus!
